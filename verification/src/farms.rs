use vstd::prelude::*;
use crate::consts::{Contracts, Methods};
use crate::decimal::{decimal_u128, parse_u128};
use crate::error::AggregationError;
use crate::models::{FarmInfo, FarmView};
use crate::request::{view_call, ViewArgs, ViewArgsView, ViewRequest, ViewRequestView};
use crate::text::{add_once, lemma_with_text, same_text, with_text};

verus! {

/// How many seeds the one page of the seed listing asks for.
pub const SEED_PAGE_LIMIT: u64 = 100;

/// Whether the three reward amounts that decide a farm's activity are
/// numerals of unsigned 128-bit numbers.
pub open spec fn rewards_readable(farm: FarmView) -> bool {
    &&& decimal_u128(farm.total_reward) is Some
    &&& decimal_u128(farm.claimed_reward) is Some
    &&& decimal_u128(farm.unclaimed_reward) is Some
}

/// A farm is active if it is running and its total reward is strictly more
/// than what was claimed and what is still unclaimed together. The amounts
/// are compared as numbers, and their sum is not cut to 128 bits.
pub open spec fn farm_is_active(farm: FarmView) -> bool {
    &&& farm.farm_status == "Running"@
    &&& rewards_readable(farm)
    &&& decimal_u128(farm.total_reward).unwrap() > decimal_u128(farm.claimed_reward).unwrap()
        + decimal_u128(farm.unclaimed_reward).unwrap()
}

/// Whether the rewards of every farm can be read.
pub open spec fn all_readable(farms: Seq<FarmView>) -> bool {
    forall|i: int| 0 <= i < farms.len() ==> rewards_readable(#[trigger] farms[i])
}

/// Whether one of the farms is active.
pub open spec fn has_active(farms: Seq<FarmView>) -> bool {
    exists|i: int| 0 <= i < farms.len() && farm_is_active(#[trigger] farms[i])
}

/// Whether an active one among `farms` rewards `seed`.
pub open spec fn seed_is_active(farms: Seq<FarmView>, seed: Seq<char>) -> bool {
    exists|i: int|
        0 <= i < farms.len() && farm_is_active(#[trigger] farms[i]) && farms[i].seed_id == seed
}

/// The seeds that an active one among `farms` rewards, each once, in the
/// order in which the farms first name them.
pub open spec fn active_seed_ids(farms: Seq<FarmView>) -> Seq<Seq<char>>
    decreases farms.len(),
{
    if farms.len() == 0 {
        Seq::empty()
    } else {
        let front = active_seed_ids(farms.drop_last());
        if farm_is_active(farms.last()) {
            with_text(front, farms.last().seed_id)
        } else {
            front
        }
    }
}

/// The active seeds are a set: no seed stands twice among them, and a seed is
/// among them exactly if an active farm rewards it, however many do and in
/// whatever order the farms come.
pub proof fn lemma_active_seeds_are_a_set(farms: Seq<FarmView>)
    ensures
        active_seed_ids(farms).no_duplicates(),
        forall|seed: Seq<char>| #[trigger]
            active_seed_ids(farms).contains(seed) <==> seed_is_active(farms, seed),
    decreases farms.len(),
{
    if farms.len() > 0 {
        let front = farms.drop_last();
        let last = farms.last();
        lemma_active_seeds_are_a_set(front);
        lemma_with_text(active_seed_ids(front), last.seed_id);
        assert forall|seed: Seq<char>| #[trigger]
            active_seed_ids(farms).contains(seed) <==> seed_is_active(farms, seed) by {
            if seed_is_active(farms, seed) {
                let i = choose|i: int|
                    0 <= i < farms.len() && farm_is_active(#[trigger] farms[i]) && farms[i].seed_id
                        == seed;
                if i < front.len() {
                    assert(front[i] == farms[i]);
                    assert(seed_is_active(front, seed));
                }
            }
            if seed_is_active(front, seed) {
                let i = choose|i: int|
                    0 <= i < front.len() && farm_is_active(#[trigger] front[i]) && front[i].seed_id
                        == seed;
                assert(farms[i] == front[i]);
            }
            if farm_is_active(last) && last.seed_id == seed {
                assert(farms[farms.len() - 1] == last);
            }
        }
    }
}

/// Whether `farm` is active; a decode error where one of its reward amounts
/// is no numeral.
pub fn is_active(farm: &FarmInfo) -> (active: Result<bool, AggregationError>)
    ensures
        active == if rewards_readable(farm@) {
            Ok::<bool, AggregationError>(farm_is_active(farm@))
        } else {
            Err(AggregationError::Decode)
        },
{
    let total = match parse_u128(farm.total_reward.as_str()) {
        Some(amount) => amount,
        None => {
            return Err(AggregationError::Decode);
        },
    };
    let claimed = match parse_u128(farm.claimed_reward.as_str()) {
        Some(amount) => amount,
        None => {
            return Err(AggregationError::Decode);
        },
    };
    let unclaimed = match parse_u128(farm.unclaimed_reward.as_str()) {
        Some(amount) => amount,
        None => {
            return Err(AggregationError::Decode);
        },
    };
    let running = same_text(farm.farm_status.as_str(), "Running");
    let left = match claimed.checked_add(unclaimed) {
        Some(spent) => total > spent,
        None => false,
    };
    Ok(running && left)
}

/// Whether one of `farms` is active; a decode error where a reward amount of
/// any of them is no numeral.
pub fn any_active(farms: &Vec<FarmInfo>) -> (active: Result<bool, AggregationError>)
    ensures
        active == if all_readable(farms.deep_view()) {
            Ok::<bool, AggregationError>(has_active(farms.deep_view()))
        } else {
            Err(AggregationError::Decode)
        },
{
    let mut found = false;
    let mut i: usize = 0;
    while i < farms.len()
        invariant
            i <= farms.len(),
            forall|j: int| 0 <= j < i ==> rewards_readable(#[trigger] farms.deep_view()[j]),
            found == exists|j: int| 0 <= j < i && farm_is_active(#[trigger] farms.deep_view()[j]),
        decreases farms.len() - i,
    {
        assert(farms.deep_view()[i as int] == farms[i as int]@);
        match is_active(&farms[i]) {
            Ok(active) => {
                if active {
                    found = true;
                }
            },
            Err(e) => {
                return Err(e);
            },
        }
        i += 1;
    }
    Ok(found)
}

/// The seeds that an active one among `farms` rewards, each once; a decode
/// error where a reward amount of any farm is no numeral.
pub fn internal_farm_seeds(farms: &Vec<FarmInfo>) -> (seeds: Result<Vec<String>, AggregationError>)
    ensures
        match seeds {
            Ok(ids) => {
                &&& all_readable(farms.deep_view())
                &&& ids.deep_view() == active_seed_ids(farms.deep_view())
                &&& ids.deep_view().no_duplicates()
                &&& forall|seed: Seq<char>| #[trigger]
                    ids.deep_view().contains(seed) <==> seed_is_active(farms.deep_view(), seed)
            },
            Err(e) => e == AggregationError::Decode && !all_readable(farms.deep_view()),
        },
{
    let mut seeds: Vec<String> = Vec::new();
    let mut i: usize = 0;
    assert(farms.deep_view().take(0) =~= Seq::empty());
    assert(seeds.deep_view() =~= Seq::empty());
    while i < farms.len()
        invariant
            i <= farms.len(),
            forall|j: int| 0 <= j < i ==> rewards_readable(#[trigger] farms.deep_view()[j]),
            seeds.deep_view() == active_seed_ids(farms.deep_view().take(i as int)),
        decreases farms.len() - i,
    {
        proof {
            let upto = farms.deep_view().take(i + 1);
            assert(upto.drop_last() =~= farms.deep_view().take(i as int));
            assert(upto.last() == farms[i as int]@);
            assert(farms.deep_view()[i as int] == farms[i as int]@);
        }
        match is_active(&farms[i]) {
            Ok(active) => {
                if active {
                    add_once(&mut seeds, farms[i].seed_id.as_str());
                }
            },
            Err(e) => {
                return Err(e);
            },
        }
        i += 1;
    }
    proof {
        assert(farms.deep_view().take(farms.len() as int) =~= farms.deep_view());
        lemma_active_seeds_are_a_set(farms.deep_view());
    }
    Ok(seeds)
}

/// The call that lists the seeds: a single page from the first seed on.
pub open spec fn seeds_call() -> ViewRequestView {
    view_call(
        Contracts::RefFarm.account_id(),
        Methods::ListSeeds,
        ViewArgsView::Page { from_index: 0, limit: SEED_PAGE_LIMIT },
    )
}

/// The call that lists the farms of `seed_id`.
pub open spec fn farms_call(seed_id: Seq<char>) -> ViewRequestView {
    view_call(
        Contracts::RefFarm.account_id(),
        Methods::ListFarmsBySeeds,
        ViewArgsView::Seed { seed_id },
    )
}

/// The call that lists the seeds.
pub fn seeds_request() -> (request: ViewRequest)
    ensures
        request@ == seeds_call(),
{
    ViewRequest::new(
        Contracts::RefFarm.value(),
        Methods::ListSeeds,
        &ViewArgs::Page { from_index: 0, limit: SEED_PAGE_LIMIT },
    )
}

/// The call that lists the farms of `seed_id`.
pub fn farms_request(seed_id: &str) -> (request: ViewRequest)
    ensures
        request@ == farms_call(seed_id@),
{
    let args = ViewArgs::Seed { seed_id: seed_id.to_owned() };
    ViewRequest::new(Contracts::RefFarm.value(), Methods::ListFarmsBySeeds, &args)
}

/// Where the collection of the farms stands.
#[derive(Clone, Copy, Debug, PartialEq, Eq, Structural)]
pub enum FarmPhase {
    /// The seeds have been asked for.
    Seeding,
    /// The farms are being fetched seed by seed.
    Collecting,
    /// The farms of all seeds are there.
    Done,
    /// The collection was given up.
    Failed(AggregationError),
}

/// What an answer to a farm request holds.
pub open spec fn farms_view(
    farms: Result<Vec<FarmInfo>, AggregationError>,
) -> Result<Seq<FarmView>, AggregationError> {
    match farms {
        Ok(batch) => Ok(batch.deep_view()),
        Err(e) => Err(e),
    }
}

/// What an answer to the seed request holds.
pub open spec fn seeds_view(
    seeds: Result<Vec<String>, AggregationError>,
) -> Result<Seq<Seq<char>>, AggregationError> {
    match seeds {
        Ok(ids) => Ok(ids.deep_view()),
        Err(e) => Err(e),
    }
}

/// The state of a [`FarmCollector`].
pub struct FarmCollectorView {
    pub phase: FarmPhase,
    /// The seeds that the farming contract listed.
    pub seeds: Seq<Seq<char>>,
    /// How many of the seeds have had their farms fetched.
    pub cursor: nat,
    /// The farms fetched so far, whatever their status.
    pub farms: Seq<FarmView>,
    /// Those of the seeds done so far that have an active farm, each once.
    pub active: Seq<Seq<char>>,
}

/// The farms that were collected, and the seeds found to have an active farm.
pub struct FarmYield {
    pub farms: Seq<FarmView>,
    pub active: Seq<Seq<char>>,
}

impl FarmCollectorView {
    pub open spec fn wf(self) -> bool {
        &&& self.cursor <= self.seeds.len()
        &&& self.phase is Collecting ==> self.cursor < self.seeds.len()
        &&& all_readable(self.farms)
        &&& self.active.no_duplicates()
    }

    pub open spec fn start() -> Self {
        FarmCollectorView {
            phase: FarmPhase::Seeding,
            seeds: Seq::empty(),
            cursor: 0,
            farms: Seq::empty(),
            active: Seq::empty(),
        }
    }

    /// The call to make next; none once the collection is done or given up.
    /// The seeds are asked for in a single page.
    pub open spec fn request(self) -> Option<ViewRequestView> {
        match self.phase {
            FarmPhase::Seeding => Some(seeds_call()),
            FarmPhase::Collecting => Some(farms_call(self.seeds[self.cursor as int])),
            FarmPhase::Done => None,
            FarmPhase::Failed(_) => None,
        }
    }

    /// The state after the answer to the seed request: a failure gives the
    /// collection up, no seeds at all end it with no farms, any seeds open
    /// the collection of their farms. Outside the seeding phase nothing
    /// changes.
    pub open spec fn on_seeds(self, seeds: Result<Seq<Seq<char>>, AggregationError>) -> Self {
        if !(self.phase is Seeding) {
            self
        } else {
            match seeds {
                Err(e) => FarmCollectorView { phase: FarmPhase::Failed(e), ..self },
                Ok(ids) => FarmCollectorView {
                    phase: if ids.len() == 0 {
                        FarmPhase::Done
                    } else {
                        FarmPhase::Collecting
                    },
                    seeds: ids,
                    cursor: 0,
                    ..self
                },
            }
        }
    }

    /// The state after the answer to a farm request. A failure gives the
    /// whole collection up, and so does a farm whose rewards cannot be read.
    /// Else the farms are kept, the seed asked for is noted as active, once,
    /// if one of its farms is, and the next seed is up. After the last seed the
    /// collection is done, or given up as empty where no seed had a farm.
    /// Outside the collecting phase nothing changes.
    pub open spec fn on_farms(self, farms: Result<Seq<FarmView>, AggregationError>) -> Self {
        if !(self.phase is Collecting) {
            self
        } else {
            match farms {
                Err(e) => FarmCollectorView { phase: FarmPhase::Failed(e), ..self },
                Ok(batch) => if !all_readable(batch) {
                    FarmCollectorView { phase: FarmPhase::Failed(AggregationError::Decode), ..self }
                } else {
                    let farms = self.farms + batch;
                    let cursor = self.cursor + 1;
                    FarmCollectorView {
                        phase: if cursor < self.seeds.len() {
                            FarmPhase::Collecting
                        } else if farms.len() == 0 {
                            FarmPhase::Failed(AggregationError::EmptyResult)
                        } else {
                            FarmPhase::Done
                        },
                        farms,
                        active: if has_active(batch) {
                            with_text(self.active, self.seeds[self.cursor as int])
                        } else {
                            self.active
                        },
                        cursor,
                        ..self
                    }
                },
            }
        }
    }

    /// What the collection came to: the farms and the active seeds when it
    /// is done, the error when it was given up, nothing while it is under
    /// way.
    pub open spec fn outcome(self) -> Option<Result<FarmYield, AggregationError>> {
        match self.phase {
            FarmPhase::Done => Some(Ok(FarmYield { farms: self.farms, active: self.active })),
            FarmPhase::Failed(e) => Some(Err(e)),
            _ => None,
        }
    }

    pub proof fn lemma_on_seeds_wf(self, seeds: Result<Seq<Seq<char>>, AggregationError>)
        requires
            self.wf(),
        ensures
            self.on_seeds(seeds).wf(),
    {
    }

    pub proof fn lemma_on_farms_wf(self, farms: Result<Seq<FarmView>, AggregationError>)
        requires
            self.wf(),
        ensures
            self.on_farms(farms).wf(),
    {
        if self.phase is Collecting {
            lemma_with_text(self.active, self.seeds[self.cursor as int]);
        }
    }

    /// Whether the seeds noted as active are those that an active one among
    /// the kept farms rewards.
    pub open spec fn active_agrees(self) -> bool {
        forall|seed: Seq<char>| #[trigger]
            self.active.contains(seed) <==> seed_is_active(self.farms, seed)
    }

    /// The two yields of a collection name the same active seeds: where every
    /// farm of an answer names the seed that was asked for, the seeds noted
    /// as active stay those that the kept farms make active, so that reading
    /// the active seeds off the farms gives the noted ones.
    pub proof fn lemma_active_agrees(self, batch: Seq<FarmView>)
        requires
            self.wf(),
            self.active_agrees(),
            self.phase is Collecting,
            forall|j: int|
                0 <= j < batch.len() ==> (#[trigger] batch[j]).seed_id
                    == self.seeds[self.cursor as int],
        ensures
            self.on_farms(Ok(batch)).active_agrees(),
            forall|seed: Seq<char>| #[trigger]
                self.on_farms(Ok(batch)).active.contains(seed) <==> active_seed_ids(
                    self.on_farms(Ok(batch)).farms,
                ).contains(seed),
    {
        let after = self.on_farms(Ok(batch));
        let asked = self.seeds[self.cursor as int];
        lemma_active_seeds_are_a_set(after.farms);
        if all_readable(batch) {
            lemma_with_text(self.active, asked);
            assert forall|seed: Seq<char>| #[trigger]
                after.active.contains(seed) <==> seed_is_active(after.farms, seed) by {
                if seed_is_active(after.farms, seed) {
                    let i = choose|i: int|
                        0 <= i < after.farms.len() && farm_is_active(#[trigger] after.farms[i])
                            && after.farms[i].seed_id == seed;
                    if i < self.farms.len() {
                        assert(self.farms[i] == after.farms[i]);
                        assert(seed_is_active(self.farms, seed));
                    } else {
                        let j = i - self.farms.len();
                        assert(batch[j] == after.farms[i]);
                        assert(farm_is_active(batch[j]));
                        assert(has_active(batch));
                    }
                }
                if seed_is_active(self.farms, seed) {
                    let i = choose|i: int|
                        0 <= i < self.farms.len() && farm_is_active(#[trigger] self.farms[i])
                            && self.farms[i].seed_id == seed;
                    assert(after.farms[i] == self.farms[i]);
                }
                if has_active(batch) && seed == asked {
                    let j = choose|j: int| 0 <= j < batch.len() && farm_is_active(#[trigger] batch[j]);
                    assert(after.farms[self.farms.len() + j] == batch[j]);
                }
            }
        }
    }

    /// Once the collection has been given up no answer brings it back, and
    /// what it came to stays the error.
    pub proof fn lemma_failure_is_final(
        self,
        seeds: Result<Seq<Seq<char>>, AggregationError>,
        farms: Result<Seq<FarmView>, AggregationError>,
    )
        requires
            self.phase is Failed,
        ensures
            self.on_seeds(seeds) == self,
            self.on_farms(farms) == self,
            self.outcome() == Some(
                Err::<FarmYield, AggregationError>(self.phase->Failed_0),
            ),
    {
    }
}

/// The farms of a finished collection, and the seeds that have an active
/// farm.
pub struct FarmSnapshot {
    /// All farms of all seeds, whatever their status.
    pub farms: Vec<FarmInfo>,
    /// The seeds with at least one active farm, each once.
    pub active_seeds: Vec<String>,
}

/// Collects the farms of the farming contract.
///
/// The collector says which call to make next and is told the answer: first
/// the seeds, then the farms of each seed. One failing call gives the whole
/// collection up.
pub struct FarmCollector {
    phase: FarmPhase,
    seeds: Vec<String>,
    cursor: usize,
    farms: Vec<FarmInfo>,
    active: Vec<String>,
}

impl View for FarmCollector {
    type V = FarmCollectorView;

    closed spec fn view(&self) -> FarmCollectorView {
        FarmCollectorView {
            phase: self.phase,
            seeds: self.seeds.deep_view(),
            cursor: self.cursor as nat,
            farms: self.farms.deep_view(),
            active: self.active.deep_view(),
        }
    }
}

impl FarmCollector {
    /// A collection that has not asked for anything yet.
    pub fn new() -> (collector: Self)
        ensures
            collector@ == FarmCollectorView::start(),
            collector@.wf(),
    {
        let collector = FarmCollector {
            phase: FarmPhase::Seeding,
            seeds: Vec::new(),
            cursor: 0,
            farms: Vec::new(),
            active: Vec::new(),
        };
        assert(collector@.seeds =~= Seq::empty());
        assert(collector@.farms =~= Seq::empty());
        assert(collector@.active =~= Seq::empty());
        collector
    }

    /// Where the collection stands.
    pub fn phase(&self) -> (phase: FarmPhase)
        ensures
            phase == self@.phase,
    {
        self.phase
    }

    /// The call to make next; none once the collection is done or given up.
    pub fn next_request(&self) -> (request: Option<ViewRequest>)
        requires
            self@.wf(),
        ensures
            match request {
                Some(r) => self@.request() == Some(r@),
                None => self@.request() is None,
            },
    {
        match self.phase {
            FarmPhase::Seeding => Some(seeds_request()),
            FarmPhase::Collecting => Some(farms_request(self.seeds[self.cursor].as_str())),
            FarmPhase::Done => None,
            FarmPhase::Failed(_) => None,
        }
    }

    /// Takes in the answer to the seed request.
    pub fn on_seeds(&mut self, seeds: Result<Vec<String>, AggregationError>)
        requires
            old(self)@.wf(),
        ensures
            final(self)@ == old(self)@.on_seeds(seeds_view(seeds)),
            final(self)@.wf(),
    {
        proof {
            old(self)@.lemma_on_seeds_wf(seeds_view(seeds));
        }
        match self.phase {
            FarmPhase::Seeding => {},
            _ => {
                return ;
            },
        }
        match seeds {
            Err(e) => {
                self.phase = FarmPhase::Failed(e);
            },
            Ok(ids) => {
                self.phase = if ids.len() == 0 {
                    FarmPhase::Done
                } else {
                    FarmPhase::Collecting
                };
                self.seeds = ids;
                self.cursor = 0;
            },
        }
    }

    /// Takes in the answer to a farm request.
    pub fn on_farms(&mut self, farms: Result<Vec<FarmInfo>, AggregationError>)
        requires
            old(self)@.wf(),
        ensures
            final(self)@ == old(self)@.on_farms(farms_view(farms)),
            final(self)@.wf(),
    {
        proof {
            old(self)@.lemma_on_farms_wf(farms_view(farms));
        }
        match self.phase {
            FarmPhase::Collecting => {},
            _ => {
                return ;
            },
        }
        match farms {
            Err(e) => {
                self.phase = FarmPhase::Failed(e);
            },
            Ok(batch) => {
                let mut batch = batch;
                let ghost fetched = batch.deep_view();
                assert(self.cursor < self.seeds.len()) by {
                    assert(self@.seeds.len() == self.seeds.len());
                }
                match any_active(&batch) {
                    Err(_) => {
                        self.phase = FarmPhase::Failed(AggregationError::Decode);
                    },
                    Ok(active) => {
                        if active {
                            add_once(&mut self.active, self.seeds[self.cursor].as_str());
                        }
                        self.farms.append(&mut batch);
                        assert(self.farms.deep_view() =~= old(self).farms.deep_view() + fetched);
                        self.cursor = self.cursor + 1;
                        self.phase = if self.cursor < self.seeds.len() {
                            FarmPhase::Collecting
                        } else if self.farms.len() == 0 {
                            FarmPhase::Failed(AggregationError::EmptyResult)
                        } else {
                            FarmPhase::Done
                        };
                    },
                }
            },
        }
    }

    /// Ends the collection and hands out what it came to: the farms and the
    /// active seeds when it is done, the error when it was given up, nothing
    /// if it was still under way.
    pub fn into_outcome(self) -> (outcome: Option<Result<FarmSnapshot, AggregationError>>)
        ensures
            match outcome {
                Some(Ok(snapshot)) => self@.outcome() == Some(
                    Ok::<FarmYield, AggregationError>(
                        FarmYield {
                            farms: snapshot.farms.deep_view(),
                            active: snapshot.active_seeds.deep_view(),
                        },
                    ),
                ),
                Some(Err(e)) => self@.outcome() == Some(Err::<FarmYield, AggregationError>(e)),
                None => self@.outcome() is None,
            },
    {
        match self.phase {
            FarmPhase::Done => Some(
                Ok(FarmSnapshot { farms: self.farms, active_seeds: self.active }),
            ),
            FarmPhase::Failed(e) => Some(Err(e)),
            _ => None,
        }
    }
}

} // verus!
