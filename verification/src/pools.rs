use vstd::prelude::*;
use vstd::string::StringExecFns;
use crate::consts::{Contracts, Methods};
use crate::decimal::{decimal_text, push_decimal};
use crate::error::AggregationError;
use crate::models::{FungibleTokenMetadata, PoolInfo, PoolView, TokenMetadataView};
use crate::request::{view_call, ViewArgs, ViewArgsView, ViewRequest, ViewRequestView};
use crate::table::TableView;
use crate::text::holds_text;
use crate::tokens::{metadata_call, resolved, TokenResolver, TokenResolverView, TokenTable};

verus! {

/// How many pools one page of the listing asks for.
pub const POOL_PAGE_LIMIT: u64 = 200;

/// The seed under which the shares of the pool of rank `rank` are staked:
/// the exchange's account, an at sign, and the rank in decimal.
pub open spec fn pool_seed_id(rank: nat) -> Seq<char> {
    Contracts::RefExchange.account_id() + seq!['@'] + decimal_text(rank)
}

/// The seed under which the shares of the pool of rank `rank` are staked.
pub fn seed_id_of_pool(rank: u64) -> (id: String)
    ensures
        id@ == pool_seed_id(rank as nat),
{
    let mut id = Contracts::RefExchange.value().to_owned();
    id.append("@");
    proof {
        reveal_strlit("@");
        assert("@"@ =~= seq!['@']);
    }
    push_decimal(&mut id, rank);
    id
}

/// The symbols of those of `tokens` whose metadata `table` holds, in the
/// tokens' order. A token without metadata gets no symbol, so the result may
/// be shorter than `tokens`.
pub open spec fn symbols_of(
    tokens: Seq<Seq<char>>,
    table: TableView<TokenMetadataView>,
) -> Seq<Seq<char>>
    decreases tokens.len(),
{
    if tokens.len() == 0 {
        Seq::empty()
    } else {
        let front = symbols_of(tokens.drop_last(), table);
        if table.contains_key(tokens.last()) {
            front.push(table.value_of(tokens.last()).symbol)
        } else {
            front
        }
    }
}

/// The symbols of those of `tokens` whose metadata `table` holds.
pub fn token_symbols(tokens: &Vec<String>, table: &TokenTable) -> (symbols: Vec<String>)
    requires
        table@.wf(),
    ensures
        symbols.deep_view() == symbols_of(tokens.deep_view(), table@),
{
    let mut symbols: Vec<String> = Vec::new();
    let mut i: usize = 0;
    assert(tokens.deep_view().take(0) =~= Seq::empty());
    assert(symbols.deep_view() =~= Seq::empty());
    while i < tokens.len()
        invariant
            i <= tokens.len(),
            table@.wf(),
            symbols.deep_view() == symbols_of(tokens.deep_view().take(i as int), table@),
        decreases tokens.len() - i,
    {
        let ghost before = symbols.deep_view();
        proof {
            let upto = tokens.deep_view().take(i + 1);
            assert(upto.drop_last() =~= tokens.deep_view().take(i as int));
            assert(upto.last() == tokens[i as int]@);
        }
        match table.get(tokens[i].as_str()) {
            Some(metadata) => {
                symbols.push(metadata.symbol.clone());
                assert(symbols.deep_view() =~= before.push(metadata@.symbol));
            },
            None => {},
        }
        i += 1;
    }
    assert(tokens.deep_view().take(tokens.len() as int) =~= tokens.deep_view());
    symbols
}

/// A listed pool with what the aggregation derives for it: its rank as id,
/// whether its seed is among the active `seeds`, and its tokens' symbols.
pub open spec fn annotate_pool(
    pool: PoolView,
    rank: nat,
    seeds: Seq<Seq<char>>,
    table: TableView<TokenMetadataView>,
) -> PoolView {
    PoolView {
        id: Some(rank as u64),
        farming: Some(seeds.contains(pool_seed_id(rank))),
        token_symbols: Some(symbols_of(pool.token_account_ids, table)),
        ..pool
    }
}

/// The listed pools, each annotated, in the order of the listing.
pub open spec fn annotate_pools(
    pools: Seq<PoolView>,
    seeds: Seq<Seq<char>>,
    table: TableView<TokenMetadataView>,
) -> Seq<PoolView> {
    Seq::new(pools.len(), |i: int| annotate_pool(pools[i], i as nat, seeds, table))
}

/// Annotates the listed pools in place.
pub fn annotate(pools: &mut Vec<PoolInfo>, seeds: &Vec<String>, table: &TokenTable)
    requires
        table@.wf(),
    ensures
        final(pools).deep_view() == annotate_pools(
            old(pools).deep_view(),
            seeds.deep_view(),
            table@,
        ),
{
    let n = pools.len();
    let mut i: usize = 0;
    while i < n
        invariant
            i <= n,
            n == pools.len(),
            n == old(pools).len(),
            table@.wf(),
            forall|j: int|
                0 <= j < i ==> (#[trigger] pools[j])@ == annotate_pool(
                    old(pools)[j]@,
                    j as nat,
                    seeds.deep_view(),
                    table@,
                ),
            forall|j: int| i <= j < n ==> (#[trigger] pools[j])@ == old(pools)[j]@,
        decreases n - i,
    {
        let seed = seed_id_of_pool(i as u64);
        let farming = holds_text(seeds, seed.as_str());
        let symbols = token_symbols(&pools[i].token_account_ids, table);
        pools[i].id = Some(i as u64);
        pools[i].farming = Some(farming);
        pools[i].token_symbols = Some(symbols);
        i += 1;
    }
    assert(pools.deep_view() =~= annotate_pools(
        old(pools).deep_view(),
        seeds.deep_view(),
        table@,
    ));
}

/// Where the aggregation of the pools stands.
#[derive(Clone, Copy, Debug, PartialEq, Eq, Structural)]
pub enum PoolPhase {
    /// The number of pools has been asked for.
    Counting,
    /// Pages of the listing are being fetched.
    Listing,
    /// Metadata of tokens that the table lacks is being fetched.
    Resolving,
    /// The pools are assembled.
    Done,
    /// The aggregation was given up.
    Failed(AggregationError),
}

/// What an answer to a page request holds.
pub open spec fn page_view(
    page: Result<Vec<PoolInfo>, AggregationError>,
) -> Result<Seq<PoolView>, AggregationError> {
    match page {
        Ok(batch) => Ok(batch.deep_view()),
        Err(e) => Err(e),
    }
}

/// The resolver after the tokens of each of `pools` are wanted, pool by pool.
pub open spec fn want_pools(resolver: TokenResolverView, pools: Seq<PoolView>) -> TokenResolverView
    decreases pools.len(),
{
    if pools.len() == 0 {
        resolver
    } else {
        want_pools(resolver, pools.drop_last()).want_all(pools.last().token_account_ids)
    }
}

/// Whether `token` is one of the tokens of one of `pools`.
pub open spec fn some_pool_holds(pools: Seq<PoolView>, token: Seq<char>) -> bool {
    exists|i: int| 0 <= i < pools.len() && (#[trigger] pools[i]).token_account_ids.contains(token)
}

/// Wanting the tokens of pools keeps a resolver well formed and leaves its
/// table and its cursor alone. Pending are then the tokens that were pending
/// before and those that a pool holds and the table lacks, each once.
pub proof fn lemma_want_pools(resolver: TokenResolverView, pools: Seq<PoolView>)
    requires
        resolver.wf(),
    ensures
        want_pools(resolver, pools).wf(),
        want_pools(resolver, pools).table == resolver.table,
        want_pools(resolver, pools).cursor == resolver.cursor,
        forall|t: Seq<char>| #[trigger]
            want_pools(resolver, pools).pending.contains(t) <==> resolver.pending.contains(t) || (
            some_pool_holds(pools, t) && !resolver.table.contains_key(t)),
    decreases pools.len(),
{
    if pools.len() > 0 {
        let front = pools.drop_last();
        let before = want_pools(resolver, front);
        lemma_want_pools(resolver, front);
        before.lemma_want_all(pools.last().token_account_ids);
        let after = want_pools(resolver, pools);
        assert forall|t: Seq<char>| #[trigger]
            after.pending.contains(t) <==> resolver.pending.contains(t) || (some_pool_holds(
                pools,
                t,
            ) && !resolver.table.contains_key(t)) by {
            if some_pool_holds(pools, t) {
                let i = choose|i: int|
                    0 <= i < pools.len() && (#[trigger] pools[i]).token_account_ids.contains(t);
                if i < front.len() {
                    assert(front[i].token_account_ids.contains(t));
                }
            }
            if some_pool_holds(front, t) {
                let i = choose|i: int|
                    0 <= i < front.len() && (#[trigger] front[i]).token_account_ids.contains(t);
                assert(pools[i].token_account_ids.contains(t));
            }
            if pools.last().token_account_ids.contains(t) {
                assert(pools[pools.len() - 1].token_account_ids.contains(t));
            }
        }
    }
}

/// The state of a [`PoolAggregator`].
pub struct PoolAggregatorView {
    pub phase: PoolPhase,
    /// The number of pools that the exchange reported.
    pub num_pools: u64,
    /// The pools listed so far, in the order of the listing.
    pub pools: Seq<PoolView>,
    /// The seeds with a running farm.
    pub seeds: Seq<Seq<char>>,
    /// The token metadata, and what of it is still to be fetched.
    pub resolver: TokenResolverView,
}

impl PoolAggregatorView {
    pub open spec fn wf(self) -> bool {
        &&& self.resolver.wf()
        &&& self.pools.len() <= u64::MAX
        &&& self.phase is Counting ==> self.pools.len() == 0
        &&& self.phase is Listing ==> self.pools.len() < self.num_pools
        &&& self.phase is Resolving ==> !self.resolver.done()
        &&& self.phase is Done ==> self.resolver.done()
    }

    pub open spec fn start(seeds: Seq<Seq<char>>, table: TableView<TokenMetadataView>) -> Self {
        PoolAggregatorView {
            phase: PoolPhase::Counting,
            num_pools: 0,
            pools: Seq::empty(),
            seeds,
            resolver: TokenResolverView::start(table),
        }
    }

    /// The call to make next; none once the aggregation is done or given up.
    pub open spec fn request(self) -> Option<ViewRequestView> {
        match self.phase {
            PoolPhase::Counting => Some(
                view_call(
                    Contracts::RefExchange.account_id(),
                    Methods::NumPools,
                    ViewArgsView::Empty,
                ),
            ),
            PoolPhase::Listing => Some(
                view_call(
                    Contracts::RefExchange.account_id(),
                    Methods::GetPools,
                    ViewArgsView::Page {
                        from_index: self.pools.len() as u64,
                        limit: POOL_PAGE_LIMIT,
                    },
                ),
            ),
            PoolPhase::Resolving => match self.resolver.request() {
                Some(token) => Some(metadata_call(token)),
                None => None,
            },
            PoolPhase::Done => None,
            PoolPhase::Failed(_) => None,
        }
    }

    /// The state once the listing is closed: the tokens of all listed pools
    /// are wanted, and where none of them has to be fetched the pools are
    /// done.
    pub open spec fn listed(self) -> Self {
        let resolver = want_pools(self.resolver, self.pools);
        PoolAggregatorView {
            phase: if resolver.done() {
                PoolPhase::Done
            } else {
                PoolPhase::Resolving
            },
            resolver,
            ..self
        }
    }

    /// The state after the answer to the count request: a failure gives the
    /// aggregation up, zero pools close the listing at once, any other
    /// number opens it. Outside the counting phase nothing changes.
    pub open spec fn on_count(self, count: Result<u64, AggregationError>) -> Self {
        if !(self.phase is Counting) {
            self
        } else {
            match count {
                Err(e) => PoolAggregatorView { phase: PoolPhase::Failed(e), ..self },
                Ok(n) => if n == 0 {
                    PoolAggregatorView { num_pools: n, ..self }.listed()
                } else {
                    PoolAggregatorView { phase: PoolPhase::Listing, num_pools: n, ..self }
                },
            }
        }
    }

    /// The state after the answer to a page request. A failure gives the
    /// aggregation up. A page with pools is appended, and the listing goes on
    /// from as many pools as are now listed, until that many as were counted
    /// are there. An empty page closes the listing; where not one pool was
    /// listed although some were counted, the aggregation is given up as
    /// empty. Outside the listing phase nothing changes.
    pub open spec fn on_page(self, page: Result<Seq<PoolView>, AggregationError>) -> Self {
        if !(self.phase is Listing) {
            self
        } else {
            match page {
                Err(e) => PoolAggregatorView { phase: PoolPhase::Failed(e), ..self },
                Ok(batch) => if batch.len() == 0 {
                    if self.pools.len() == 0 {
                        PoolAggregatorView {
                            phase: PoolPhase::Failed(AggregationError::EmptyResult),
                            ..self
                        }
                    } else {
                        self.listed()
                    }
                } else {
                    let grown = PoolAggregatorView { pools: self.pools + batch, ..self };
                    if grown.pools.len() >= self.num_pools {
                        grown.listed()
                    } else {
                        grown
                    }
                },
            }
        }
    }

    /// The state after the answer to a metadata request: the resolver takes
    /// it in, and when no token is left the pools are done. Outside the
    /// resolving phase nothing changes.
    pub open spec fn on_metadata(self, outcome: Option<TokenMetadataView>) -> Self {
        if !(self.phase is Resolving) {
            self
        } else {
            let resolver = self.resolver.accept(outcome);
            PoolAggregatorView {
                phase: if resolver.done() {
                    PoolPhase::Done
                } else {
                    PoolPhase::Resolving
                },
                resolver,
                ..self
            }
        }
    }

    /// What the aggregation came to: the annotated pools when it is done,
    /// the error when it was given up, nothing while it is under way.
    pub open spec fn outcome(self) -> Option<Result<Seq<PoolView>, AggregationError>> {
        match self.phase {
            PoolPhase::Done => Some(Ok(annotate_pools(self.pools, self.seeds, self.resolver.table))),
            PoolPhase::Failed(e) => Some(Err(e)),
            _ => None,
        }
    }

    /// The state after the pages `batches` came in, one after the other.
    pub open spec fn after_pages(self, batches: Seq<Seq<PoolView>>) -> Self
        decreases batches.len(),
    {
        if batches.len() == 0 {
            self
        } else {
            self.after_pages(batches.drop_last()).on_page(Ok(batches.last()))
        }
    }

    /// Whether `batches` are the pages of a listing that starts in this
    /// state: each page comes in while the listing is still open.
    pub open spec fn is_listing_run(self, batches: Seq<Seq<PoolView>>) -> bool {
        forall|k: int|
            0 <= k < batches.len() ==> (#[trigger] self.after_pages(batches.take(k))).phase
                is Listing
    }

    pub proof fn lemma_listed_wf(self)
        requires
            self.resolver.wf(),
            self.pools.len() <= u64::MAX,
        ensures
            self.listed().wf(),
            self.listed().pools == self.pools,
            self.listed().resolver.table == self.resolver.table,
    {
        lemma_want_pools(self.resolver, self.pools);
    }

    pub proof fn lemma_on_count_wf(self, count: Result<u64, AggregationError>)
        requires
            self.wf(),
        ensures
            self.on_count(count).wf(),
    {
        if self.phase is Counting {
            if let Ok(n) = count {
                if n == 0 {
                    PoolAggregatorView { num_pools: n, ..self }.lemma_listed_wf();
                }
            }
        }
    }

    pub proof fn lemma_on_page_wf(self, page: Result<Seq<PoolView>, AggregationError>)
        requires
            self.wf(),
            page matches Ok(batch) ==> self.pools.len() + batch.len() <= u64::MAX,
        ensures
            self.on_page(page).wf(),
    {
        if self.phase is Listing {
            if let Ok(batch) = page {
                if batch.len() == 0 {
                    self.lemma_listed_wf();
                } else {
                    PoolAggregatorView { pools: self.pools + batch, ..self }.lemma_listed_wf();
                }
            }
        }
    }

    pub proof fn lemma_on_metadata_wf(self, outcome: Option<TokenMetadataView>)
        requires
            self.wf(),
        ensures
            self.on_metadata(outcome).wf(),
    {
        self.resolver.lemma_accept_wf(outcome);
    }
}

/// The number of pools in all of `batches`.
pub open spec fn total_len(batches: Seq<Seq<PoolView>>) -> nat
    decreases batches.len(),
{
    if batches.len() == 0 {
        0
    } else {
        total_len(batches.drop_last()) + batches.last().len()
    }
}

/// The pools of all of `batches`, in the order in which they came.
pub open spec fn concat_all(batches: Seq<Seq<PoolView>>) -> Seq<PoolView>
    decreases batches.len(),
{
    if batches.len() == 0 {
        Seq::empty()
    } else {
        concat_all(batches.drop_last()) + batches.last()
    }
}

/// Whatever pages a listing brings, the pools it assembles are the pools of
/// the pages in the order in which they came, so that their number is the sum
/// of the pages' sizes.
pub proof fn lemma_listing_assembles_pages(state: PoolAggregatorView, batches: Seq<Seq<PoolView>>)
    requires
        state.is_listing_run(batches),
    ensures
        state.after_pages(batches).pools == state.pools + concat_all(batches),
        state.after_pages(batches).pools.len() == state.pools.len() + total_len(batches),
        state.after_pages(batches).seeds == state.seeds,
    decreases batches.len(),
{
    if batches.len() == 0 {
        assert(state.pools + concat_all(batches) =~= state.pools);
    } else {
        let front = batches.drop_last();
        assert forall|k: int| 0 <= k < front.len() implies (#[trigger] state.after_pages(
            front.take(k),
        )).phase is Listing by {
            assert(front.take(k) =~= batches.take(k));
        }
        lemma_listing_assembles_pages(state, front);
        let before = state.after_pages(front);
        assert(batches.take(batches.len() - 1) =~= front);
        assert(before.phase is Listing);
        let after = before.on_page(Ok(batches.last()));
        assert(after.pools =~= before.pools + batches.last());
        assert(after.pools =~= state.pools + concat_all(batches));
    }
}

/// The pools that an aggregation yields carry the ranks of the listing as
/// their ids, first to last without a gap, each is marked as farming exactly
/// if its seed is among the active seeds, and the rest of each is as listed.
pub proof fn lemma_outcome_annotates(state: PoolAggregatorView)
    requires
        state.outcome() matches Some(Ok(_)),
    ensures
        ({
            let pools = state.outcome().unwrap().unwrap();
            &&& pools.len() == state.pools.len()
            &&& forall|i: int|
                0 <= i < pools.len() ==> {
                    &&& (#[trigger] pools[i]).id == Some(i as u64)
                    &&& pools[i].farming == Some(state.seeds.contains(pool_seed_id(i as nat)))
                    &&& pools[i].token_symbols == Some(
                        symbols_of(state.pools[i].token_account_ids, state.resolver.table),
                    )
                    &&& pools[i].pool_kind == state.pools[i].pool_kind
                    &&& pools[i].token_account_ids == state.pools[i].token_account_ids
                    &&& pools[i].amounts == state.pools[i].amounts
                    &&& pools[i].total_fee == state.pools[i].total_fee
                    &&& pools[i].shares_total_supply == state.pools[i].shares_total_supply
                    &&& pools[i].amp == state.pools[i].amp
                }
        }),
{
}

/// Where the exchange reports no pool at all, the aggregation is done at once
/// and yields no pools, which is not a failure.
pub proof fn lemma_no_pools_is_success(
    seeds: Seq<Seq<char>>,
    table: TableView<TokenMetadataView>,
)
    ensures
        PoolAggregatorView::start(seeds, table).on_count(Ok(0)).outcome() == Some(
            Ok::<Seq<PoolView>, AggregationError>(Seq::empty()),
        ),
{
    let counted = PoolAggregatorView::start(seeds, table).on_count(Ok(0));
    assert(counted.pools =~= Seq::empty());
    assert(counted.resolver == TokenResolverView::start(table));
    assert(annotate_pools(counted.pools, seeds, table) =~= Seq::empty());
}

/// The pools of a finished aggregation, and the token metadata with what was
/// fetched for them.
pub struct PoolSnapshot {
    pub pools: Vec<PoolInfo>,
    pub tokens: TokenTable,
}

/// Aggregates the pools of the exchange.
///
/// The aggregator says which call to make next and is told the answer; it
/// counts the pools, lists them page by page, fetches the metadata of tokens
/// that the table lacks, and annotates the listed pools.
pub struct PoolAggregator {
    phase: PoolPhase,
    num_pools: u64,
    pools: Vec<PoolInfo>,
    seeds: Vec<String>,
    resolver: TokenResolver,
}

impl View for PoolAggregator {
    type V = PoolAggregatorView;

    closed spec fn view(&self) -> PoolAggregatorView {
        PoolAggregatorView {
            phase: self.phase,
            num_pools: self.num_pools,
            pools: self.pools.deep_view(),
            seeds: self.seeds.deep_view(),
            resolver: self.resolver@,
        }
    }
}

impl PoolAggregator {
    /// An aggregation that marks pools by `seeds` and starts from the
    /// metadata in `table`.
    pub fn new(seeds: Vec<String>, table: TokenTable) -> (aggregator: Self)
        requires
            table@.wf(),
        ensures
            aggregator@ == PoolAggregatorView::start(seeds.deep_view(), table@),
            aggregator@.wf(),
    {
        let aggregator = PoolAggregator {
            phase: PoolPhase::Counting,
            num_pools: 0,
            pools: Vec::new(),
            seeds,
            resolver: TokenResolver::new(table),
        };
        assert(aggregator@.pools =~= Seq::empty());
        aggregator
    }

    /// Where the aggregation stands.
    pub fn phase(&self) -> (phase: PoolPhase)
        ensures
            phase == self@.phase,
    {
        self.phase
    }

    /// The call to make next; none once the aggregation is done or given up.
    pub fn next_request(&self) -> (request: Option<ViewRequest>)
        requires
            self@.wf(),
        ensures
            match request {
                Some(r) => self@.request() == Some(r@),
                None => self@.request() is None,
            },
    {
        match self.phase {
            PoolPhase::Counting => Some(
                ViewRequest::new(
                    Contracts::RefExchange.value(),
                    Methods::NumPools,
                    &ViewArgs::Empty,
                ),
            ),
            PoolPhase::Listing => Some(
                ViewRequest::new(
                    Contracts::RefExchange.value(),
                    Methods::GetPools,
                    &ViewArgs::Page {
                        from_index: self.pools.len() as u64,
                        limit: POOL_PAGE_LIMIT,
                    },
                ),
            ),
            PoolPhase::Resolving => self.resolver.next_request(),
            PoolPhase::Done => None,
            PoolPhase::Failed(_) => None,
        }
    }

    fn close_listing(&mut self)
        requires
            old(self).resolver@.wf(),
        ensures
            final(self)@ == old(self)@.listed(),
    {
        let mut i: usize = 0;
        assert(self.pools.deep_view().take(0) =~= Seq::empty());
        while i < self.pools.len()
            invariant
                i <= self.pools.len(),
                self.pools == old(self).pools,
                self.seeds == old(self).seeds,
                self.num_pools == old(self).num_pools,
                self.resolver@.wf(),
                self.resolver@ == want_pools(
                    old(self).resolver@,
                    self.pools.deep_view().take(i as int),
                ),
            decreases self.pools.len() - i,
        {
            self.resolver.want_all(&self.pools[i].token_account_ids);
            proof {
                let upto = self.pools.deep_view().take(i + 1);
                assert(upto.drop_last() =~= self.pools.deep_view().take(i as int));
                assert(upto.last() == self.pools[i as int]@);
            }
            i += 1;
        }
        assert(self.pools.deep_view().take(self.pools.len() as int) =~= self.pools.deep_view());
        self.phase = if self.resolver.is_done() {
            PoolPhase::Done
        } else {
            PoolPhase::Resolving
        };
    }

    /// Takes in the answer to the count request.
    pub fn on_count(&mut self, count: Result<u64, AggregationError>)
        requires
            old(self)@.wf(),
        ensures
            final(self)@ == old(self)@.on_count(count),
            final(self)@.wf(),
    {
        proof {
            old(self)@.lemma_on_count_wf(count);
        }
        match self.phase {
            PoolPhase::Counting => {},
            _ => {
                return ;
            },
        }
        match count {
            Err(e) => {
                self.phase = PoolPhase::Failed(e);
            },
            Ok(n) => {
                self.num_pools = n;
                if n == 0 {
                    self.close_listing();
                } else {
                    self.phase = PoolPhase::Listing;
                }
            },
        }
    }

    /// Takes in the answer to a page request.
    pub fn on_page(&mut self, page: Result<Vec<PoolInfo>, AggregationError>)
        requires
            old(self)@.wf(),
        ensures
            final(self)@ == old(self)@.on_page(page_view(page)),
            final(self)@.wf(),
    {
        match self.phase {
            PoolPhase::Listing => {},
            _ => {
                return ;
            },
        }
        match page {
            Err(e) => {
                self.phase = PoolPhase::Failed(e);
            },
            Ok(batch) => {
                let mut batch = batch;
                let ghost listed = batch.deep_view();
                if batch.len() == 0 {
                    proof {
                        old(self)@.lemma_on_page_wf(Ok(listed));
                    }
                    if self.pools.len() == 0 {
                        self.phase = PoolPhase::Failed(AggregationError::EmptyResult);
                    } else {
                        self.close_listing();
                    }
                } else {
                    self.pools.append(&mut batch);
                    assert(self.pools.deep_view() =~= old(self).pools.deep_view() + listed);
                    let listed_so_far = self.pools.len();
                    proof {
                        assert(self@.pools.len() == listed_so_far);
                        old(self)@.lemma_on_page_wf(Ok(listed));
                    }
                    if listed_so_far as u64 >= self.num_pools {
                        self.close_listing();
                    }
                }
            },
        }
    }

    /// Takes in the answer to a metadata request.
    pub fn on_metadata(&mut self, outcome: Result<FungibleTokenMetadata, AggregationError>)
        requires
            old(self)@.wf(),
        ensures
            final(self)@ == old(self)@.on_metadata(resolved(outcome)),
            final(self)@.wf(),
    {
        proof {
            old(self)@.lemma_on_metadata_wf(resolved(outcome));
        }
        match self.phase {
            PoolPhase::Resolving => {},
            _ => {
                return ;
            },
        }
        self.resolver.accept(outcome);
        if self.resolver.is_done() {
            self.phase = PoolPhase::Done;
        }
    }

    /// Ends the aggregation and hands out what it came to: the annotated
    /// pools with the token metadata when it is done, the error when it was
    /// given up, nothing if it was still under way.
    pub fn into_outcome(self) -> (outcome: Option<Result<PoolSnapshot, AggregationError>>)
        requires
            self@.wf(),
        ensures
            match outcome {
                Some(Ok(snapshot)) => self@.outcome() == Some(
                    Ok::<Seq<PoolView>, AggregationError>(snapshot.pools.deep_view()),
                ) && snapshot.tokens@ == self@.resolver.table && snapshot.tokens@.wf(),
                Some(Err(e)) => self@.outcome() == Some(Err::<Seq<PoolView>, AggregationError>(e)),
                None => self@.outcome() is None,
            },
    {
        match self.phase {
            PoolPhase::Done => {
                let mut pools = self.pools;
                let tokens = self.resolver.into_table();
                annotate(&mut pools, &self.seeds, &tokens);
                Some(Ok(PoolSnapshot { pools, tokens }))
            },
            PoolPhase::Failed(e) => Some(Err(e)),
            _ => None,
        }
    }
}

} // verus!
