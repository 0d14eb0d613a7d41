use vstd::prelude::*;
use crate::error::AggregationError;
use crate::farms::{
    active_seed_ids, all_readable, internal_farm_seeds, FarmCollector, FarmCollectorView,
    FarmSnapshot, FarmYield,
};
use crate::models::{PoolView, TokenMetadataView};
use crate::decimal::decimal_text;
use crate::pools::{annotate_pools, PoolAggregator, PoolAggregatorView, PoolSnapshot};
use crate::store::{
    farms_by_id, lemma_ranked_pools_are_all_stored, pools_by_id, CacheStore, CacheStoreView,
};
use crate::table::TableView;
use crate::tokens::{get_whitelisted_tokens, TokenTable, WhitelistResolver, WhitelistResolverView};

verus! {

/// How a step of a refresh ended.
#[derive(Clone, Copy, Debug, PartialEq, Eq, Structural)]
pub enum StepStatus {
    /// The step has not been reached.
    NotRun,
    /// The step's collection was replaced; it now has `entries` entries.
    Committed { entries: usize },
    /// The step failed, and its collection is what it was before.
    Failed(AggregationError),
}

/// The three steps of a refresh, in their order.
#[derive(Clone, Copy, Debug, PartialEq, Eq, Structural)]
pub enum RefreshStage {
    Tokens,
    Farms,
    Pools,
    Finished,
}

/// How each step of a refresh ended.
#[derive(Clone, Copy, Debug, PartialEq, Eq, Structural)]
pub struct RefreshReport {
    pub tokens: StepStatus,
    pub farms: StepStatus,
    pub pools: StepStatus,
}

impl RefreshReport {
    pub open spec fn blank() -> Self {
        RefreshReport {
            tokens: StepStatus::NotRun,
            farms: StepStatus::NotRun,
            pools: StepStatus::NotRun,
        }
    }

    /// The step that is up: the first that has not been run.
    pub open spec fn stage(self) -> RefreshStage {
        if self.tokens is NotRun {
            RefreshStage::Tokens
        } else if self.farms is NotRun {
            RefreshStage::Farms
        } else if self.pools is NotRun {
            RefreshStage::Pools
        } else {
            RefreshStage::Finished
        }
    }

    /// Whether some step failed.
    pub open spec fn any_failed(self) -> bool {
        self.tokens is Failed || self.farms is Failed || self.pools is Failed
    }

    /// Whether some step failed.
    pub fn has_failure(&self) -> (failed: bool)
        ensures
            failed == self.any_failed(),
    {
        let tokens = match self.tokens {
            StepStatus::Failed(_) => true,
            _ => false,
        };
        let farms = match self.farms {
            StepStatus::Failed(_) => true,
            _ => false,
        };
        let pools = match self.pools {
            StepStatus::Failed(_) => true,
            _ => false,
        };
        tokens || farms || pools
    }
}

/// What the token step hands in.
pub open spec fn tokens_outcome_view(
    outcome: Result<TokenTable, AggregationError>,
) -> Result<TableView<TokenMetadataView>, AggregationError> {
    match outcome {
        Ok(table) => Ok(table@),
        Err(e) => Err(e),
    }
}

/// What the farm step hands in.
pub open spec fn farms_outcome_view(
    outcome: Result<FarmSnapshot, AggregationError>,
) -> Result<FarmYield, AggregationError> {
    match outcome {
        Ok(snapshot) => Ok(
            FarmYield {
                farms: snapshot.farms.deep_view(),
                active: snapshot.active_seeds.deep_view(),
            },
        ),
        Err(e) => Err(e),
    }
}

/// The pools and the token metadata that the pool step hands in.
pub struct PoolYield {
    pub pools: Seq<PoolView>,
    pub tokens: TableView<TokenMetadataView>,
}

/// What the pool step hands in.
pub open spec fn pools_outcome_view(
    outcome: Result<PoolSnapshot, AggregationError>,
) -> Result<PoolYield, AggregationError> {
    match outcome {
        Ok(snapshot) => Ok(PoolYield { pools: snapshot.pools.deep_view(), tokens: snapshot.tokens@ }),
        Err(e) => Err(e),
    }
}

/// The state of a [`RefreshCycle`].
pub struct RefreshCycleView {
    pub store: CacheStoreView,
    pub report: RefreshReport,
}

impl RefreshCycleView {
    pub open spec fn wf(self) -> bool {
        self.store.wf()
    }

    pub open spec fn begin(store: CacheStoreView) -> Self {
        RefreshCycleView { store, report: RefreshReport::blank() }
    }

    /// The state after the token step ended. Resolved metadata replaces the
    /// token collection; a failure is noted and the collection stays.
    /// Outside the token step nothing changes.
    pub open spec fn record_tokens(
        self,
        outcome: Result<TableView<TokenMetadataView>, AggregationError>,
    ) -> Self {
        if self.report.stage() != RefreshStage::Tokens {
            self
        } else {
            match outcome {
                Ok(table) => RefreshCycleView {
                    store: CacheStoreView { tokens: table, ..self.store },
                    report: RefreshReport {
                        tokens: StepStatus::Committed { entries: table.len() as usize },
                        ..self.report
                    },
                },
                Err(e) => RefreshCycleView {
                    report: RefreshReport { tokens: StepStatus::Failed(e), ..self.report },
                    ..self
                },
            }
        }
    }

    /// The state after the farm step ended. Collected farms, keyed by farm
    /// id, replace the farm collection; the seeds that the step found active
    /// are not stored, since the pool step reads them off the stored farms. A
    /// failure is noted and the collection stays. Outside the farm step
    /// nothing changes.
    pub open spec fn record_farms(self, outcome: Result<FarmYield, AggregationError>) -> Self {
        if self.report.stage() != RefreshStage::Farms {
            self
        } else {
            match outcome {
                Ok(gained) => RefreshCycleView {
                    store: CacheStoreView { farms: farms_by_id(gained.farms), ..self.store },
                    report: RefreshReport {
                        farms: StepStatus::Committed {
                            entries: farms_by_id(gained.farms).len() as usize,
                        },
                        ..self.report
                    },
                },
                Err(e) => RefreshCycleView {
                    report: RefreshReport { farms: StepStatus::Failed(e), ..self.report },
                    ..self
                },
            }
        }
    }

    /// The state after the pool step ended. Aggregated pools, keyed by pool
    /// id, replace the pool collection, be they none at all, and the token
    /// metadata that came with them replaces the token collection; a failure
    /// is noted and both collections stay. Outside the pool step nothing
    /// changes.
    pub open spec fn record_pools(self, outcome: Result<PoolYield, AggregationError>) -> Self {
        if self.report.stage() != RefreshStage::Pools {
            self
        } else {
            match outcome {
                Ok(gained) => RefreshCycleView {
                    store: CacheStoreView {
                        pools: pools_by_id(gained.pools),
                        tokens: gained.tokens,
                        ..self.store
                    },
                    report: RefreshReport {
                        pools: StepStatus::Committed {
                            entries: pools_by_id(gained.pools).len() as usize,
                        },
                        ..self.report
                    },
                },
                Err(e) => RefreshCycleView {
                    report: RefreshReport { pools: StepStatus::Failed(e), ..self.report },
                    ..self
                },
            }
        }
    }

    /// A step that fails leaves every collection of the cache as it was and
    /// is reported as failed with its error.
    pub proof fn lemma_failed_step_keeps_cache(self, e: AggregationError)
        ensures
            self.record_tokens(Err(e)).store == self.store,
            self.record_farms(Err(e)).store == self.store,
            self.record_pools(Err(e)).store == self.store,
            self.report.stage() == RefreshStage::Tokens ==> self.record_tokens(Err(e)).report.tokens
                == StepStatus::Failed(e),
            self.report.stage() == RefreshStage::Farms ==> self.record_farms(Err(e)).report.farms
                == StepStatus::Failed(e),
            self.report.stage() == RefreshStage::Pools ==> self.record_pools(Err(e)).report.pools
                == StepStatus::Failed(e),
    {
    }

    /// A step touches no collection but its own; the pool step's own are the
    /// pools and the token metadata fetched for them.
    pub proof fn lemma_steps_are_independent(
        self,
        tokens: Result<TableView<TokenMetadataView>, AggregationError>,
        farms: Result<FarmYield, AggregationError>,
        pools: Result<PoolYield, AggregationError>,
    )
        ensures
            self.record_tokens(tokens).store.farms == self.store.farms,
            self.record_tokens(tokens).store.pools == self.store.pools,
            self.record_farms(farms).store.tokens == self.store.tokens,
            self.record_farms(farms).store.pools == self.store.pools,
            self.record_pools(pools).store.farms == self.store.farms,
    {
    }

    /// What an aggregation yields is committed whole: every pool is stored,
    /// under the numeral of its id and in the order of the listing, and the
    /// step reports as many entries as there are pools.
    pub proof fn lemma_aggregated_pools_are_all_committed(
        self,
        listed: Seq<PoolView>,
        seeds: Seq<Seq<char>>,
        tokens: TableView<TokenMetadataView>,
    )
        requires
            self.report.stage() == RefreshStage::Pools,
            listed.len() <= usize::MAX,
        ensures
            ({
                let pools = annotate_pools(listed, seeds, tokens);
                let after = self.record_pools(Ok(PoolYield { pools, tokens }));
                &&& after.store.pools.values == pools
                &&& after.store.pools.keys == Seq::new(
                    pools.len(),
                    |i: int| decimal_text(i as nat),
                )
                &&& after.report.pools == StepStatus::Committed { entries: listed.len() as usize }
            }),
    {
        lemma_ranked_pools_are_all_stored(annotate_pools(listed, seeds, tokens));
    }

    /// Where the pool step finds no pool, the pool collection is committed
    /// empty, which is not a failure.
    pub proof fn lemma_no_pools_is_committed(self, tokens: TableView<TokenMetadataView>)
        requires
            self.report.stage() == RefreshStage::Pools,
        ensures
            ({
                let after = self.record_pools(Ok(PoolYield { pools: Seq::empty(), tokens }));
                &&& after.store.pools == TableView::<PoolView>::empty()
                &&& after.report.pools == StepStatus::Committed { entries: 0 }
            }),
    {
    }
}

/// One refresh of the cache: token metadata, then farms, then pools.
///
/// Each step's collection is replaced when the step succeeds and left alone
/// when it fails. A refresh may be ended at any time; the steps that were not
/// reached then never commit.
pub struct RefreshCycle {
    store: CacheStore,
    report: RefreshReport,
}

impl View for RefreshCycle {
    type V = RefreshCycleView;

    closed spec fn view(&self) -> RefreshCycleView {
        RefreshCycleView { store: self.store@, report: self.report }
    }
}

impl RefreshCycle {
    /// A refresh of `store` of which no step has run.
    pub fn begin(store: CacheStore) -> (cycle: Self)
        requires
            store@.wf(),
        ensures
            cycle@ == RefreshCycleView::begin(store@),
            cycle@.wf(),
    {
        RefreshCycle {
            store,
            report: RefreshReport {
                tokens: StepStatus::NotRun,
                farms: StepStatus::NotRun,
                pools: StepStatus::NotRun,
            },
        }
    }

    /// The step that is up.
    pub fn stage(&self) -> (stage: RefreshStage)
        ensures
            stage == self@.report.stage(),
    {
        match self.report.tokens {
            StepStatus::NotRun => {
                return RefreshStage::Tokens;
            },
            _ => {},
        }
        match self.report.farms {
            StepStatus::NotRun => {
                return RefreshStage::Farms;
            },
            _ => {},
        }
        match self.report.pools {
            StepStatus::NotRun => RefreshStage::Pools,
            _ => RefreshStage::Finished,
        }
    }

    /// The cache as it stands.
    pub fn store(&self) -> (store: &CacheStore)
        ensures
            store@ == self@.store,
    {
        &self.store
    }

    /// How the steps have ended so far.
    pub fn report(&self) -> (report: RefreshReport)
        ensures
            report == self@.report,
    {
        self.report
    }

    /// The resolution of the whitelisted tokens, starting from the cached
    /// metadata.
    pub fn start_tokens(&self) -> (resolver: WhitelistResolver)
        requires
            self@.wf(),
        ensures
            resolver@ == WhitelistResolverView::start(self@.store.tokens),
            resolver@.wf(),
    {
        get_whitelisted_tokens(self.store.tokens().clone())
    }

    /// The collection of the farms.
    pub fn start_farms(&self) -> (collector: FarmCollector)
        ensures
            collector@ == FarmCollectorView::start(),
            collector@.wf(),
    {
        FarmCollector::new()
    }

    /// The aggregation of the pools: it marks pools by the seeds of the
    /// cached farms that are active and starts from the cached metadata. A
    /// decode error where a reward amount of a cached farm is no numeral.
    pub fn start_pools(&self) -> (aggregator: Result<PoolAggregator, AggregationError>)
        requires
            self@.wf(),
        ensures
            match aggregator {
                Ok(a) => all_readable(self@.store.farms.values) && a@ == PoolAggregatorView::start(
                    active_seed_ids(self@.store.farms.values),
                    self@.store.tokens,
                ) && a@.wf(),
                Err(e) => e == AggregationError::Decode && !all_readable(
                    self@.store.farms.values,
                ),
            },
    {
        match internal_farm_seeds(self.store.farms().values()) {
            Ok(seeds) => Ok(PoolAggregator::new(seeds, self.store.tokens().clone())),
            Err(e) => Err(e),
        }
    }

    /// Notes how the token step ended and commits what it resolved.
    pub fn record_tokens(&mut self, outcome: Result<TokenTable, AggregationError>)
        requires
            old(self)@.wf(),
            outcome matches Ok(table) ==> table@.wf(),
        ensures
            final(self)@ == old(self)@.record_tokens(tokens_outcome_view(outcome)),
            final(self)@.wf(),
    {
        match self.stage() {
            RefreshStage::Tokens => {},
            _ => {
                return ;
            },
        }
        match outcome {
            Ok(table) => {
                self.report.tokens = StepStatus::Committed { entries: table.len() };
                self.store.put_tokens(table);
            },
            Err(e) => {
                self.report.tokens = StepStatus::Failed(e);
            },
        }
    }

    /// Notes how the farm step ended and commits what it collected.
    pub fn record_farms(&mut self, outcome: Result<FarmSnapshot, AggregationError>)
        requires
            old(self)@.wf(),
        ensures
            final(self)@ == old(self)@.record_farms(farms_outcome_view(outcome)),
            final(self)@.wf(),
    {
        match self.stage() {
            RefreshStage::Farms => {},
            _ => {
                return ;
            },
        }
        match outcome {
            Ok(snapshot) => {
                self.store.put_farms(snapshot.farms);
                self.report.farms = StepStatus::Committed { entries: self.store.farms().len() };
            },
            Err(e) => {
                self.report.farms = StepStatus::Failed(e);
            },
        }
    }

    /// Notes how the pool step ended and commits what it aggregated.
    pub fn record_pools(&mut self, outcome: Result<PoolSnapshot, AggregationError>)
        requires
            old(self)@.wf(),
            outcome matches Ok(snapshot) ==> snapshot.tokens@.wf(),
        ensures
            final(self)@ == old(self)@.record_pools(pools_outcome_view(outcome)),
            final(self)@.wf(),
    {
        match self.stage() {
            RefreshStage::Pools => {},
            _ => {
                return ;
            },
        }
        match outcome {
            Ok(snapshot) => {
                self.store.put_pools(snapshot.pools);
                self.store.put_tokens(snapshot.tokens);
                self.report.pools = StepStatus::Committed { entries: self.store.pools().len() };
            },
            Err(e) => {
                self.report.pools = StepStatus::Failed(e);
            },
        }
    }

    /// Ends the refresh and hands out the cache and the report.
    pub fn finish(self) -> (ended: (CacheStore, RefreshReport))
        ensures
            ended.0@ == self@.store,
            ended.1 == self@.report,
    {
        (self.store, self.report)
    }
}

} // verus!
