use vstd::prelude::*;
use crate::decimal::{decimal_text, lemma_decimal_text_injective, u64_to_decimal};
use crate::models::{FarmInfo, FarmView, PoolInfo, PoolView, TokenMetadataView};
use crate::table::{Table, TableView};
use crate::tokens::TokenTable;

verus! {

/// The three collections of the cache.
#[derive(Clone, Copy, Debug, PartialEq, Eq, Structural)]
pub enum Collection {
    Farms,
    Pools,
    TokenMetadata,
}

impl Collection {
    /// The key under which the collection is kept in the cache store.
    pub open spec fn cache_key(self) -> Seq<char> {
        match self {
            Collection::Farms => "redis-driver:rust"@,
            Collection::Pools => "redis-driver:pool"@,
            Collection::TokenMetadata => "redis-driver:metadata"@,
        }
    }

    pub fn key(&self) -> (key: &'static str)
        ensures
            key@ == self.cache_key(),
    {
        match self {
            Collection::Farms => "redis-driver:rust",
            Collection::Pools => "redis-driver:pool",
            Collection::TokenMetadata => "redis-driver:metadata",
        }
    }
}

/// The farms keyed by farm id; of two farms with one id the later stands.
pub open spec fn farms_by_id(farms: Seq<FarmView>) -> TableView<FarmView>
    decreases farms.len(),
{
    if farms.len() == 0 {
        TableView::empty()
    } else {
        farms_by_id(farms.drop_last()).insert(farms.last().farm_id, farms.last())
    }
}

/// The pools keyed by the decimal numeral of their id; a pool without an id
/// is left out.
pub open spec fn pools_by_id(pools: Seq<PoolView>) -> TableView<PoolView>
    decreases pools.len(),
{
    if pools.len() == 0 {
        TableView::empty()
    } else {
        let front = pools_by_id(pools.drop_last());
        match pools.last().id {
            Some(id) => front.insert(decimal_text(id as nat), pools.last()),
            None => front,
        }
    }
}

/// Pools that carry their ranks as ids are all stored, each under the numeral
/// of its rank and in the order of the ranks: no two of them share a key.
pub proof fn lemma_ranked_pools_are_all_stored(pools: Seq<PoolView>)
    requires
        pools.len() <= u64::MAX,
        forall|i: int| 0 <= i < pools.len() ==> (#[trigger] pools[i]).id == Some(i as u64),
    ensures
        pools_by_id(pools).wf(),
        pools_by_id(pools).values == pools,
        pools_by_id(pools).keys == Seq::new(pools.len(), |i: int| decimal_text(i as nat)),
    decreases pools.len(),
{
    if pools.len() == 0 {
        assert(pools_by_id(pools).values =~= pools);
        assert(pools_by_id(pools).keys =~= Seq::new(pools.len(), |i: int| decimal_text(i as nat)));
    } else {
        let front = pools.drop_last();
        let last = (pools.len() - 1) as nat;
        lemma_ranked_pools_are_all_stored(front);
        let before = pools_by_id(front);
        assert(pools.last().id == Some(last as u64));
        let key = decimal_text(last);
        assert(!before.contains_key(key)) by {
            if before.contains_key(key) {
                let j = choose|j: int| 0 <= j < before.keys.len() && before.keys[j] == key;
                lemma_decimal_text_injective(j as nat, last);
            }
        }
        before.lemma_insert(key, pools.last());
        assert(pools_by_id(pools).values =~= pools);
        assert(pools_by_id(pools).keys =~= Seq::new(pools.len(), |i: int| decimal_text(i as nat)));
    }
}

/// Keys the farms by their farm id.
pub fn index_farms(farms: Vec<FarmInfo>) -> (table: Table<FarmInfo>)
    ensures
        table@ == farms_by_id(farms.deep_view()),
        table@.wf(),
{
    let ghost views = farms.deep_view();
    let ghost items = farms@;
    let mut table: Table<FarmInfo> = Table::new();
    assert(views.take(0) =~= Seq::empty());
    for farm in it: farms
        invariant
            it.seq() == items,
            views.len() == items.len(),
            forall|j: int| 0 <= j < items.len() ==> views[j] == (#[trigger] items[j])@,
            table@.wf(),
            table@ == farms_by_id(views.take(it.index() as int)),
    {
        proof {
            let upto = views.take(it.index() + 1);
            assert(upto.drop_last() =~= views.take(it.index() as int));
            assert(upto.last() == farm@);
        }
        let key = farm.farm_id.clone();
        table.insert(key, farm);
    }
    assert(views.take(views.len() as int) =~= views);
    table
}

/// Keys the pools by the decimal numeral of their id.
pub fn index_pools(pools: Vec<PoolInfo>) -> (table: Table<PoolInfo>)
    ensures
        table@ == pools_by_id(pools.deep_view()),
        table@.wf(),
{
    let ghost views = pools.deep_view();
    let ghost items = pools@;
    let mut table: Table<PoolInfo> = Table::new();
    assert(views.take(0) =~= Seq::empty());
    for pool in it: pools
        invariant
            it.seq() == items,
            views.len() == items.len(),
            forall|j: int| 0 <= j < items.len() ==> views[j] == (#[trigger] items[j])@,
            table@.wf(),
            table@ == pools_by_id(views.take(it.index() as int)),
    {
        proof {
            let upto = views.take(it.index() + 1);
            assert(upto.drop_last() =~= views.take(it.index() as int));
            assert(upto.last() == pool@);
        }
        match pool.id {
            Some(id) => {
                let key = u64_to_decimal(id);
                table.insert(key, pool);
            },
            None => {},
        }
    }
    assert(views.take(views.len() as int) =~= views);
    table
}

/// The contents of a [`CacheStore`].
pub struct CacheStoreView {
    pub farms: TableView<FarmView>,
    pub pools: TableView<PoolView>,
    pub tokens: TableView<TokenMetadataView>,
}

impl CacheStoreView {
    pub open spec fn wf(self) -> bool {
        &&& self.farms.wf()
        &&& self.pools.wf()
        &&& self.tokens.wf()
    }

    pub open spec fn empty() -> Self {
        CacheStoreView {
            farms: TableView::empty(),
            pools: TableView::empty(),
            tokens: TableView::empty(),
        }
    }
}

/// The cache: farms by farm id, pools by pool id, token metadata by token
/// contract id. A collection is only ever replaced as a whole.
pub struct CacheStore {
    farms: Table<FarmInfo>,
    pools: Table<PoolInfo>,
    tokens: TokenTable,
}

impl View for CacheStore {
    type V = CacheStoreView;

    closed spec fn view(&self) -> CacheStoreView {
        CacheStoreView { farms: self.farms@, pools: self.pools@, tokens: self.tokens@ }
    }
}

impl CacheStore {
    /// A cache with three empty collections.
    pub fn new() -> (store: Self)
        ensures
            store@ == CacheStoreView::empty(),
            store@.wf(),
    {
        CacheStore { farms: Table::new(), pools: Table::new(), tokens: Table::new() }
    }

    /// The farm collection.
    pub fn farms(&self) -> (farms: &Table<FarmInfo>)
        ensures
            farms@ == self@.farms,
    {
        &self.farms
    }

    /// The pool collection.
    pub fn pools(&self) -> (pools: &Table<PoolInfo>)
        ensures
            pools@ == self@.pools,
    {
        &self.pools
    }

    /// The token metadata collection.
    pub fn tokens(&self) -> (tokens: &TokenTable)
        ensures
            tokens@ == self@.tokens,
    {
        &self.tokens
    }

    /// Replaces the farm collection by `farms`, keyed by farm id.
    pub fn put_farms(&mut self, farms: Vec<FarmInfo>)
        ensures
            final(self)@ == (CacheStoreView { farms: farms_by_id(farms.deep_view()), ..old(self)@ }),
            final(self)@.farms.wf(),
    {
        self.farms = index_farms(farms);
    }

    /// Replaces the pool collection by `pools`, keyed by pool id.
    pub fn put_pools(&mut self, pools: Vec<PoolInfo>)
        ensures
            final(self)@ == (CacheStoreView { pools: pools_by_id(pools.deep_view()), ..old(self)@ }),
            final(self)@.pools.wf(),
    {
        self.pools = index_pools(pools);
    }

    /// Replaces the token metadata collection by `tokens`.
    pub fn put_tokens(&mut self, tokens: TokenTable)
        ensures
            final(self)@ == (CacheStoreView { tokens: tokens@, ..old(self)@ }),
    {
        self.tokens = tokens;
    }
}

} // verus!
