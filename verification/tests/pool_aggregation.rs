use ref_aggregator::consts::Methods;
use ref_aggregator::error::AggregationError;
use ref_aggregator::models::{FungibleTokenMetadata, PoolInfo};
use ref_aggregator::pools::{
    annotate, seed_id_of_pool, token_symbols, PoolAggregator, PoolPhase, POOL_PAGE_LIMIT,
};
use ref_aggregator::table::Table;

fn token(symbol: &str) -> FungibleTokenMetadata {
    FungibleTokenMetadata {
        spec: "ft-1.0.0".to_string(),
        name: format!("{} token", symbol),
        symbol: symbol.to_string(),
        icon: None,
        reference: None,
        reference_hash: None,
        decimals: 18,
    }
}

fn texts(items: &[&str]) -> Vec<String> {
    items.iter().map(|s| s.to_string()).collect()
}

fn pool(kind: &str, tokens: &[&str]) -> PoolInfo {
    PoolInfo {
        pool_kind: kind.to_string(),
        token_account_ids: texts(tokens),
        amounts: tokens.iter().map(|_| "1000".to_string()).collect(),
        total_fee: 30,
        shares_total_supply: "500".to_string(),
        amp: 0,
        id: None,
        farming: None,
        token_symbols: None,
    }
}

fn batch(from: usize, count: usize) -> Vec<PoolInfo> {
    (from..from + count).map(|i| pool(&format!("kind-{}", i), &["A", "B"])).collect()
}

fn held_a_and_b() -> Table<FungibleTokenMetadata> {
    let mut table = Table::new();
    table.insert("A".to_string(), token("SYM-A"));
    table.insert("B".to_string(), token("SYM-B"));
    table
}

#[test]
fn pool_seed_is_exchange_at_rank() {
    assert_eq!(seed_id_of_pool(0), "ref-finance-101.testnet@0");
    assert_eq!(seed_id_of_pool(79), "ref-finance-101.testnet@79");
    assert_eq!(seed_id_of_pool(1024), "ref-finance-101.testnet@1024");
    assert_eq!(seed_id_of_pool(u64::MAX), "ref-finance-101.testnet@18446744073709551615");
}

#[test]
fn symbols_skip_tokens_without_metadata() {
    let table = held_a_and_b();
    assert_eq!(token_symbols(&texts(&["A", "B"]), &table), texts(&["SYM-A", "SYM-B"]));
    assert_eq!(token_symbols(&texts(&["B", "X", "A", "B"]), &table), texts(&["SYM-B", "SYM-A", "SYM-B"]));
    assert_eq!(token_symbols(&texts(&["X"]), &table), Vec::<String>::new());
    assert_eq!(token_symbols(&Vec::new(), &table), Vec::<String>::new());
}

#[test]
fn annotate_numbers_marks_and_names() {
    let mut pools = vec![pool("k0", &["A", "B"]), pool("k1", &["B", "X"]), pool("k2", &[])];
    let seeds = texts(&["ref-finance-101.testnet@1", "other.testnet@0"]);
    annotate(&mut pools, &seeds, &held_a_and_b());
    assert_eq!(pools.len(), 3);
    assert_eq!(pools[0].id, Some(0));
    assert_eq!(pools[1].id, Some(1));
    assert_eq!(pools[2].id, Some(2));
    assert_eq!(pools[0].farming, Some(false));
    assert_eq!(pools[1].farming, Some(true));
    assert_eq!(pools[2].farming, Some(false));
    assert_eq!(pools[0].token_symbols, Some(texts(&["SYM-A", "SYM-B"])));
    assert_eq!(pools[1].token_symbols, Some(texts(&["SYM-B"])));
    assert_eq!(pools[2].token_symbols, Some(Vec::new()));
    assert_eq!(pools[1].pool_kind, "k1");
    assert_eq!(pools[1].token_account_ids, texts(&["B", "X"]));
    assert_eq!(pools[1].amounts, texts(&["1000", "1000"]));
    assert_eq!(pools[1].total_fee, 30);
    assert_eq!(pools[1].shares_total_supply, "500");
    assert_eq!(pools[1].amp, 0);
}

#[test]
fn farming_flag_follows_seed_membership_for_no_seed() {
    let mut pools = batch(0, 4);
    annotate(&mut pools, &Vec::new(), &held_a_and_b());
    for p in &pools {
        assert_eq!(p.farming, Some(false));
    }
}

#[test]
fn farming_flag_follows_seed_membership_for_one_seed() {
    let mut pools = batch(0, 4);
    annotate(&mut pools, &texts(&["ref-finance-101.testnet@2"]), &held_a_and_b());
    let flags: Vec<Option<bool>> = pools.iter().map(|p| p.farming).collect();
    assert_eq!(flags, vec![Some(false), Some(false), Some(true), Some(false)]);
}

#[test]
fn farming_flag_follows_seed_membership_for_many_seeds() {
    let mut pools = batch(0, 12);
    let seeds = texts(&[
        "ref-finance-101.testnet@11",
        "ref-finance-101.testnet@0",
        "ref-finance-101.testnet@1",
        "ref-finance-101.testnet@01",
        "ref-finance-101.testnet@12",
        "v2.ref-farming.testnet@3",
        "ref-finance-101.testnet@",
        "@4",
        "ref-finance-101.testnet@11",
    ]);
    annotate(&mut pools, &seeds, &held_a_and_b());
    for (i, p) in pools.iter().enumerate() {
        let expected = seeds.contains(&format!("ref-finance-101.testnet@{}", i));
        assert_eq!(p.farming, Some(expected), "pool {}", i);
        assert_eq!(p.id, Some(i as u64));
    }
    assert_eq!(pools[0].farming, Some(true));
    assert_eq!(pools[1].farming, Some(true));
    assert_eq!(pools[11].farming, Some(true));
    assert_eq!(pools[3].farming, Some(false));
    assert_eq!(pools[4].farming, Some(false));
}

#[test]
fn aggregator_counts_then_lists_by_pages() {
    let mut aggregator = PoolAggregator::new(Vec::new(), held_a_and_b());
    assert_eq!(aggregator.phase(), PoolPhase::Counting);
    let request = aggregator.next_request().unwrap();
    assert_eq!(request.contract_id, "ref-finance-101.testnet");
    assert_eq!(request.method, Methods::NumPools);
    assert_eq!(request.args, b"{}".to_vec());

    aggregator.on_count(Ok(450));
    assert_eq!(aggregator.phase(), PoolPhase::Listing);
    let request = aggregator.next_request().unwrap();
    assert_eq!(request.method, Methods::GetPools);
    assert_eq!(request.args, b"{\"from_index\":0,\"limit\":200}".to_vec());

    aggregator.on_page(Ok(batch(0, 200)));
    assert_eq!(aggregator.next_request().unwrap().args, b"{\"from_index\":200,\"limit\":200}".to_vec());
    aggregator.on_page(Ok(batch(200, 150)));
    assert_eq!(aggregator.next_request().unwrap().args, b"{\"from_index\":350,\"limit\":200}".to_vec());
    aggregator.on_page(Ok(batch(350, 100)));
    assert_eq!(aggregator.phase(), PoolPhase::Done);
    assert!(aggregator.next_request().is_none());

    let snapshot = aggregator.into_outcome().unwrap().unwrap();
    assert_eq!(snapshot.pools.len(), 450);
    for (i, p) in snapshot.pools.iter().enumerate() {
        assert_eq!(p.id, Some(i as u64));
        assert_eq!(p.pool_kind, format!("kind-{}", i));
    }
}

#[test]
fn page_limit_is_two_hundred() {
    assert_eq!(POOL_PAGE_LIMIT, 200);
}

#[test]
fn listing_length_is_the_sum_of_the_batches() {
    let runs: Vec<Vec<usize>> = vec![
        vec![1],
        vec![3, 4],
        vec![200, 200, 7],
        vec![1, 1, 1, 1, 1],
        vec![5, 250],
        vec![2, 0],
        vec![9, 1, 0],
    ];
    for sizes in runs {
        let total: usize = sizes.iter().sum();
        let count = if sizes.last() == Some(&0) { total as u64 + 5 } else { total as u64 };
        let mut aggregator = PoolAggregator::new(Vec::new(), held_a_and_b());
        aggregator.on_count(Ok(count));
        let mut from = 0;
        for size in &sizes {
            assert_eq!(aggregator.phase(), PoolPhase::Listing);
            let expected = format!("{{\"from_index\":{},\"limit\":200}}", from);
            assert_eq!(aggregator.next_request().unwrap().args, expected.into_bytes());
            aggregator.on_page(Ok(batch(from, *size)));
            from += size;
        }
        assert_eq!(aggregator.phase(), PoolPhase::Done);
        let snapshot = aggregator.into_outcome().unwrap().unwrap();
        assert_eq!(snapshot.pools.len(), total);
        for (i, p) in snapshot.pools.iter().enumerate() {
            assert_eq!(p.id, Some(i as u64));
            assert_eq!(p.pool_kind, format!("kind-{}", i));
        }
    }
}

#[test]
fn listing_takes_more_than_was_counted() {
    let mut aggregator = PoolAggregator::new(Vec::new(), held_a_and_b());
    aggregator.on_count(Ok(3));
    aggregator.on_page(Ok(batch(0, 5)));
    assert_eq!(aggregator.phase(), PoolPhase::Done);
    assert_eq!(aggregator.into_outcome().unwrap().unwrap().pools.len(), 5);
}

#[test]
fn zero_pools_is_an_empty_success() {
    let mut aggregator = PoolAggregator::new(texts(&["ref-finance-101.testnet@0"]), held_a_and_b());
    aggregator.on_count(Ok(0));
    assert_eq!(aggregator.phase(), PoolPhase::Done);
    assert!(aggregator.next_request().is_none());
    let snapshot = aggregator.into_outcome().unwrap().unwrap();
    assert!(snapshot.pools.is_empty());
    assert_eq!(snapshot.tokens.len(), 2);
}

#[test]
fn failing_count_gives_the_aggregation_up() {
    let mut aggregator = PoolAggregator::new(Vec::new(), Table::new());
    aggregator.on_count(Err(AggregationError::Transport));
    assert_eq!(aggregator.phase(), PoolPhase::Failed(AggregationError::Transport));
    assert!(aggregator.next_request().is_none());
    aggregator.on_page(Ok(batch(0, 2)));
    aggregator.on_count(Ok(2));
    assert_eq!(aggregator.into_outcome().unwrap().err(), Some(AggregationError::Transport));
}

#[test]
fn failing_page_gives_the_aggregation_up() {
    let mut aggregator = PoolAggregator::new(Vec::new(), Table::new());
    aggregator.on_count(Ok(300));
    aggregator.on_page(Ok(batch(0, 200)));
    aggregator.on_page(Err(AggregationError::Decode));
    assert_eq!(aggregator.phase(), PoolPhase::Failed(AggregationError::Decode));
    assert_eq!(aggregator.into_outcome().unwrap().err(), Some(AggregationError::Decode));
}

#[test]
fn empty_page_ends_the_listing() {
    let mut aggregator = PoolAggregator::new(Vec::new(), held_a_and_b());
    aggregator.on_count(Ok(300));
    aggregator.on_page(Ok(batch(0, 200)));
    aggregator.on_page(Ok(Vec::new()));
    assert_eq!(aggregator.phase(), PoolPhase::Done);
    assert_eq!(aggregator.into_outcome().unwrap().unwrap().pools.len(), 200);
}

#[test]
fn counted_pools_that_never_come_are_an_empty_result() {
    let mut aggregator = PoolAggregator::new(Vec::new(), held_a_and_b());
    aggregator.on_count(Ok(3));
    aggregator.on_page(Ok(Vec::new()));
    assert_eq!(aggregator.phase(), PoolPhase::Failed(AggregationError::EmptyResult));
    assert_eq!(aggregator.into_outcome().unwrap().err(), Some(AggregationError::EmptyResult));
}

#[test]
fn missing_metadata_is_fetched_once_per_token() {
    let mut table = Table::new();
    table.insert("A".to_string(), token("SYM-A"));
    let mut aggregator = PoolAggregator::new(Vec::new(), table);
    aggregator.on_count(Ok(3));
    aggregator.on_page(Ok(vec![
        pool("k0", &["A", "B"]),
        pool("k1", &["B", "C"]),
        pool("k2", &["C", "A", "B"]),
    ]));
    assert_eq!(aggregator.phase(), PoolPhase::Resolving);
    let mut asked = Vec::new();
    while let Some(request) = aggregator.next_request() {
        assert_eq!(request.method, Methods::FtMetadata);
        assert_eq!(request.args, b"{}".to_vec());
        asked.push(request.contract_id.clone());
        if request.contract_id == "B" {
            aggregator.on_metadata(Ok(token("SYM-B")));
        } else {
            aggregator.on_metadata(Err(AggregationError::Transport));
        }
    }
    assert_eq!(asked, texts(&["B", "C"]));
    assert_eq!(aggregator.phase(), PoolPhase::Done);
    let snapshot = aggregator.into_outcome().unwrap().unwrap();
    assert_eq!(snapshot.pools[0].token_symbols, Some(texts(&["SYM-A", "SYM-B"])));
    assert_eq!(snapshot.pools[1].token_symbols, Some(texts(&["SYM-B"])));
    assert_eq!(snapshot.pools[2].token_symbols, Some(texts(&["SYM-A", "SYM-B"])));
    assert_eq!(snapshot.tokens.len(), 2);
    assert!(snapshot.tokens.contains_key("B"));
    assert!(!snapshot.tokens.contains_key("C"));
}

#[test]
fn aggregated_pools_carry_the_farming_flag() {
    let seeds = texts(&["ref-finance-101.testnet@0", "ref-finance-101.testnet@2"]);
    let mut aggregator = PoolAggregator::new(seeds, held_a_and_b());
    aggregator.on_count(Ok(3));
    aggregator.on_page(Ok(batch(0, 2)));
    aggregator.on_page(Ok(batch(2, 1)));
    let snapshot = aggregator.into_outcome().unwrap().unwrap();
    let flags: Vec<Option<bool>> = snapshot.pools.iter().map(|p| p.farming).collect();
    assert_eq!(flags, vec![Some(true), Some(false), Some(true)]);
}

#[test]
fn unfinished_aggregation_has_no_outcome() {
    let aggregator = PoolAggregator::new(Vec::new(), Table::new());
    assert!(aggregator.into_outcome().is_none());
    let mut aggregator = PoolAggregator::new(Vec::new(), Table::new());
    aggregator.on_count(Ok(2));
    aggregator.on_page(Ok(batch(0, 1)));
    aggregator.on_metadata(Ok(token("early")));
    assert_eq!(aggregator.phase(), PoolPhase::Listing);
    assert!(aggregator.into_outcome().is_none());
}
