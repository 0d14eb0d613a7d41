use ref_aggregator::consts::Methods;
use ref_aggregator::error::AggregationError;
use ref_aggregator::farms::{
    any_active, internal_farm_seeds, is_active, FarmCollector, FarmPhase,
};
use ref_aggregator::models::FarmInfo;

fn farm(id: &str, seed: &str, status: &str, total: &str, claimed: &str, unclaimed: &str) -> FarmInfo {
    FarmInfo {
        farm_id: id.to_string(),
        farm_kind: "SIMPLE_FARM".to_string(),
        farm_status: status.to_string(),
        seed_id: seed.to_string(),
        reward_token: "reward.testnet".to_string(),
        start_at: 1,
        reward_per_session: "10".to_string(),
        session_interval: 60,
        total_reward: total.to_string(),
        cur_round: 3,
        last_round: 2,
        claimed_reward: claimed.to_string(),
        unclaimed_reward: unclaimed.to_string(),
        beneficiary_reward: "0".to_string(),
    }
}

#[test]
fn farm_with_reward_left_is_active() {
    assert_eq!(is_active(&farm("f", "s", "Running", "100", "40", "30")), Ok(true));
}

#[test]
fn farm_with_nothing_left_is_inactive() {
    assert_eq!(is_active(&farm("f", "s", "Running", "100", "60", "40")), Ok(false));
    assert_eq!(is_active(&farm("f", "s", "Running", "100", "60", "41")), Ok(false));
    assert_eq!(is_active(&farm("f", "s", "Running", "0", "0", "0")), Ok(false));
}

#[test]
fn rewards_are_compared_as_numbers() {
    assert_eq!(is_active(&farm("f", "s", "Running", "80", "9", "0")), Ok(true));
    assert_eq!(is_active(&farm("f", "s", "Running", "9", "80", "0")), Ok(false));
    assert_eq!(is_active(&farm("f", "s", "Running", "100", "99", "0")), Ok(true));
    assert_eq!(is_active(&farm("f", "s", "Running", "1000", "999", "0")), Ok(true));
    assert_eq!(
        is_active(&farm("f", "s", "Running", "10000000000000000000000001", "10000000000000000000000000", "0")),
        Ok(true)
    );
}

#[test]
fn farm_that_is_not_running_is_inactive() {
    assert_eq!(is_active(&farm("f", "s", "Ended", "100", "40", "30")), Ok(false));
    assert_eq!(is_active(&farm("f", "s", "Created", "100", "0", "0")), Ok(false));
    assert_eq!(is_active(&farm("f", "s", "running", "100", "0", "0")), Ok(false));
    assert_eq!(is_active(&farm("f", "s", "", "100", "0", "0")), Ok(false));
}

#[test]
fn sum_of_rewards_is_not_cut_to_128_bits() {
    let max = "340282366920938463463374607431768211455";
    assert_eq!(is_active(&farm("f", "s", "Running", max, max, "1")), Ok(false));
    assert_eq!(is_active(&farm("f", "s", "Running", max, max, max)), Ok(false));
    assert_eq!(is_active(&farm("f", "s", "Running", "5", max, "7")), Ok(false));
    assert_eq!(is_active(&farm("f", "s", "Running", max, "1", "2")), Ok(true));
}

#[test]
fn unreadable_rewards_are_a_decode_error() {
    assert_eq!(is_active(&farm("f", "s", "Running", "1e3", "0", "0")), Err(AggregationError::Decode));
    assert_eq!(is_active(&farm("f", "s", "Running", "100", "", "0")), Err(AggregationError::Decode));
    assert_eq!(is_active(&farm("f", "s", "Running", "100", "0", "-1")), Err(AggregationError::Decode));
    assert_eq!(is_active(&farm("f", "s", "Ended", "abc", "0", "0")), Err(AggregationError::Decode));
    assert_eq!(
        is_active(&farm("f", "s", "Running", "340282366920938463463374607431768211456", "0", "0")),
        Err(AggregationError::Decode)
    );
}

#[test]
fn any_active_looks_at_every_farm() {
    assert_eq!(any_active(&Vec::new()), Ok(false));
    let farms = vec![
        farm("a", "s", "Ended", "100", "0", "0"),
        farm("b", "s", "Running", "100", "100", "0"),
    ];
    assert_eq!(any_active(&farms), Ok(false));
    let farms = vec![
        farm("a", "s", "Ended", "100", "0", "0"),
        farm("b", "s", "Running", "100", "99", "0"),
    ];
    assert_eq!(any_active(&farms), Ok(true));
    let farms = vec![
        farm("a", "s", "Running", "100", "0", "0"),
        farm("b", "s", "Running", "x", "0", "0"),
    ];
    assert_eq!(any_active(&farms), Err(AggregationError::Decode));
}

#[test]
fn farm_seeds_are_those_of_the_active_farms() {
    let farms = vec![
        farm("s1#0", "x@1", "Running", "100", "40", "30"),
        farm("s2#0", "x@2", "Ended", "100", "40", "30"),
        farm("s3#0", "x@3", "Running", "100", "60", "40"),
        farm("s1#1", "x@1", "Running", "7", "0", "6"),
        farm("s4#0", "x@4", "Running", "1", "0", "0"),
    ];
    assert_eq!(internal_farm_seeds(&farms), Ok(vec!["x@1".to_string(), "x@4".to_string()]));
    assert_eq!(internal_farm_seeds(&Vec::new()), Ok(Vec::new()));
}

#[test]
fn seed_of_two_active_farms_is_named_once() {
    let farms = vec![
        farm("a", "x@7", "Running", "100", "40", "30"),
        farm("b", "x@7", "Running", "50", "0", "0"),
    ];
    assert_eq!(internal_farm_seeds(&farms), Ok(vec!["x@7".to_string()]));
}

#[test]
fn farm_seeds_hold_the_same_seeds_in_whatever_order_the_farms_come() {
    let forward = vec![
        farm("a", "x@1", "Running", "100", "40", "30"),
        farm("b", "x@2", "Running", "100", "0", "0"),
        farm("c", "x@1", "Running", "9", "0", "0"),
        farm("d", "x@3", "Ended", "9", "0", "0"),
        farm("e", "x@2", "Running", "9", "9", "0"),
    ];
    let backward = vec![
        farm("e", "x@2", "Running", "9", "9", "0"),
        farm("d", "x@3", "Ended", "9", "0", "0"),
        farm("c", "x@1", "Running", "9", "0", "0"),
        farm("b", "x@2", "Running", "100", "0", "0"),
        farm("a", "x@1", "Running", "100", "40", "30"),
    ];
    let mut one = internal_farm_seeds(&forward).unwrap();
    let mut other = internal_farm_seeds(&backward).unwrap();
    assert_eq!(one, vec!["x@1".to_string(), "x@2".to_string()]);
    assert_eq!(other, vec!["x@1".to_string(), "x@2".to_string()]);
    one.sort();
    other.sort();
    assert_eq!(one, other);
}

#[test]
fn farm_seeds_fail_on_unreadable_rewards() {
    let farms = vec![
        farm("s1#0", "x@1", "Running", "100", "40", "30"),
        farm("s2#0", "x@2", "Ended", "100", "4 0", "30"),
    ];
    assert_eq!(internal_farm_seeds(&farms), Err(AggregationError::Decode));
}

#[test]
fn collector_asks_for_seeds_then_for_farms_of_each_seed() {
    let mut collector = FarmCollector::new();
    assert_eq!(collector.phase(), FarmPhase::Seeding);
    let request = collector.next_request().unwrap();
    assert_eq!(request.method, Methods::ListSeeds);
    assert_eq!(request.contract_id, "v2.ref-farming.testnet");
    assert_eq!(request.args, b"{\"from_index\":0,\"limit\":100}".to_vec());
    assert!(collector.into_outcome().is_none());

    let mut collector = FarmCollector::new();
    collector.on_seeds(Ok(vec!["x@1".to_string(), "x@2".to_string(), "x@3".to_string()]));
    assert_eq!(collector.phase(), FarmPhase::Collecting);
    let request = collector.next_request().unwrap();
    assert_eq!(request.method, Methods::ListFarmsBySeeds);
    assert_eq!(request.args, b"{\"seed_id\":\"x@1\"}".to_vec());

    collector.on_farms(Ok(vec![farm("x@1#0", "x@1", "Running", "100", "40", "30")]));
    assert_eq!(collector.next_request().unwrap().args, b"{\"seed_id\":\"x@2\"}".to_vec());
    collector.on_farms(Ok(vec![
        farm("x@2#0", "x@2", "Ended", "100", "40", "30"),
        farm("x@2#1", "x@2", "Running", "100", "100", "0"),
    ]));
    assert_eq!(collector.next_request().unwrap().args, b"{\"seed_id\":\"x@3\"}".to_vec());
    collector.on_farms(Ok(Vec::new()));
    assert_eq!(collector.phase(), FarmPhase::Done);
    assert!(collector.next_request().is_none());

    let snapshot = collector.into_outcome().unwrap().unwrap();
    let ids: Vec<&str> = snapshot.farms.iter().map(|f| f.farm_id.as_str()).collect();
    assert_eq!(ids, vec!["x@1#0", "x@2#0", "x@2#1"]);
    assert_eq!(snapshot.active_seeds, vec!["x@1".to_string()]);
}

#[test]
fn collector_with_no_seeds_yields_no_farms() {
    let mut collector = FarmCollector::new();
    collector.on_seeds(Ok(Vec::new()));
    assert_eq!(collector.phase(), FarmPhase::Done);
    assert!(collector.next_request().is_none());
    let snapshot = collector.into_outcome().unwrap().unwrap();
    assert!(snapshot.farms.is_empty());
    assert!(snapshot.active_seeds.is_empty());
}

#[test]
fn collector_gives_up_when_the_seeds_cannot_be_had() {
    let mut collector = FarmCollector::new();
    collector.on_seeds(Err(AggregationError::Transport));
    assert_eq!(collector.phase(), FarmPhase::Failed(AggregationError::Transport));
    assert!(collector.next_request().is_none());
    assert_eq!(collector.into_outcome().unwrap().err(), Some(AggregationError::Transport));
}

#[test]
fn collector_gives_up_on_the_first_failing_seed() {
    let mut collector = FarmCollector::new();
    collector.on_seeds(Ok(vec!["x@1".to_string(), "x@2".to_string()]));
    collector.on_farms(Ok(vec![farm("x@1#0", "x@1", "Running", "100", "40", "30")]));
    collector.on_farms(Err(AggregationError::Decode));
    assert_eq!(collector.phase(), FarmPhase::Failed(AggregationError::Decode));
    assert!(collector.next_request().is_none());
    collector.on_farms(Ok(Vec::new()));
    collector.on_seeds(Ok(Vec::new()));
    assert_eq!(collector.phase(), FarmPhase::Failed(AggregationError::Decode));
    assert_eq!(collector.into_outcome().unwrap().err(), Some(AggregationError::Decode));
}

#[test]
fn collector_gives_up_on_unreadable_rewards() {
    let mut collector = FarmCollector::new();
    collector.on_seeds(Ok(vec!["x@1".to_string()]));
    collector.on_farms(Ok(vec![farm("x@1#0", "x@1", "Ended", "lots", "40", "30")]));
    assert_eq!(collector.into_outcome().unwrap().err(), Some(AggregationError::Decode));
}

#[test]
fn collector_reports_seeds_without_any_farm_as_empty() {
    let mut collector = FarmCollector::new();
    collector.on_seeds(Ok(vec!["x@1".to_string(), "x@2".to_string()]));
    collector.on_farms(Ok(Vec::new()));
    assert_eq!(collector.phase(), FarmPhase::Collecting);
    collector.on_farms(Ok(Vec::new()));
    assert_eq!(collector.phase(), FarmPhase::Failed(AggregationError::EmptyResult));
    assert_eq!(collector.into_outcome().unwrap().err(), Some(AggregationError::EmptyResult));
}

#[test]
fn collector_ignores_answers_it_did_not_ask_for() {
    let mut collector = FarmCollector::new();
    collector.on_farms(Ok(vec![farm("x@1#0", "x@1", "Running", "100", "40", "30")]));
    assert_eq!(collector.phase(), FarmPhase::Seeding);
    collector.on_seeds(Ok(vec!["x@1".to_string()]));
    collector.on_seeds(Ok(vec!["y@1".to_string(), "y@2".to_string()]));
    assert_eq!(collector.next_request().unwrap().args, b"{\"seed_id\":\"x@1\"}".to_vec());
    collector.on_farms(Ok(vec![farm("x@1#0", "x@1", "Ended", "100", "40", "30")]));
    let snapshot = collector.into_outcome().unwrap().unwrap();
    assert_eq!(snapshot.farms.len(), 1);
    assert!(snapshot.active_seeds.is_empty());
}

#[test]
fn collector_names_an_active_seed_once() {
    let mut collector = FarmCollector::new();
    collector.on_seeds(Ok(vec!["x@1".to_string(), "x@2".to_string(), "x@1".to_string()]));
    collector.on_farms(Ok(vec![
        farm("x@1#0", "x@1", "Running", "100", "40", "30"),
        farm("x@1#1", "x@1", "Running", "100", "0", "0"),
    ]));
    collector.on_farms(Ok(vec![farm("x@2#0", "x@2", "Running", "100", "0", "0")]));
    collector.on_farms(Ok(vec![farm("x@1#0", "x@1", "Running", "100", "40", "30")]));
    let snapshot = collector.into_outcome().unwrap().unwrap();
    assert_eq!(snapshot.farms.len(), 4);
    assert_eq!(snapshot.active_seeds, vec!["x@1".to_string(), "x@2".to_string()]);
}
