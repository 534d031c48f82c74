use df_crash_miner::gen::{get_gen_results, GenError, WorldGenResult};

fn seed_block_log(tail: &str) -> Vec<u8> {
    let mut log = b"...Seed: AB12\nHistory Seed: CD34\n Name Seed: EF56\nCreature Seed: GH78".to_vec();
    log.extend_from_slice(tail.as_bytes());
    log
}

#[test]
fn success_with_seed_block() {
    let log = seed_block_log("\nWorld exported");
    let res = get_gen_results(&log).unwrap();
    assert_eq!(res.result, WorldGenResult::Success);
    assert_eq!(res.seeds.seed(), &b"AB12".to_vec());
    assert_eq!(res.seeds.history_seed(), &b"CD34".to_vec());
    assert_eq!(res.seeds.name_seed(), &b"EF56".to_vec());
    assert_eq!(res.seeds.creature_seed(), &b"GH78".to_vec());
}

#[test]
fn success_marker_before_seed_block() {
    let mut log = b"World exported ... ".to_vec();
    log.extend_from_slice(&seed_block_log("\nmore text"));
    let res = get_gen_results(&log).unwrap();
    assert_eq!(res.result, WorldGenResult::Success);
    assert_eq!(res.seeds.seed(), &b"AB12".to_vec());
}

#[test]
fn no_marker_is_crash() {
    let log = seed_block_log("\nnothing conclusive here");
    let res = get_gen_results(&log).unwrap();
    assert_eq!(res.result, WorldGenResult::Crash);
    assert_eq!(res.seeds.creature_seed(), &b"GH78".to_vec());
}

#[test]
fn abort_scenario() {
    let log = seed_block_log("...aborted...");
    let res = get_gen_results(&log).unwrap();
    assert_eq!(res.result, WorldGenResult::Abort);
    assert_eq!(res.seeds.seed(), &b"AB12".to_vec());
    assert_eq!(res.seeds.history_seed(), &b"CD34".to_vec());
    assert_eq!(res.seeds.name_seed(), &b"EF56".to_vec());
    assert_eq!(res.seeds.creature_seed(), &b"GH78".to_vec());
}

#[test]
fn missing_seed_block_fails_even_with_success_marker() {
    let log = b"the run went fine\nWorld exported\n".to_vec();
    let err = get_gen_results(&log).unwrap_err();
    assert_eq!(err, GenError::NoSeeds);
}

#[test]
fn empty_log_fails() {
    let log: Vec<u8> = Vec::new();
    assert_eq!(get_gen_results(&log).unwrap_err(), GenError::NoSeeds);
}

#[test]
fn first_seed_block_is_authoritative() {
    let mut log = seed_block_log("\n");
    log.extend_from_slice(
        b"Seed: XX99\nHistory Seed: YY88\n Name Seed: ZZ77\nCreature Seed: WW66\n",
    );
    let res = get_gen_results(&log).unwrap();
    assert_eq!(res.seeds.seed(), &b"AB12".to_vec());
    assert_eq!(res.seeds.history_seed(), &b"CD34".to_vec());
}

#[test]
fn summary_renders_result_and_seeds() {
    let log = seed_block_log("\nno markers");
    let res = get_gen_results(&log).unwrap();
    assert_eq!(res.summary(), b"Crash [AB12 / CD34 / EF56 / GH78]".to_vec());
}
