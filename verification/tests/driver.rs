use df_crash_miner::driver::{RunDriver, RunPhase};
use df_crash_miner::gen::{GenError, WorldGenResult};

fn crash_log() -> Vec<u8> {
    b"Seed: AB12\nHistory Seed: CD34\nName Seed: EF56\nCreature Seed: GH78\n".to_vec()
}

fn success_log() -> Vec<u8> {
    let mut log = crash_log();
    log.extend_from_slice(b"World exported\n");
    log
}

#[test]
fn crash_with_archiving_walks_the_archive_phase() {
    let mut d = RunDriver::new(true);
    assert_eq!(d.phase, RunPhase::Clean);
    d.on_cleaned();
    assert_eq!(d.phase, RunPhase::Inject);
    d.on_injected(true);
    assert_eq!(d.phase, RunPhase::Execute);
    d.on_executed();
    assert_eq!(d.phase, RunPhase::Classify);
    let log = crash_log();
    d.on_log(Some(&log));
    assert_eq!(d.phase, RunPhase::Archive);
    assert_eq!(d.crash_seeds().seed(), &b"AB12".to_vec());
    d.on_archived(true);
    assert_eq!(d.phase, RunPhase::Done);
    let res = d.into_result().unwrap();
    assert_eq!(res.result, WorldGenResult::Crash);
    assert_eq!(res.seeds.creature_seed(), &b"GH78".to_vec());
}

#[test]
fn success_skips_archiving() {
    let mut d = RunDriver::new(true);
    d.on_cleaned();
    d.on_injected(true);
    d.on_executed();
    let log = success_log();
    d.on_log(Some(&log));
    assert_eq!(d.phase, RunPhase::Done);
    let res = d.into_result().unwrap();
    assert_eq!(res.result, WorldGenResult::Success);
}

#[test]
fn crash_without_archiving_finishes_directly() {
    let mut d = RunDriver::new(false);
    d.on_cleaned();
    d.on_injected(true);
    d.on_executed();
    let log = crash_log();
    d.on_log(Some(&log));
    assert_eq!(d.phase, RunPhase::Done);
    assert_eq!(d.into_result().unwrap().result, WorldGenResult::Crash);
}

#[test]
fn failed_injection_ends_the_attempt() {
    let mut d = RunDriver::new(true);
    d.on_cleaned();
    d.on_injected(false);
    assert_eq!(d.phase, RunPhase::Failed);
    assert_eq!(d.into_result().unwrap_err(), GenError::InjectFailed);
}

#[test]
fn missing_log_ends_without_an_outcome() {
    let mut d = RunDriver::new(true);
    d.on_cleaned();
    d.on_injected(true);
    d.on_executed();
    d.on_log(None);
    assert_eq!(d.into_result().unwrap_err(), GenError::LogMissing);
}

#[test]
fn log_without_seed_block_ends_without_an_outcome() {
    let mut d = RunDriver::new(true);
    d.on_cleaned();
    d.on_injected(true);
    d.on_executed();
    let log = b"World exported\n".to_vec();
    d.on_log(Some(&log));
    assert_eq!(d.into_result().unwrap_err(), GenError::NoSeeds);
}

#[test]
fn failed_archive_write_keeps_the_outcome_beside_the_error() {
    let mut d = RunDriver::new(true);
    d.on_cleaned();
    d.on_injected(true);
    d.on_executed();
    let log = crash_log();
    d.on_log(Some(&log));
    d.on_archived(false);
    assert_eq!(d.phase, RunPhase::Failed);
    assert!(d.outcome.is_some());
    assert_eq!(d.into_result().unwrap_err(), GenError::ArchiveFailed);
}
