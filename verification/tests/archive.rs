use df_crash_miner::archive::{crash_file_name, log_crash, read_archived_seeds};
use df_crash_miner::files::archive_path;
use df_crash_miner::gen::WorldGenSeeds;
use df_crash_miner::Platform;

fn sample_seeds() -> WorldGenSeeds {
    WorldGenSeeds::new(
        b"AB12".to_vec(),
        b"CD34".to_vec(),
        b"EF56".to_vec(),
        b"GH78".to_vec(),
    )
}

fn five_line_template() -> Vec<Vec<u8>> {
    vec![
        b"[WORLD_GEN]".to_vec(),
        b"[TITLE:REGION]".to_vec(),
        b"[DIM:65:65]".to_vec(),
        b"[EMBARK_POINTS:1504]".to_vec(),
        b"[END_YEAR:10]".to_vec(),
    ]
}

#[test]
fn archive_inserts_overrides_before_third_line() {
    let template = five_line_template();
    let seeds = sample_seeds();
    let out = log_crash(&template, &seeds);
    assert_eq!(out.len(), 9);
    assert_eq!(out[0], b"[WORLD_GEN]".to_vec());
    assert_eq!(out[1], b"[TITLE:REGION]".to_vec());
    assert_eq!(out[2], b"\t[SEED:AB12]".to_vec());
    assert_eq!(out[3], b"\t[HISTORY_SEED:CD34]".to_vec());
    assert_eq!(out[4], b"\t[NAME_SEED:EF56]".to_vec());
    assert_eq!(out[5], b"\t[CREATURE_SEED:GH78]".to_vec());
    assert_eq!(out[6], b"[DIM:65:65]".to_vec());
    assert_eq!(out[7], b"[EMBARK_POINTS:1504]".to_vec());
    assert_eq!(out[8], b"[END_YEAR:10]".to_vec());
}

#[test]
fn archive_of_two_line_template_has_no_insertion_point() {
    let template = vec![b"[WORLD_GEN]".to_vec(), b"[TITLE:REGION]".to_vec()];
    let out = log_crash(&template, &sample_seeds());
    assert_eq!(out, template);
}

#[test]
fn archive_bodies_are_identical_across_calls() {
    let template = five_line_template();
    let seeds = sample_seeds();
    let first = log_crash(&template, &seeds);
    let second = log_crash(&template, &seeds);
    assert_eq!(first, second);
}

#[test]
fn archived_record_parses_back_to_the_same_seeds() {
    let out = log_crash(&five_line_template(), &sample_seeds());
    let parsed = read_archived_seeds(&out).unwrap();
    assert_eq!(parsed.seed(), &b"AB12".to_vec());
    assert_eq!(parsed.history_seed(), &b"CD34".to_vec());
    assert_eq!(parsed.name_seed(), &b"EF56".to_vec());
    assert_eq!(parsed.creature_seed(), &b"GH78".to_vec());
}

#[test]
fn short_record_does_not_parse() {
    let out = log_crash(&five_line_template()[..2].to_vec(), &sample_seeds());
    assert!(read_archived_seeds(&out).is_none());
}

#[test]
fn crash_file_names_carry_platform_and_timestamp() {
    let name = crash_file_name(Platform::Linux);
    assert!(name.starts_with("linux-"));
    assert!(name.ends_with(".txt"));
    assert!(name.len() >= "linux-".len() + 25 + ".txt".len());
    let again = crash_file_name(Platform::Windows);
    assert!(again.starts_with("windows-"));
}

#[test]
fn archive_path_is_platform_specific() {
    assert_eq!(archive_path(Platform::Linux), "current.tar.bz2");
    assert_eq!(archive_path(Platform::Macos), "current.tar.bz2");
    assert_eq!(archive_path(Platform::Windows), "current.zip");
}
