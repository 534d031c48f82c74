use df_crash_miner::files::{ensure_worker_dirs, patches};
use df_crash_miner::Platform;

#[test]
fn missing_sandboxes_are_planned_in_slot_order() {
    let existing = vec![true, false, true, false];
    assert_eq!(ensure_worker_dirs(4, false, &existing), vec![1, 3]);
}

#[test]
fn force_plans_every_slot() {
    let existing = vec![true, true, true];
    assert_eq!(ensure_worker_dirs(3, true, &existing), vec![0, 1, 2]);
}

#[test]
fn nothing_to_provision_when_all_exist() {
    let existing = vec![true, true];
    assert_eq!(ensure_worker_dirs(2, false, &existing), Vec::<usize>::new());
}

#[test]
fn print_mode_line_is_rewritten() {
    let lines = vec![
        b"[SOUND:NO]".to_vec(),
        b"  [PRINT_MODE:2D]  ".to_vec(),
        b"[WINDOWED:YES]".to_vec(),
    ];
    let out = patches(&lines);
    assert_eq!(out.len(), 3);
    assert_eq!(out[0], b"[SOUND:NO]".to_vec());
    assert_eq!(out[1], b"[PRINT_MODE:STANDARD]".to_vec());
    assert_eq!(out[2], b"[WINDOWED:YES]".to_vec());
}

#[test]
fn platform_names() {
    assert_eq!(Platform::Linux.name(), "linux");
    assert_eq!(Platform::Macos.name(), "macos");
    assert_eq!(Platform::Windows.name(), "windows");
    assert_eq!(Platform::Unknown.name(), "unknown");
}
