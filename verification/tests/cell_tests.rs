use rtkill::cell::SharableState;
use rtkill::controller::handle_key;
use rtkill::controller::poll_timeout_ms;
use rtkill::controller::KeyAction;
use rtkill::controller::KeyInput;
use rtkill::format::u64_to_string;
use rtkill::record::TargetDir;
use rtkill::state::AppState;
use rtkill::state::ArgOutcome;
use rtkill::state::ScanProgress;
use rtkill::walker::TraverseMsg;

fn record(name: &str, path: &str, size_bytes: u64) -> TargetDir {
    TargetDir {
        path: path.to_string(),
        project_name: name.to_string(),
        last_modified: "01/01/2024".to_string(),
        is_deleted: false,
        size: "1B".to_string(),
        size_bytes,
    }
}

fn fresh_cell() -> SharableState<AppState> {
    SharableState::new(AppState::new(ArgOutcome::Dir("/r".to_string()), None, 0))
}

#[test]
fn test_sharable_state_keeps_order() {
    // a writer pushes numbered records; a read then sees every one of
    // them, in order, with none lost or duplicated
    let cell = fresh_cell();
    for i in 0..1000u64 {
        cell.push_to_list(record(&u64_to_string(i), "/p", 1));
    }
    let snap = cell.read();
    assert_eq!(snap.target_directories.datas.len(), 1000);
    for (i, rec) in snap.target_directories.datas.iter().enumerate() {
        assert_eq!(rec.project_name, u64_to_string(i as u64));
    }
}

#[test]
fn test_mutate_applies_transformation() {
    let cell = fresh_cell();
    cell.mutate(|mut s: AppState| {
        s.set_total_size("9B".to_string());
        s
    });
    assert_eq!(cell.read().total_size, "9B");
}

#[test]
fn test_read_is_a_snapshot() {
    let cell = fresh_cell();
    cell.push_to_list(record("a", "/p/a", 1));
    let before = cell.read();
    cell.push_to_list(record("b", "/p/b", 1));
    assert_eq!(before.target_directories.datas.len(), 1);
    assert_eq!(cell.read().target_directories.datas.len(), 2);
}

#[test]
fn test_refresh_only_when_idle() {
    let cell = fresh_cell();
    cell.push_to_list(record("a", "/p/a", 1));
    cell.set_total_size("1B".to_string());

    // idle: the refresh clears and starts searching
    assert!(cell.refresh());
    let snap = cell.read();
    assert!(snap.searching);
    assert_eq!(snap.target_directories.datas.len(), 0);
    assert_eq!(snap.target_directories.index, 0);
    assert_eq!(snap.total_size, "0B");

    // searching: a second refresh is refused
    assert!(!cell.refresh());
}

#[test]
fn test_scan_through_cell() {
    let cell = fresh_cell();
    cell.set_searching(true);
    let mut progress = ScanProgress::start();
    cell.apply_walker_msg(TraverseMsg::Found(record("a", "/p/a", 600), 600), &mut progress, 1);
    cell.apply_walker_msg(TraverseMsg::Found(record("b", "/p/b", 424), 424), &mut progress, 2);
    cell.apply_walker_msg(TraverseMsg::Done, &mut progress, 3);
    let snap = cell.read();
    assert!(!snap.searching);
    assert_eq!(snap.total_size, "1.0 KiB");
    assert_eq!(snap.target_directories.datas.len(), 2);
    assert!(snap.message.is_none());
}

#[test]
fn test_poll_timeout_adapts() {
    assert_eq!(poll_timeout_ms(5_000, 0), 100);
    assert_eq!(poll_timeout_ms(9_999, 0), 100);
    assert_eq!(poll_timeout_ms(10_000, 0), 1000);
    assert_eq!(poll_timeout_ms(20_000, 15_000, ), 100);
    // a clock running backwards never slows the loop down
    assert_eq!(poll_timeout_ms(0, 5_000), 100);
}

#[test]
fn test_handle_key_dispatch() {
    let cell = fresh_cell();
    cell.push_to_list(record("a", "/p/a", 1));
    cell.push_to_list(record("b", "/p/b", 1));

    assert!(matches!(handle_key(&cell, KeyInput::Quit, 0), KeyAction::Quit));
    assert!(matches!(handle_key(&cell, KeyInput::Other, 0), KeyAction::Idle));

    assert!(matches!(handle_key(&cell, KeyInput::Down, 0), KeyAction::Idle));
    assert_eq!(cell.read().target_directories.index, 1);
    assert!(matches!(handle_key(&cell, KeyInput::Up, 0), KeyAction::Idle));
    assert_eq!(cell.read().target_directories.index, 0);

    // the delete key asks the loop to remove the selected path
    match handle_key(&cell, KeyInput::Delete, 0) {
        KeyAction::RemoveDir(p) => assert_eq!(p, "/p/a"),
        _ => panic!("a removal was expected"),
    }
    cell.delete_current_item(Ok(()), 5);
    assert!(cell.read().target_directories.datas[0].is_deleted);

    // deleting the same record again fails without another removal
    assert!(matches!(handle_key(&cell, KeyInput::Delete, 9), KeyAction::Idle));
    let snap = cell.read();
    let m = snap.message.expect("failure notice expected");
    assert_eq!(m.msg_text, "Failed to delete folder, try again...");

    // refresh spawns a walker only once
    assert!(matches!(handle_key(&cell, KeyInput::Refresh, 9), KeyAction::SpawnWalker));
    assert!(matches!(handle_key(&cell, KeyInput::Refresh, 9), KeyAction::Idle));
}

#[test]
fn test_delete_on_empty_list_is_ignored() {
    let cell = fresh_cell();
    assert!(matches!(handle_key(&cell, KeyInput::Delete, 0), KeyAction::Idle));
    assert!(cell.read().message.is_none());
}
