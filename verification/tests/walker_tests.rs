use rtkill::state::AppState;
use rtkill::state::ArgOutcome;
use rtkill::state::ScanProgress;
use rtkill::walker::dir_size;
use rtkill::walker::is_project_root;
use rtkill::walker::make_record;
use rtkill::walker::walker_messages;
use rtkill::walker::FsEntry;
use rtkill::walker::FsNode;
use rtkill::walker::TraverseMsg;

fn file(name: &str, size: u64, content: &str) -> FsEntry {
    FsEntry {
        name: name.to_string(),
        node: FsNode::File { size, content: content.to_string() },
    }
}

fn dir(name: &str, mtime: u64, entries: Vec<FsEntry>) -> FsEntry {
    FsEntry { name: name.to_string(), node: FsNode::Dir { mtime, entries } }
}

const SIDECAR_FOO: &str = "[package]\nname = \"foo\"\nversion = \"0.1.0\"\n";

// midnight of 2024-01-01, UTC
const NEW_YEAR_2024: u64 = 1_704_067_200;

fn drain(state: &mut AppState, msgs: Vec<TraverseMsg>, now_ms: u64) {
    let mut progress = ScanProgress::start();
    for msg in msgs {
        state.apply_walker_msg(msg, &mut progress, now_ms);
    }
}

#[test]
fn test_empty_tree_emits_done_only() {
    // no Cargo.toml/target pair anywhere
    let root = FsNode::Dir {
        mtime: 0,
        entries: vec![
            dir("docs", 0, vec![file("readme.md", 10, "")]),
            dir("empty", 0, vec![]),
            file("notes.txt", 5, ""),
        ],
    };
    let msgs = walker_messages(&"/r".to_string(), &root);
    assert_eq!(msgs.len(), 1);
    assert!(matches!(msgs[0], TraverseMsg::Done));

    let mut state = AppState::new(ArgOutcome::Dir("/r".to_string()), None, 0);
    state.set_searching(true);
    drain(&mut state, msgs, 7);
    assert!(!state.searching);
    assert_eq!(state.total_size, "0B");
    let msg = state.message.expect("a warning should be posted");
    assert_eq!(msg.msg_text, "There is no 'target' directories in this scope");
}

#[test]
fn test_single_project() {
    let root = FsNode::Dir {
        mtime: 0,
        entries: vec![dir(
            "proj",
            0,
            vec![
                file("Cargo.toml", 64, SIDECAR_FOO),
                dir("target", NEW_YEAR_2024, vec![file("out.bin", 1024, "")]),
            ],
        )],
    };
    let msgs = walker_messages(&"/r".to_string(), &root);
    assert_eq!(msgs.len(), 2);
    match &msgs[0] {
        TraverseMsg::Found(rec, size) => {
            assert_eq!(rec.project_name, "foo");
            assert_eq!(rec.path, "/r/proj/target");
            assert_eq!(rec.size_bytes, 1024);
            assert_eq!(*size, 1024);
            assert_eq!(rec.size, "1.0 KiB");
            assert_eq!(rec.last_modified, "01/01/2024");
            assert!(!rec.is_deleted);
        }
        TraverseMsg::Done => panic!("the record must come before Done"),
    }
    assert!(matches!(msgs[1], TraverseMsg::Done));

    let mut state = AppState::new(ArgOutcome::Dir("/r".to_string()), None, 0);
    state.set_searching(true);
    drain(&mut state, msgs, 7);
    assert_eq!(state.total_size, "1.0 KiB");
    assert!(state.message.is_none());
    assert_eq!(state.target_directories.datas.len(), 1);
}

#[test]
fn test_nested_projects_prune() {
    // an inner project below a project root is never visited
    let inner = dir(
        "sub",
        0,
        vec![
            file("Cargo.toml", 10, SIDECAR_FOO),
            dir("target", 0, vec![file("x", 7, "")]),
        ],
    );
    let root = FsNode::Dir {
        mtime: 0,
        entries: vec![dir(
            "a",
            0,
            vec![
                file("Cargo.toml", 10, SIDECAR_FOO),
                dir("target", 0, vec![file("big", 2048, "")]),
                inner,
            ],
        )],
    };
    let msgs = walker_messages(&"/r".to_string(), &root);
    assert_eq!(msgs.len(), 2);
    match &msgs[0] {
        TraverseMsg::Found(rec, _) => assert_eq!(rec.path, "/r/a/target"),
        TraverseMsg::Done => panic!("one record expected"),
    }
}

#[test]
fn test_malformed_sidecar_skipped() {
    let root = FsNode::Dir {
        mtime: 0,
        entries: vec![dir(
            "x",
            0,
            vec![
                file("Cargo.toml", 7, "garbage"),
                dir("target", 0, vec![file("y", 100, "")]),
            ],
        )],
    };
    let msgs = walker_messages(&"/r".to_string(), &root);
    assert_eq!(msgs.len(), 1);
    assert!(matches!(msgs[0], TraverseMsg::Done));
}

#[test]
fn test_emission_follows_traversal_order() {
    let proj = |name: &str, size: u64| {
        dir(
            name,
            0,
            vec![
                file(
                    "Cargo.toml",
                    20,
                    &format!("[package]\nname = \"{name}\"\n"),
                ),
                dir("target", 0, vec![file("o", size, "")]),
            ],
        )
    };
    let root = FsNode::Dir {
        mtime: 0,
        entries: vec![proj("zeta", 1), proj("alpha", 2)],
    };
    let msgs = walker_messages(&"/r".to_string(), &root);
    let names: Vec<String> = msgs
        .iter()
        .filter_map(|m| match m {
            TraverseMsg::Found(rec, _) => Some(rec.project_name.clone()),
            TraverseMsg::Done => None,
        })
        .collect();
    assert_eq!(names, vec!["zeta".to_string(), "alpha".to_string()]);
}

#[test]
fn test_walker_is_deterministic_per_tree() {
    // a rescan of the same tree reproduces the same records
    let root = FsNode::Dir {
        mtime: 0,
        entries: vec![dir(
            "proj",
            0,
            vec![
                file("Cargo.toml", 64, SIDECAR_FOO),
                dir("target", NEW_YEAR_2024, vec![file("out.bin", 4096, "")]),
            ],
        )],
    };
    let a = walker_messages(&"/r".to_string(), &root);
    let b = walker_messages(&"/r".to_string(), &root);
    assert_eq!(a.len(), b.len());
    for (x, y) in a.iter().zip(b.iter()) {
        match (x, y) {
            (TraverseMsg::Found(r1, s1), TraverseMsg::Found(r2, s2)) => {
                assert_eq!(s1, s2);
                assert_eq!(r1.path, r2.path);
                assert_eq!(r1.project_name, r2.project_name);
                assert_eq!(r1.last_modified, r2.last_modified);
                assert_eq!(r1.size, r2.size);
                assert_eq!(r1.size_bytes, r2.size_bytes);
            }
            (TraverseMsg::Done, TraverseMsg::Done) => {}
            _ => panic!("runs disagree"),
        }
    }
}

#[test]
fn test_is_project_root_needs_both() {
    let both = vec![
        file("Cargo.toml", 1, ""),
        dir("target", 0, vec![]),
    ];
    let only_file = vec![file("Cargo.toml", 1, "")];
    let only_dir = vec![dir("target", 0, vec![])];
    let wrong_kinds = vec![
        dir("Cargo.toml", 0, vec![]),
        file("target", 1, ""),
    ];
    assert!(is_project_root(&both));
    assert!(!is_project_root(&only_file));
    assert!(!is_project_root(&only_dir));
    assert!(!is_project_root(&wrong_kinds));
}

#[test]
fn test_dir_size_is_recursive() {
    let es = vec![
        file("a", 10, ""),
        dir("d", 0, vec![file("b", 20, ""), dir("e", 0, vec![file("c", 30, "")])]),
    ];
    assert_eq!(dir_size(&es), 60);
}

#[test]
fn test_make_record() {
    let rec = make_record(SIDECAR_FOO, "/r/p/target".to_string(), NEW_YEAR_2024, 2048)
        .expect("sidecar names a package");
    assert_eq!(rec.project_name, "foo");
    assert_eq!(rec.path, "/r/p/target");
    assert_eq!(rec.last_modified, "01/01/2024");
    assert_eq!(rec.size, "2.0 KiB");
    assert!(make_record("garbage", "/t".to_string(), 0, 0).is_none());
    assert!(make_record("[package]\nedition = \"2021\"\n", "/t".to_string(), 0, 0).is_none());
    assert!(make_record("[dependencies]\nname = \"x\"\n", "/t".to_string(), 0, 0).is_none());
}
