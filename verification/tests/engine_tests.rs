use reggie::engine::{traverse, Strategy};
use reggie::interned;
use reggie::sequential;
use reggie::shared_set;
use reggie::tree::{ChildEntry, NodeTree, RootOutcome, TraverseError};

fn leaf() -> NodeTree {
    NodeTree { children: Vec::new() }
}

fn open(name: &str, t: NodeTree) -> ChildEntry {
    ChildEntry::Open(name.to_string(), t)
}

fn paths(set: &indexmap::IndexSet<String>) -> Vec<String> {
    set.iter().cloned().collect()
}

fn sorted_paths_of(set: &indexmap::IndexSet<String>) -> Vec<String> {
    let mut v = paths(set);
    v.sort();
    v
}

/// Root has two children `a`, `b`; `a` has one child `c`.
fn scenario_a() -> RootOutcome {
    RootOutcome::Opened(NodeTree {
        children: vec![
            open("a", NodeTree { children: vec![open("c", leaf())] }),
            open("b", leaf()),
        ],
    })
}

fn all_strategies() -> Vec<Strategy> {
    vec![Strategy::Sequential, Strategy::ConcurrentSharedSet, Strategy::ConcurrentInterned]
}

#[test]
fn scenario_two_children_one_grandchild() {
    let root = scenario_a();
    let expected = vec![
        "root".to_string(),
        "root\\a".to_string(),
        "root\\a\\c".to_string(),
        "root\\b".to_string(),
    ];
    for strategy in all_strategies() {
        let out = traverse(&"root".to_string(), &root, &strategy, 0).unwrap();
        assert_eq!(sorted_paths_of(&out), expected);
    }
}

#[test]
fn sequential_keeps_preorder_insertion_order() {
    let root = RootOutcome::Opened(NodeTree {
        children: vec![
            open("z", NodeTree { children: vec![open("m", leaf())] }),
            open("a", leaf()),
        ],
    });
    let out = sequential::get_all(&"root".to_string(), &root).unwrap();
    assert_eq!(
        paths(&out),
        vec![
            "root".to_string(),
            "root\\z".to_string(),
            "root\\z\\m".to_string(),
            "root\\a".to_string(),
        ]
    );
}

#[test]
fn concurrent_output_is_sorted() {
    let root = RootOutcome::Opened(NodeTree {
        children: vec![open("z", leaf()), open("a", leaf()), open("m", leaf())],
    });
    let shared = shared_set::get_all(&"root".to_string(), &root).unwrap();
    let interned = interned::get_all(&"root".to_string(), &root).unwrap();
    let expected = vec![
        "root".to_string(),
        "root\\a".to_string(),
        "root\\m".to_string(),
        "root\\z".to_string(),
    ];
    assert_eq!(paths(&shared), expected);
    assert_eq!(paths(&interned), expected);
}

#[test]
fn scenario_failing_child_leaves_root_only() {
    let root = RootOutcome::Opened(NodeTree {
        children: vec![ChildEntry::Unopenable("x".to_string())],
    });
    for strategy in all_strategies() {
        let out = traverse(&"root".to_string(), &root, &strategy, 0).unwrap();
        assert_eq!(paths(&out), vec!["root".to_string()]);
    }
}

#[test]
fn scenario_thread_counts_agree_on_wide_tree() {
    let children: Vec<ChildEntry> = (0..1000).map(|i| open(&format!("k{:04}", i), leaf())).collect();
    let root = RootOutcome::Opened(NodeTree { children });
    let one = traverse(&"root".to_string(), &root, &Strategy::ConcurrentSharedSet, 1).unwrap();
    let eight = traverse(&"root".to_string(), &root, &Strategy::ConcurrentSharedSet, 8).unwrap();
    assert_eq!(one.len(), 1001);
    assert_eq!(paths(&one), paths(&eight));
}

#[test]
fn strategies_agree_after_sorting() {
    let root = RootOutcome::Opened(NodeTree {
        children: vec![
            open("b", NodeTree { children: vec![open("d", leaf()), open("c", leaf())] }),
            ChildEntry::Unopenable("broken".to_string()),
            open("a", leaf()),
            ChildEntry::NameError,
        ],
    });
    let name = "HKLM".to_string();
    let s = sequential::get_all(&name, &root).unwrap();
    let c1 = shared_set::get_all(&name, &root).unwrap();
    let c2 = interned::get_all(&name, &root).unwrap();
    assert_eq!(sorted_paths_of(&s), paths(&c1));
    assert_eq!(paths(&c1), paths(&c2));
}

#[test]
fn repeated_runs_return_identical_results() {
    let root = scenario_a();
    let name = "root".to_string();
    for strategy in all_strategies() {
        let first = traverse(&name, &root, &strategy, 0).unwrap();
        let second = traverse(&name, &root, &strategy, 0).unwrap();
        assert_eq!(paths(&first), paths(&second));
    }
}

#[test]
fn duplicate_child_names_yield_no_duplicate_paths() {
    let root = RootOutcome::Opened(NodeTree {
        children: vec![open("a", leaf()), open("a", leaf()), open("b", leaf())],
    });
    for strategy in all_strategies() {
        let out = traverse(&"root".to_string(), &root, &strategy, 0).unwrap();
        let v = paths(&out);
        assert_eq!(v.len(), 3);
        let mut w = v.clone();
        w.dedup();
        assert_eq!(v, w);
    }
}

#[test]
fn failing_branch_keeps_other_branches() {
    let root = RootOutcome::Opened(NodeTree {
        children: vec![
            open(
                "inner",
                NodeTree {
                    children: vec![
                        open("kept", leaf()),
                        ChildEntry::Unopenable("lost".to_string()),
                        open("also", leaf()),
                    ],
                },
            ),
        ],
    });
    for strategy in all_strategies() {
        let out = traverse(&"root".to_string(), &root, &strategy, 0).unwrap();
        let v = sorted_paths_of(&out);
        assert_eq!(
            v,
            vec![
                "root".to_string(),
                "root\\inner".to_string(),
                "root\\inner\\also".to_string(),
                "root\\inner\\kept".to_string(),
            ]
        );
        assert!(!v.contains(&"root\\inner\\lost".to_string()));
    }
}

#[test]
fn enumeration_errors_are_skipped() {
    let root = RootOutcome::Opened(NodeTree {
        children: vec![ChildEntry::NameError, open("a", leaf()), ChildEntry::NameError],
    });
    for strategy in all_strategies() {
        let out = traverse(&"root".to_string(), &root, &strategy, 0).unwrap();
        assert_eq!(sorted_paths_of(&out), vec!["root".to_string(), "root\\a".to_string()]);
    }
}

#[test]
fn unavailable_root_is_fatal() {
    for strategy in all_strategies() {
        let r = traverse(&"root".to_string(), &RootOutcome::Unavailable, &strategy, 0);
        assert!(matches!(r, Err(TraverseError::RootUnavailable)));
    }
}

#[test]
fn deep_chain_is_fully_discovered() {
    let mut t = leaf();
    for i in (0..50).rev() {
        t = NodeTree { children: vec![open(&format!("n{}", i), t)] };
    }
    let root = RootOutcome::Opened(t);
    let out = traverse(&"r".to_string(), &root, &Strategy::ConcurrentInterned, 0).unwrap();
    assert_eq!(out.len(), 51);
    let v = paths(&out);
    assert!(v.contains(
        &("r".to_string() + &(0..50).map(|i| format!("\\n{}", i)).collect::<String>())
    ));
}
