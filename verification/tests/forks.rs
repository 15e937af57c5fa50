use bettercoding::forks::{branch_holds, compute_fork_view, has_cyclic_fork, NativeDagRecord};

fn graph(edges: &[(&str, &str)]) -> Vec<NativeDagRecord> {
    edges
        .iter()
        .map(|(uuid, parent)| NativeDagRecord {
            uuid: uuid.to_string(),
            parent_uuid: if parent.is_empty() { None } else { Some(parent.to_string()) },
        })
        .collect()
}

/// root -> a -> fork; fork continues as b -> b2 and as c -> (c2, c3).
fn forked() -> Vec<NativeDagRecord> {
    graph(&[
        ("root", ""),
        ("a", "root"),
        ("fork", "a"),
        ("b", "fork"),
        ("b2", "b"),
        ("c", "fork"),
        ("c2", "c"),
        ("c3", "c"),
    ])
}

#[test]
fn a_fork_has_a_common_prefix_and_whole_branches() {
    let view = compute_fork_view(&forked(), Some("c3")).expect("fork must be detected");
    assert_eq!(view.fork_parent_uuid, "fork");
    assert_eq!(view.prefix_uuids, vec!["root", "a", "fork"]);
    assert_eq!(view.branches.len(), 2);
    assert_eq!(view.branches[0].label, "Branch 1");
    assert_eq!(view.branches[0].root_uuid, "b");
    assert_eq!(view.branches[0].node_uuids, vec!["b", "b2"]);
    assert_eq!(view.branches[0].leaf_uuids, vec!["b2"]);
    assert_eq!(view.branches[1].label, "Branch 2");
    assert_eq!(view.branches[1].node_uuids, vec!["c", "c2", "c3"]);
    assert_eq!(view.branches[1].leaf_uuids, vec!["c2", "c3"]);
    assert_eq!(view.default_branch, Some(1));
    assert!(branch_holds(&view.branches[1], "c2"));
    assert!(!branch_holds(&view.branches[0], "c2"));
}

#[test]
fn the_hint_only_picks_the_default() {
    let with = compute_fork_view(&forked(), Some("b")).unwrap();
    let without = compute_fork_view(&forked(), None).unwrap();
    let elsewhere = compute_fork_view(&forked(), Some("root")).unwrap();
    assert_eq!(with.default_branch, Some(0));
    assert_eq!(without.default_branch, None);
    assert_eq!(elsewhere.default_branch, None);
    assert_eq!(with.branches, without.branches);
    assert_eq!(with.prefix_uuids, without.prefix_uuids);
}

#[test]
fn a_line_of_records_has_no_fork() {
    assert!(compute_fork_view(&graph(&[("a", ""), ("b", "a"), ("c", "b")]), None).is_none());
    assert!(compute_fork_view(&[], Some("x")).is_none());
}

#[test]
fn only_the_first_fork_in_record_order_is_shown() {
    let view = compute_fork_view(
        &graph(&[("x", ""), ("y", "x"), ("y1", "y"), ("y2", "y"), ("z", "x")]),
        None,
    )
    .unwrap();
    assert_eq!(view.fork_parent_uuid, "x");
    assert_eq!(view.branches[0].node_uuids, vec!["y", "y1", "y2"]);
    assert_eq!(view.branches[1].node_uuids, vec!["z"]);
}

#[test]
fn repeated_records_count_once() {
    let view = compute_fork_view(
        &graph(&[("a", ""), ("b", "a"), ("b", "a"), ("c", "a"), ("c", "b")]),
        None,
    )
    .unwrap();
    assert_eq!(view.branches.len(), 2);
    assert_eq!(view.branches[1].node_uuids, vec!["c"]);
}

#[test]
fn the_prefix_ends_where_a_parent_is_unknown() {
    // The parent "gone" has no record of its own, but still leads to the fork.
    let view = compute_fork_view(&graph(&[("a", "gone"), ("b", "a"), ("c", "a")]), None).unwrap();
    assert_eq!(view.prefix_uuids, vec!["gone", "a"]);
    // A parent without a record is no fork.
    assert!(compute_fork_view(&graph(&[("b", "gone"), ("c", "gone")]), None).is_none());
}

#[test]
fn forks_on_a_cycle_are_recognised() {
    let cyclic = graph(&[("a", "b"), ("b", "a"), ("c", "a")]);
    assert!(has_cyclic_fork(&cyclic));
    assert!(!has_cyclic_fork(&forked()));
    // A cycle away from the fork does no harm.
    let away = graph(&[("f", ""), ("x", "y"), ("y", "x"), ("g", "f"), ("h", "f")]);
    assert!(!has_cyclic_fork(&away));
    assert_eq!(compute_fork_view(&away, None).unwrap().fork_parent_uuid, "f");
}
