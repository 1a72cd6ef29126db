use codedb::indexing::{
    complete_message, depth_warning_message, diff_trees, found_refs_message, generate_diff_text,
    parent_links, processed_message, progress_due, ref_progress_message, unparsed_blobs_sql,
    walk_step, FileChange, HistoryWalk, ParseStats, TreeEntry, WalkStep,
};
use codedb::grammar::{extract_symbols, python_config};

fn entry(path: &str, oid: &str) -> TreeEntry {
    TreeEntry { path: path.to_string(), oid: oid.to_string() }
}

#[test]
fn tree_diff_reports_added_modified_and_deleted_files() {
    let parent = vec![entry("a.rs", "1"), entry("b.rs", "2"), entry("c.rs", "3")];
    let child = vec![entry("a.rs", "1"), entry("b.rs", "9"), entry("d.rs", "4")];
    let changes = diff_trees(&parent, &child);
    assert_eq!(
        changes,
        vec![
            FileChange::Changed { path: "b.rs".to_string(), old: Some("2".to_string()), new: "9".to_string() },
            FileChange::Changed { path: "d.rs".to_string(), old: None, new: "4".to_string() },
            FileChange::Deleted { path: "c.rs".to_string(), blob: "3".to_string() },
        ]
    );
    // a root commit: every file is added
    let root = diff_trees(&vec![], &child);
    assert_eq!(root.len(), 3);
    assert!(root.iter().all(|c| matches!(c, FileChange::Changed { old: None, .. })));
    // identical trees: nothing changed
    assert!(diff_trees(&parent, &parent).is_empty());
}

#[test]
fn diff_text_has_header_and_marked_lines() {
    assert_eq!(
        generate_diff_text("src/x.rs", Some("a\r\nb\n"), Some("c")),
        "--- a/src/x.rs\n+++ b/src/x.rs\n-a\n-b\n+c\n"
    );
    assert_eq!(generate_diff_text("p", None, None), "--- a/p\n+++ b/p\n");
    assert_eq!(generate_diff_text("p", None, Some("\n\nx\r")), "--- a/p\n+++ b/p\n+\n+\n+x\r\n");
    // only the first hundred lines of each side
    let long: String = (0..150).map(|i| format!("l{i}\n")).collect();
    let text = generate_diff_text("f", Some(&long), None);
    assert_eq!(text.lines().count(), 2 + 100);
    assert!(text.ends_with("-l99\n"));
}

#[test]
fn walk_steps_respect_depth_and_seen_commits() {
    assert_eq!(walk_step(5, Some(5), false), WalkStep::Truncate);
    assert_eq!(walk_step(4, Some(5), true), WalkStep::Skip);
    assert_eq!(walk_step(4, Some(5), false), WalkStep::Visit);
    assert_eq!(walk_step(1_000_000, None, false), WalkStep::Visit);
}

#[test]
fn progress_messages() {
    assert_eq!(found_refs_message(3), "Found 3 refs.");
    assert_eq!(ref_progress_message(1, 2, "refs/heads/main", 10), "Ref 1/2: refs/heads/main — 10 new commits");
    assert_eq!(
        depth_warning_message(100, "main"),
        "Warning: history depth limit (100) reached for ref main. Older commits will not be indexed. Use --depth to adjust."
    );
    assert!(progress_due(500) && progress_due(1000) && !progress_due(501));
    assert_eq!(processed_message(500, 7), "Processed 500 commits, 7 new blobs...");
    assert_eq!(complete_message(0, 0), "Indexing complete: 0 new commits, 0 new blobs.");
}

#[test]
fn parse_bookkeeping() {
    assert_eq!(
        unparsed_blobs_sql(3),
        "SELECT id, content_hash, language FROM blobs WHERE parsed = 0 AND language IN (?1, ?2, ?3)"
    );
    let mut stats = ParseStats::new();
    stats.record_blob(4);
    stats.record_blob(0);
    assert_eq!((stats.blobs_parsed, stats.symbols_extracted), (2, 4));
    let (symbols, _) = extract_symbols("class A:\n    def f(self):\n        pass\n", &python_config()).unwrap();
    assert_eq!(parent_links(&symbols), vec![(1, 0)]);
}

#[test]
fn history_walk_is_depth_first_and_gives_oldest_first() {
    // c has parents b and a; b has parent a.
    let parents = |c: &str| -> Vec<String> {
        match c {
            "c" => vec!["a".to_string(), "b".to_string()],
            "b" => vec!["a".to_string()],
            _ => vec![],
        }
    };
    let mut walk = HistoryWalk::new("c".to_string(), None);
    let mut seen: Vec<String> = Vec::new();
    let mut order = Vec::new();
    while let Some(c) = walk.next_pending() {
        match walk.decide(seen.contains(&c)) {
            WalkStep::Truncate => break,
            WalkStep::Skip => continue,
            WalkStep::Visit => seen.push(c.clone()),
        }
        order.push(c.clone());
        let ps = parents(&c);
        walk.record(c, ps);
    }
    assert_eq!(order, vec!["c", "b", "a"]);
    assert_eq!(walk.oldest_first(), vec!["a", "b", "c"]);
    assert!(!walk.truncated());
}

#[test]
fn history_walk_stops_at_the_depth_limit() {
    let mut walk = HistoryWalk::new("c".to_string(), Some(1));
    let c = walk.next_pending().unwrap();
    assert_eq!(walk.decide(false), WalkStep::Visit);
    walk.record(c, vec!["b".to_string()]);
    assert_eq!(walk.next_pending(), Some("b".to_string()));
    assert_eq!(walk.decide(false), WalkStep::Truncate);
    assert!(walk.truncated());
    assert_eq!(walk.next_pending(), None);
    assert_eq!(walk.oldest_first(), vec!["c"]);
}
