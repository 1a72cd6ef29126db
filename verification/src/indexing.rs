//! The decisions of indexing a repository: which files a commit changed,
//! the text indexed for a change, how the history walk proceeds, the
//! progress messages, and the SQL that finds blobs still to be parsed.
use vstd::prelude::*;
use vstd::string::*;
use crate::symbols::{symbols_view, ExtractedSymbol};
use crate::text::{chars_of, decimal, join, push_char, push_decimal};

verus! {

// ---------------------------------------------------------------------------
// Tree differences
// ---------------------------------------------------------------------------

/// A file of a tree: its path and the hash of its blob.
#[derive(Debug, Clone)]
pub struct TreeEntry {
    pub path: String,
    pub oid: String,
}

/// How a file changed between a commit's parent tree and its own tree.
#[derive(Debug, Clone, PartialEq, Eq)]
pub enum FileChange {
    /// Added (no old blob) or modified: the old blob, if any, and the new one.
    Changed { path: String, old: Option<String>, new: String },
    /// Deleted: the blob it had.
    Deleted { path: String, blob: String },
}

/// The value of a file change.
pub enum FileChangeView {
    Changed { path: Seq<char>, old: Option<Seq<char>>, new: Seq<char> },
    Deleted { path: Seq<char>, blob: Seq<char> },
}

impl View for FileChange {
    type V = FileChangeView;

    open spec fn view(&self) -> FileChangeView {
        match self {
            FileChange::Changed { path, old, new } => FileChangeView::Changed {
                path: path@,
                old: match old {
                    Some(o) => Some(o@),
                    None => None,
                },
                new: new@,
            },
            FileChange::Deleted { path, blob } => FileChangeView::Deleted { path: path@, blob: blob@ },
        }
    }
}

/// The blob of the first entry with `path` among the first `n` entries.
pub open spec fn lookup(entries: Seq<TreeEntry>, path: Seq<char>, n: int) -> Option<Seq<char>>
    decreases n,
{
    if n <= 0 {
        None
    } else {
        match lookup(entries, path, n - 1) {
            Some(o) => Some(o),
            None => if entries[n - 1].path@ == path {
                Some(entries[n - 1].oid@)
            } else {
                None
            },
        }
    }
}

/// The blob at `path` in a tree.
pub open spec fn blob_at(entries: Seq<TreeEntry>, path: Seq<char>) -> Option<Seq<char>> {
    lookup(entries, path, entries.len() as int)
}

/// The added and modified files: each file of the child tree whose blob
/// differs from the parent's (or that the parent lacks), in child order.
pub open spec fn changed_files(parent: Seq<TreeEntry>, child: Seq<TreeEntry>) -> Seq<FileChangeView>
    decreases child.len(),
{
    if child.len() == 0 {
        Seq::empty()
    } else {
        let prev = changed_files(parent, child.drop_last());
        let e = child.last();
        let old = blob_at(parent, e.path@);
        if old == Some(e.oid@) {
            prev
        } else {
            prev.push(FileChangeView::Changed { path: e.path@, old, new: e.oid@ })
        }
    }
}

/// The deleted files: each file of the parent tree that the child lacks,
/// in parent order.
pub open spec fn deleted_files(parent: Seq<TreeEntry>, child: Seq<TreeEntry>) -> Seq<FileChangeView>
    decreases parent.len(),
{
    if parent.len() == 0 {
        Seq::empty()
    } else {
        let prev = deleted_files(parent.drop_last(), child);
        let e = parent.last();
        if blob_at(child, e.path@) is None {
            prev.push(FileChangeView::Deleted { path: e.path@, blob: e.oid@ })
        } else {
            prev
        }
    }
}

/// The changes from a parent tree to a child tree.
pub open spec fn spec_diff_trees(parent: Seq<TreeEntry>, child: Seq<TreeEntry>) -> Seq<FileChangeView> {
    changed_files(parent, child) + deleted_files(parent, child)
}

/// The values of a sequence of changes.
pub open spec fn changes_view(v: Seq<FileChange>) -> Seq<FileChangeView> {
    v.map_values(|c: FileChange| c@)
}

/// The blob at `path` in a tree (the first entry with that path).
pub fn find_blob(entries: &Vec<TreeEntry>, path: &String) -> (r: Option<String>)
    ensures
        match r {
            Some(o) => blob_at(entries@, path@) == Some(o@),
            None => blob_at(entries@, path@) is None,
        },
{
    let mut i: usize = 0;
    while i < entries.len()
        invariant
            i <= entries.len(),
            lookup(entries@, path@, i as int) is None,
        decreases entries.len() - i,
    {
        if entries[i].path == *path {
            let r = entries[i].oid.clone();
            proof {
                lemma_lookup_found(entries@, path@, i as int);
            }
            return Some(r);
        }
        i = i + 1;
    }
    None
}

proof fn lemma_lookup_found(entries: Seq<TreeEntry>, path: Seq<char>, i: int)
    requires
        0 <= i < entries.len(),
        lookup(entries, path, i) is None,
        entries[i].path@ == path,
    ensures
        blob_at(entries, path) == Some(entries[i].oid@),
{
    lemma_lookup_stays(entries, path, i + 1, entries.len() as int);
}

proof fn lemma_lookup_stays(entries: Seq<TreeEntry>, path: Seq<char>, k: int, n: int)
    requires
        0 < k <= n <= entries.len(),
        lookup(entries, path, k) is Some,
    ensures
        lookup(entries, path, n) == lookup(entries, path, k),
    decreases n - k,
{
    if n > k {
        lemma_lookup_stays(entries, path, k, n - 1);
    }
}

/// Which files a commit added, modified or deleted, given its parent's tree
/// (empty for a root commit) and its own tree.
pub fn diff_trees(parent: &Vec<TreeEntry>, child: &Vec<TreeEntry>) -> (r: Vec<FileChange>)
    ensures
        changes_view(r@) == spec_diff_trees(parent@, child@),
{
    let mut out: Vec<FileChange> = Vec::new();
    let mut i: usize = 0;
    while i < child.len()
        invariant
            i <= child.len(),
            changes_view(out@) == changed_files(parent@, child@.take(i as int)),
        decreases child.len() - i,
    {
        let e = &child[i];
        let old = find_blob(parent, &e.path);
        let ghost before = out@;
        proof {
            assert(child@.take(i + 1).drop_last() =~= child@.take(i as int));
            assert(child@.take(i + 1).last() == child@[i as int]);
        }
        let same = match &old {
            Some(o) => *o == e.oid,
            None => false,
        };
        if !same {
            out.push(FileChange::Changed { path: e.path.clone(), old, new: e.oid.clone() });
            assert(changes_view(out@) =~= changes_view(before).push(out@.last()@));
        }
        i = i + 1;
    }
    assert(child@.take(child.len() as int) =~= child@);
    let ghost changed = changes_view(out@);
    let mut j: usize = 0;
    while j < parent.len()
        invariant
            j <= parent.len(),
            changes_view(out@) == changed + deleted_files(parent@.take(j as int), child@),
        decreases parent.len() - j,
    {
        let e = &parent[j];
        let here = find_blob(child, &e.path);
        let ghost before = out@;
        proof {
            assert(parent@.take(j + 1).drop_last() =~= parent@.take(j as int));
            assert(parent@.take(j + 1).last() == parent@[j as int]);
        }
        if here.is_none() {
            out.push(FileChange::Deleted { path: e.path.clone(), blob: e.oid.clone() });
            assert(changes_view(out@) =~= changes_view(before).push(out@.last()@));
        }
        j = j + 1;
    }
    assert(parent@.take(parent.len() as int) =~= parent@);
    out
}

/// A change names a file of the child tree with its new blob, and the
/// parent's blob at that path, which differs from it.
pub open spec fn is_child_change(parent: Seq<TreeEntry>, child: Seq<TreeEntry>, c: FileChangeView) -> bool {
    match c {
        FileChangeView::Changed { path, old, new } => {
            &&& old == blob_at(parent, path)
            &&& old != Some(new)
            &&& exists|i: int| 0 <= i < child.len() && (#[trigger] child[i]).path@ == path && child[i].oid@ == new
        },
        FileChangeView::Deleted { .. } => false,
    }
}

proof fn lemma_changed_files(parent: Seq<TreeEntry>, child: Seq<TreeEntry>)
    ensures
        forall|k: int|
            0 <= k < changed_files(parent, child).len() ==> is_child_change(
                parent,
                child,
                #[trigger] changed_files(parent, child)[k],
            ),
        forall|i: int|
            0 <= i < child.len() && blob_at(parent, (#[trigger] child[i]).path@) != Some(
                child[i].oid@,
            ) ==> exists|k: int|
                0 <= k < changed_files(parent, child).len() && #[trigger] changed_files(
                    parent,
                    child,
                )[k] == (FileChangeView::Changed {
                    path: child[i].path@,
                    old: blob_at(parent, child[i].path@),
                    new: child[i].oid@,
                }),
    decreases child.len(),
{
    if child.len() > 0 {
        let c0 = child.drop_last();
        lemma_changed_files(parent, c0);
        let prev = changed_files(parent, c0);
        let cur = changed_files(parent, child);
        assert forall|k: int| 0 <= k < cur.len() implies is_child_change(parent, child, #[trigger] cur[k]) by {
            if k < prev.len() {
                assert(cur[k] == prev[k]);
                if let FileChangeView::Changed { path, old, new } = prev[k] {
                    let i = choose|i: int|
                        0 <= i < c0.len() && (#[trigger] c0[i]).path@ == path && c0[i].oid@ == new;
                    assert(child[i] == c0[i]);
                }
            } else {
                assert(child[child.len() - 1] == child.last());
            }
        }
        assert forall|i: int|
            0 <= i < child.len() && blob_at(parent, (#[trigger] child[i]).path@) != Some(
                child[i].oid@,
            ) implies exists|k: int|
            0 <= k < cur.len() && #[trigger] cur[k] == (FileChangeView::Changed {
                path: child[i].path@,
                old: blob_at(parent, child[i].path@),
                new: child[i].oid@,
            }) by {
            if i < child.len() - 1 {
                assert(child[i] == c0[i]);
                let k = choose|k: int|
                    0 <= k < prev.len() && #[trigger] prev[k] == (FileChangeView::Changed {
                        path: c0[i].path@,
                        old: blob_at(parent, c0[i].path@),
                        new: c0[i].oid@,
                    });
                assert(cur[k] == prev[k]);
            } else {
                assert(cur[cur.len() - 1] == cur.last());
            }
        }
    }
}

/// The changes between two trees are exactly the files whose blob differs:
/// each reported change names a file of the child tree with its new blob
/// and the parent's blob at that path (if any), which differs from it; and
/// every child file whose blob differs from the parent's is reported.
/// A file with the same blob in both trees is never reported.
pub proof fn law_changes_are_exactly_the_differing_files(parent: Seq<TreeEntry>, child: Seq<TreeEntry>)
    ensures
        forall|k: int|
            0 <= k < changed_files(parent, child).len() ==> is_child_change(
                parent,
                child,
                #[trigger] changed_files(parent, child)[k],
            ),
        forall|i: int|
            0 <= i < child.len() && blob_at(parent, (#[trigger] child[i]).path@) != Some(
                child[i].oid@,
            ) ==> exists|k: int|
                0 <= k < changed_files(parent, child).len() && #[trigger] changed_files(
                    parent,
                    child,
                )[k] == (FileChangeView::Changed {
                    path: child[i].path@,
                    old: blob_at(parent, child[i].path@),
                    new: child[i].oid@,
                }),
{
    lemma_changed_files(parent, child);
}

/// A deletion names a file of the parent tree, with its blob, at a path
/// the child tree lacks.
pub open spec fn is_parent_deletion(parent: Seq<TreeEntry>, child: Seq<TreeEntry>, c: FileChangeView) -> bool {
    match c {
        FileChangeView::Deleted { path, blob } => {
            &&& blob_at(child, path) is None
            &&& exists|i: int| 0 <= i < parent.len() && (#[trigger] parent[i]).path@ == path && parent[i].oid@ == blob
        },
        FileChangeView::Changed { .. } => false,
    }
}

proof fn lemma_deleted_files(parent: Seq<TreeEntry>, child: Seq<TreeEntry>)
    ensures
        forall|k: int|
            0 <= k < deleted_files(parent, child).len() ==> is_parent_deletion(
                parent,
                child,
                #[trigger] deleted_files(parent, child)[k],
            ),
        forall|i: int|
            0 <= i < parent.len() && blob_at(child, (#[trigger] parent[i]).path@) is None
                ==> exists|k: int|
                0 <= k < deleted_files(parent, child).len() && #[trigger] deleted_files(
                    parent,
                    child,
                )[k] == (FileChangeView::Deleted { path: parent[i].path@, blob: parent[i].oid@ }),
    decreases parent.len(),
{
    if parent.len() > 0 {
        let p0 = parent.drop_last();
        lemma_deleted_files(p0, child);
        let prev = deleted_files(p0, child);
        let cur = deleted_files(parent, child);
        assert forall|k: int| 0 <= k < cur.len() implies is_parent_deletion(parent, child, #[trigger] cur[k]) by {
            if k < prev.len() {
                assert(cur[k] == prev[k]);
                if let FileChangeView::Deleted { path, blob } = prev[k] {
                    let i = choose|i: int|
                        0 <= i < p0.len() && (#[trigger] p0[i]).path@ == path && p0[i].oid@ == blob;
                    assert(parent[i] == p0[i]);
                }
            } else {
                assert(parent[parent.len() - 1] == parent.last());
            }
        }
        assert forall|i: int|
            0 <= i < parent.len() && blob_at(child, (#[trigger] parent[i]).path@) is None
                implies exists|k: int|
            0 <= k < cur.len() && #[trigger] cur[k] == (FileChangeView::Deleted {
                path: parent[i].path@,
                blob: parent[i].oid@,
            }) by {
            if i < parent.len() - 1 {
                assert(parent[i] == p0[i]);
                let k = choose|k: int|
                    0 <= k < prev.len() && #[trigger] prev[k] == (FileChangeView::Deleted {
                        path: p0[i].path@,
                        blob: p0[i].oid@,
                    });
                assert(cur[k] == prev[k]);
            } else {
                assert(cur[cur.len() - 1] == cur.last());
            }
        }
    }
}

/// The diff of two trees reports exactly what differs, whatever else
/// changed: every file of the child tree whose blob differs from the
/// parent's (or that the parent lacks) as changed, with both blobs; every
/// file of the parent tree that the child lacks as deleted, with its blob;
/// and nothing else.
pub proof fn law_diff_reports_every_change_and_deletion(parent: Seq<TreeEntry>, child: Seq<TreeEntry>)
    ensures
        forall|i: int|
            0 <= i < child.len() && blob_at(parent, (#[trigger] child[i]).path@) != Some(
                child[i].oid@,
            ) ==> exists|k: int|
                0 <= k < spec_diff_trees(parent, child).len() && #[trigger] spec_diff_trees(
                    parent,
                    child,
                )[k] == (FileChangeView::Changed {
                    path: child[i].path@,
                    old: blob_at(parent, child[i].path@),
                    new: child[i].oid@,
                }),
        forall|i: int|
            0 <= i < parent.len() && blob_at(child, (#[trigger] parent[i]).path@) is None
                ==> exists|k: int|
                0 <= k < spec_diff_trees(parent, child).len() && #[trigger] spec_diff_trees(
                    parent,
                    child,
                )[k] == (FileChangeView::Deleted { path: parent[i].path@, blob: parent[i].oid@ }),
        forall|k: int|
            0 <= k < spec_diff_trees(parent, child).len() ==> is_child_change(
                parent,
                child,
                #[trigger] spec_diff_trees(parent, child)[k],
            ) || is_parent_deletion(parent, child, spec_diff_trees(parent, child)[k]),
{
    lemma_changed_files(parent, child);
    lemma_deleted_files(parent, child);
    let c = changed_files(parent, child);
    let d = deleted_files(parent, child);
    let all = spec_diff_trees(parent, child);
    assert forall|i: int|
        0 <= i < child.len() && blob_at(parent, (#[trigger] child[i]).path@) != Some(child[i].oid@)
            implies exists|k: int|
        0 <= k < all.len() && #[trigger] all[k] == (FileChangeView::Changed {
            path: child[i].path@,
            old: blob_at(parent, child[i].path@),
            new: child[i].oid@,
        }) by {
        let k = choose|k: int|
            0 <= k < c.len() && #[trigger] c[k] == (FileChangeView::Changed {
                path: child[i].path@,
                old: blob_at(parent, child[i].path@),
                new: child[i].oid@,
            });
        assert(all[k] == c[k]);
    }
    assert forall|i: int|
        0 <= i < parent.len() && blob_at(child, (#[trigger] parent[i]).path@) is None
            implies exists|k: int|
        0 <= k < all.len() && #[trigger] all[k] == (FileChangeView::Deleted {
            path: parent[i].path@,
            blob: parent[i].oid@,
        }) by {
        let k = choose|k: int|
            0 <= k < d.len() && #[trigger] d[k] == (FileChangeView::Deleted {
                path: parent[i].path@,
                blob: parent[i].oid@,
            });
        assert(all[c.len() + k] == d[k]);
    }
    assert forall|k: int| 0 <= k < all.len() implies is_child_change(parent, child, #[trigger] all[k])
        || is_parent_deletion(parent, child, all[k]) by {
        if k < c.len() {
            assert(all[k] == c[k]);
        } else {
            assert(all[k] == d[k - c.len()]);
        }
    }
}

// ---------------------------------------------------------------------------
// Diff text
// ---------------------------------------------------------------------------

/// The lines of `s` after the current partial line `cur` (`str::lines`):
/// a line ends at `\n`, and a `\r` just before that `\n` is dropped; a last
/// line without `\n` counts if it is not empty.
pub open spec fn lines_from(s: Seq<char>, cur: Seq<char>) -> Seq<Seq<char>>
    decreases s.len(),
{
    if s.len() == 0 {
        if cur.len() > 0 {
            seq![cur]
        } else {
            Seq::empty()
        }
    } else if s[0] == '\n' {
        seq![strip_cr(cur)] + lines_from(s.drop_first(), Seq::empty())
    } else {
        lines_from(s.drop_first(), cur.push(s[0]))
    }
}

/// A line without a final `\r`.
pub open spec fn strip_cr(l: Seq<char>) -> Seq<char> {
    if l.len() > 0 && l.last() == '\r' {
        l.drop_last()
    } else {
        l
    }
}

/// The lines of a text.
pub open spec fn spec_lines(s: Seq<char>) -> Seq<Seq<char>> {
    lines_from(s, Seq::empty())
}

/// Each line after a mark, and ended by a newline.
pub open spec fn marked(ls: Seq<Seq<char>>, mark: char) -> Seq<char>
    decreases ls.len(),
{
    if ls.len() == 0 {
        Seq::empty()
    } else {
        marked(ls.drop_last(), mark) + seq![mark] + ls.last() + seq!['\n']
    }
}

/// At most the first `n` lines.
pub open spec fn first_lines(ls: Seq<Seq<char>>, n: int) -> Seq<Seq<char>> {
    if ls.len() <= n {
        ls
    } else {
        ls.take(n)
    }
}

/// The text indexed for a change: a header naming the path, then the first
/// hundred lines of the old content with `-` and of the new content with `+`.
pub open spec fn spec_diff_text(path: Seq<char>, old: Option<Seq<char>>, new: Option<Seq<char>>) -> Seq<
    char,
> {
    "--- a/"@ + path + "\n+++ b/"@ + path + "\n"@ + match old {
        Some(t) => marked(first_lines(spec_lines(t), 100), '-'),
        None => Seq::empty(),
    } + match new {
        Some(t) => marked(first_lines(spec_lines(t), 100), '+'),
        None => Seq::empty(),
    }
}

fn push_line(out: &mut String, mark: char, line: &Vec<char>)
    ensures
        final(out)@ == old(out)@ + seq![mark] + line@ + seq!['\n'],
{
    push_char(out, mark);
    let mut i: usize = 0;
    let ghost start = out@;
    while i < line.len()
        invariant
            i <= line.len(),
            out@ == start + line@.take(i as int),
        decreases line.len() - i,
    {
        push_char(out, line[i]);
        assert(line@.take(i + 1) =~= line@.take(i as int).push(line@[i as int]));
        i = i + 1;
    }
    assert(line@.take(line.len() as int) =~= line@);
    push_char(out, '\n');
}

/// Append the first `max` lines of `text`, each after `mark`.
fn push_marked_lines(out: &mut String, text: &str, mark: char, max: usize)
    ensures
        final(out)@ == old(out)@ + marked(first_lines(spec_lines(text@), max as int), mark),
{
    let v = chars_of(text);
    let ghost start = out@;
    let ghost mut done: Seq<Seq<char>> = Seq::empty();
    let mut count: usize = 0;
    let mut cur: Vec<char> = Vec::new();
    let mut i: usize = 0;
    assert(v@.skip(0) =~= v@);
    while i < v.len() && count < max
        invariant
            i <= v.len(),
            v@ == text@,
            count == done.len(),
            count <= max,
            done + lines_from(v@.skip(i as int), cur@) == spec_lines(text@),
            out@ == start + marked(done, mark),
        decreases v.len() - i,
    {
        let c = v[i];
        let ghost rest = v@.skip(i as int);
        assert(rest[0] == c);
        assert(rest.drop_first() =~= v@.skip(i + 1));
        if c == '\n' {
            let n = cur.len();
            let line = if n > 0 && cur[n - 1] == '\r' {
                let mut t = cur;
                t.pop();
                t
            } else {
                cur
            };
            assert(line@ == strip_cr(cur@));
            push_line(out, mark, &line);
            proof {
                let nd = done.push(line@);
                assert(nd + lines_from(v@.skip(i + 1), Seq::empty()) =~= done + (seq![strip_cr(cur@)]
                    + lines_from(v@.skip(i + 1), Seq::empty())));
                assert(nd.drop_last() =~= done);
                done = nd;
            }
            count = count + 1;
            cur = Vec::new();
            assert(cur@ =~= Seq::<char>::empty());
        } else {
            cur.push(c);
        }
        i = i + 1;
    }
    proof {
        assert(done =~= spec_lines(text@).take(done.len() as int));
    }
    if count < max && cur.len() > 0 {
        // the text ended without a newline: its last line
        assert(v@.skip(i as int) =~= Seq::<char>::empty());
        let ghost nd = done.push(cur@);
        push_line(out, mark, &cur);
        proof {
            assert(nd + Seq::<Seq<char>>::empty() =~= done + seq![cur@]);
            assert(nd.drop_last() =~= done);
            assert(nd =~= spec_lines(text@));
            done = nd;
        }
    } else if count < max {
        assert(v@.skip(i as int) =~= Seq::<char>::empty());
        assert(done + Seq::<Seq<char>>::empty() =~= done);
    }
    proof {
        assert(first_lines(spec_lines(text@), max as int) =~= done);
    }
}

/// Generate the text indexed for a change of `path`: not a unified diff,
/// just enough text for full-text search. `old` and `new` are the contents
/// that could be read as text.
pub fn generate_diff_text(path: &str, old: Option<&str>, new: Option<&str>) -> (r: String)
    ensures
        r@ == spec_diff_text(
            path@,
            match old {
                Some(t) => Some(t@),
                None => None,
            },
            match new {
                Some(t) => Some(t@),
                None => None,
            },
        ),
{
    let mut diff_text = "--- a/".to_owned();
    diff_text.append(path);
    diff_text.append("\n+++ b/");
    diff_text.append(path);
    diff_text.append("\n");
    if let Some(t) = old {
        push_marked_lines(&mut diff_text, t, '-', 100);
    }
    if let Some(t) = new {
        push_marked_lines(&mut diff_text, t, '+', 100);
    }
    diff_text
}

// ---------------------------------------------------------------------------
// History walk
// ---------------------------------------------------------------------------

/// What the history walk does with the next commit it pops.
#[derive(Debug, Clone, Copy, PartialEq, Eq, Structural)]
pub enum WalkStep {
    /// The depth limit is reached: stop, older history is not indexed.
    Truncate,
    /// Already indexed or already visited: skip it.
    Skip,
    /// Read the commit and walk on to its parents.
    Visit,
}

/// The walk step: with a depth limit, stop once that many new commits were
/// collected; skip commits known or seen; visit the others.
pub open spec fn spec_walk_step(collected: usize, max_depth: Option<usize>, seen: bool) -> WalkStep {
    match max_depth {
        Some(m) if collected >= m => WalkStep::Truncate,
        _ => if seen {
            WalkStep::Skip
        } else {
            WalkStep::Visit
        },
    }
}

/// Decide what the history walk does with the next commit.
pub fn walk_step(collected: usize, max_depth: Option<usize>, seen: bool) -> (r: WalkStep)
    ensures
        r == spec_walk_step(collected, max_depth, seen),
{
    if let Some(max) = max_depth {
        if collected >= max {
            return WalkStep::Truncate;
        }
    }
    if seen {
        WalkStep::Skip
    } else {
        WalkStep::Visit
    }
}

/// A walk visits a commit only below its depth limit, and never one that
/// was already indexed or already visited, so re-indexing reads only new
/// commits.
pub proof fn law_walk_visits_only_new_commits_within_depth(
    collected: usize,
    max_depth: Option<usize>,
    seen: bool,
)
    ensures
        spec_walk_step(collected, max_depth, seen) == WalkStep::Visit ==> !seen && match max_depth {
            Some(m) => collected < m,
            None => true,
        },
{
}

/// The walk of one ref's history, from its tip towards older commits.
/// Commits still to look at are kept on a stack (the last one pushed is
/// looked at next); the commits visited are collected in visit order.
pub struct HistoryWalk {
    pending: Vec<String>,
    collected: Vec<String>,
    max_depth: Option<usize>,
    truncated: bool,
}

/// The state of a history walk.
pub struct HistoryWalkView {
    pub pending: Seq<Seq<char>>,
    pub collected: Seq<Seq<char>>,
    pub max_depth: Option<usize>,
    pub truncated: bool,
}

/// The texts of strings.
pub open spec fn texts(v: Seq<String>) -> Seq<Seq<char>> {
    v.map_values(|s: String| s@)
}

impl View for HistoryWalk {
    type V = HistoryWalkView;

    closed spec fn view(&self) -> HistoryWalkView {
        HistoryWalkView {
            pending: texts(self.pending@),
            collected: texts(self.collected@),
            max_depth: self.max_depth,
            truncated: self.truncated,
        }
    }
}

impl HistoryWalk {
    /// A walk that starts at a ref's tip.
    pub fn new(tip: String, max_depth: Option<usize>) -> (w: HistoryWalk)
        ensures
            w@ == (HistoryWalkView {
                pending: seq![tip@],
                collected: Seq::empty(),
                max_depth,
                truncated: false,
            }),
    {
        let mut pending = Vec::new();
        pending.push(tip);
        let w = HistoryWalk { pending, collected: Vec::new(), max_depth, truncated: false };
        assert(texts(w.pending@) =~= seq![w.pending@[0]@]);
        assert(texts(w.collected@) =~= Seq::empty());
        w
    }

    /// The next commit to look at, taken off the stack; `None` once the
    /// walk is done.
    pub fn next_pending(&mut self) -> (r: Option<String>)
        ensures
            old(self)@.pending.len() == 0 ==> r is None && final(self)@ == old(self)@,
            old(self)@.pending.len() > 0 ==> (r matches Some(c) && c@ == old(self)@.pending.last()),
            old(self)@.pending.len() > 0 ==> final(self)@ == (HistoryWalkView {
                pending: old(self)@.pending.drop_last(),
                ..old(self)@
            }),
    {
        let r = self.pending.pop();
        proof {
            if old(self).pending.len() > 0 {
                assert(texts(self.pending@) =~= texts(old(self).pending@).drop_last());
            }
        }
        r
    }

    /// Decide on the commit just taken: stop once the depth limit is
    /// reached (nothing is left to look at then), skip one already indexed
    /// or visited (`seen`), else visit it.
    pub fn decide(&mut self, seen: bool) -> (r: WalkStep)
        ensures
            r == spec_walk_step(old(self)@.collected.len() as usize, old(self)@.max_depth, seen),
            r == WalkStep::Truncate ==> final(self)@ == (HistoryWalkView {
                pending: Seq::empty(),
                truncated: true,
                ..old(self)@
            }),
            r != WalkStep::Truncate ==> final(self)@ == old(self)@,
    {
        let r = walk_step(self.collected.len(), self.max_depth, seen);
        if let WalkStep::Truncate = r {
            self.truncated = true;
            self.pending = Vec::new();
            assert(texts(self.pending@) =~= Seq::empty());
        }
        r
    }

    /// Record a visited commit and its parents, pushed in order (so the
    /// last parent is looked at next).
    pub fn record(&mut self, commit: String, parents: Vec<String>)
        ensures
            final(self)@ == (HistoryWalkView {
                pending: old(self)@.pending + texts(parents@),
                collected: old(self)@.collected.push(commit@),
                ..old(self)@
            }),
    {
        let mut parents = parents;
        let ghost ps = texts(parents@);
        self.pending.append(&mut parents);
        self.collected.push(commit);
        proof {
            assert(texts(self.pending@) =~= texts(old(self).pending@) + ps);
            assert(texts(self.collected@) =~= texts(old(self).collected@).push(commit@));
        }
    }

    /// Whether the depth limit stopped the walk.
    pub fn truncated(&self) -> (r: bool)
        ensures
            r == self@.truncated,
    {
        self.truncated
    }

    /// The commits visited, oldest first (the reverse of visit order).
    pub fn oldest_first(&self) -> (r: Vec<String>)
        ensures
            texts(r@) == self@.collected.reverse(),
    {
        let mut r: Vec<String> = Vec::new();
        let n = self.collected.len();
        let mut i: usize = n;
        while i > 0
            invariant
                i <= n,
                n == self.collected.len(),
                texts(r@) == texts(self.collected@).subrange(i as int, n as int).reverse(),
            decreases i,
        {
            i = i - 1;
            let c = self.collected[i].clone();
            let ghost before = texts(r@);
            r.push(c);
            let ghost all = texts(self.collected@);
            assert(texts(r@) =~= before.push(c@));
            assert(c@ == all[i as int]);
            assert(all.subrange(i as int, n as int).reverse() =~= all.subrange(i + 1, n as int).reverse().push(
                all[i as int],
            ));
        }
        assert(texts(self.collected@).subrange(0, n as int) =~= texts(self.collected@));
        r
    }
}

// ---------------------------------------------------------------------------
// Progress messages
// ---------------------------------------------------------------------------

/// `Found {n} refs.`
pub fn found_refs_message(n: u64) -> (r: String)
    ensures
        r@ == "Found "@ + decimal(n as nat) + " refs."@,
{
    let mut s = "Found ".to_owned();
    push_decimal(&mut s, n);
    s.append(" refs.");
    s
}

/// `Ref {i}/{total}: {name} — {n} new commits`
pub fn ref_progress_message(i: u64, total: u64, name: &str, n: u64) -> (r: String)
    ensures
        r@ == "Ref "@ + decimal(i as nat) + "/"@ + decimal(total as nat) + ": "@ + name@ + " — "@
            + decimal(n as nat) + " new commits"@,
{
    let mut s = "Ref ".to_owned();
    push_decimal(&mut s, i);
    s.append("/");
    push_decimal(&mut s, total);
    s.append(": ");
    s.append(name);
    s.append(" — ");
    push_decimal(&mut s, n);
    s.append(" new commits");
    s
}

/// The warning given when a ref's history is cut at the depth limit.
pub fn depth_warning_message(max: u64, name: &str) -> (r: String)
    ensures
        r@ == "Warning: history depth limit ("@ + decimal(max as nat) + ") reached for ref "@
            + name@ + ". Older commits will not be indexed. Use --depth to adjust."@,
{
    let mut s = "Warning: history depth limit (".to_owned();
    push_decimal(&mut s, max);
    s.append(") reached for ref ");
    s.append(name);
    s.append(". Older commits will not be indexed. Use --depth to adjust.");
    s
}

/// Whether a progress line is due after `n` commits: every 500.
pub fn progress_due(n: u64) -> (b: bool)
    ensures
        b == (n % 500 == 0),
{
    n % 500 == 0
}

/// `Processed {c} commits, {b} new blobs...`
pub fn processed_message(commits: u64, blobs: u64) -> (r: String)
    ensures
        r@ == "Processed "@ + decimal(commits as nat) + " commits, "@ + decimal(blobs as nat)
            + " new blobs..."@,
{
    let mut s = "Processed ".to_owned();
    push_decimal(&mut s, commits);
    s.append(" commits, ");
    push_decimal(&mut s, blobs);
    s.append(" new blobs...");
    s
}

/// `Indexing complete: {c} new commits, {b} new blobs.`
pub fn complete_message(commits: u64, blobs: u64) -> (r: String)
    ensures
        r@ == "Indexing complete: "@ + decimal(commits as nat) + " new commits, "@ + decimal(
            blobs as nat,
        ) + " new blobs."@,
{
    let mut s = "Indexing complete: ".to_owned();
    push_decimal(&mut s, commits);
    s.append(" new commits, ");
    push_decimal(&mut s, blobs);
    s.append(" new blobs.");
    s
}

// ---------------------------------------------------------------------------
// Symbol parsing bookkeeping
// ---------------------------------------------------------------------------

/// Counts of a symbol-parsing run.
#[derive(Debug, Clone, Copy, PartialEq, Eq, Structural)]
pub struct ParseStats {
    pub blobs_parsed: u64,
    pub symbols_extracted: u64,
}

impl ParseStats {
    /// No blobs parsed yet.
    pub fn new() -> (s: Self)
        ensures
            s.blobs_parsed == 0,
            s.symbols_extracted == 0,
    {
        ParseStats { blobs_parsed: 0, symbols_extracted: 0 }
    }

    /// Count one parsed blob with its symbols.
    pub fn record_blob(&mut self, symbols: u64)
        requires
            old(self).blobs_parsed < u64::MAX,
            old(self).symbols_extracted + symbols <= u64::MAX,
        ensures
            final(self).blobs_parsed == old(self).blobs_parsed + 1,
            final(self).symbols_extracted == old(self).symbols_extracted + symbols,
    {
        self.blobs_parsed = self.blobs_parsed + 1;
        self.symbols_extracted = self.symbols_extracted + symbols;
    }
}

/// The numbered placeholders `?1, ?2, …, ?n`.
pub open spec fn placeholders(n: nat) -> Seq<Seq<char>>
    decreases n,
{
    if n == 0 {
        Seq::empty()
    } else {
        placeholders((n - 1) as nat).push("?"@ + decimal(n))
    }
}

/// The query for blobs not yet parsed whose language is one of `n` given ones.
pub open spec fn spec_unparsed_blobs_sql(n: nat) -> Seq<char> {
    "SELECT id, content_hash, language FROM blobs WHERE parsed = 0 AND language IN ("@ + join(
        placeholders(n),
        ", "@,
    ) + ")"@
}

/// The query for blobs not yet parsed in any of `n_languages` languages.
pub fn unparsed_blobs_sql(n_languages: u64) -> (r: String)
    ensures
        r@ == spec_unparsed_blobs_sql(n_languages as nat),
{
    let mut parts: Vec<String> = Vec::new();
    let mut i: u64 = 0;
    while i < n_languages
        invariant
            i <= n_languages,
            parts@.map_values(|s: String| s@) == placeholders(i as nat),
        decreases n_languages - i,
    {
        let mut p = "?".to_owned();
        push_decimal(&mut p, i + 1);
        let ghost before = parts@.map_values(|s: String| s@);
        parts.push(p);
        assert(parts@.map_values(|s: String| s@) =~= before.push(parts@.last()@));
        i = i + 1;
    }
    let joined = crate::text::join_strings(&parts, ", ");
    assert(crate::text::strings_view(parts@) =~= parts@.map_values(|s: String| s@));
    let mut q = "SELECT id, content_hash, language FROM blobs WHERE parsed = 0 AND language IN (".to_owned();
    q.append(joined.as_str());
    q.append(")");
    q
}

/// The (symbol, parent) index pairs of the nested symbols, in symbol order.
pub open spec fn spec_parent_links(s: Seq<crate::symbols::SymbolView>) -> Seq<(usize, usize)>
    decreases s.len(),
{
    if s.len() == 0 {
        Seq::empty()
    } else {
        let prev = spec_parent_links(s.drop_last());
        match s.last().parent_index {
            Some(p) => prev.push(((s.len() - 1) as usize, p)),
            None => prev,
        }
    }
}

/// The (symbol, parent) index pairs to record for nested symbols.
pub fn parent_links(symbols: &Vec<ExtractedSymbol>) -> (r: Vec<(usize, usize)>)
    ensures
        r@ == spec_parent_links(symbols_view(symbols@)),
{
    let ghost sv = symbols_view(symbols@);
    let mut out: Vec<(usize, usize)> = Vec::new();
    let mut i: usize = 0;
    while i < symbols.len()
        invariant
            i <= symbols.len(),
            sv == symbols_view(symbols@),
            out@ == spec_parent_links(sv.take(i as int)),
        decreases symbols.len() - i,
    {
        proof {
            assert(sv.take(i + 1).drop_last() =~= sv.take(i as int));
            assert(sv.take(i + 1).last() == symbols@[i as int]@);
        }
        if let Some(p) = symbols[i].parent_index {
            out.push((i, p));
        }
        i = i + 1;
    }
    assert(sv.take(symbols.len() as int) =~= sv);
    out
}

} // verus!
