//! Daily snapshots of the database: which files are snapshots, their
//! order, which old ones go, and how the newest is labelled.
//!
//! A snapshot is a file `tasks-YYYY-MM-DD.db`; ordering the names orders
//! the snapshots by date.

use vstd::prelude::*;
use crate::text::{
    append_str, chars_of, ends_with, has_prefix, has_suffix, starts_with, string_of, strip_prefix_copies,
    strip_prefixes, strip_suffix_copies, strip_suffixes,
};

verus! {

/// How many daily snapshots are kept.
pub const KEEP_SNAPSHOTS: usize = 7;

/// Whether a file name is that of a snapshot.
pub open spec fn is_snapshot_name(name: Seq<char>) -> bool {
    has_prefix(name, "tasks-"@) && has_suffix(name, ".db"@)
}

/// Whether `name` is the file name of a snapshot (`tasks-…​.db`).
pub fn snapshot_name(name: &String) -> (r: bool)
    ensures
        r == is_snapshot_name(name@),
{
    let cs = chars_of(name.as_str());
    starts_with(&cs, "tasks-") && ends_with(&cs, ".db")
}

/// The file name of the snapshot taken on `day` (`YYYY-MM-DD`).
pub fn snapshot_file_name(day: &str) -> (r: String)
    ensures
        r@ == "tasks-"@ + day@ + ".db"@,
{
    let mut s = String::new();
    append_str(&mut s, "tasks-");
    append_str(&mut s, day);
    append_str(&mut s, ".db");
    s
}

/// Whether a snapshot is worth taking: the database holds some task.
pub fn worth_snapshot(task_count: i64) -> (r: bool)
    ensures
        r == (task_count != 0),
{
    task_count != 0
}

// ---------------------------------------------------------------------
// Ordering names.

/// Lexicographic order of character sequences by code point (the order of
/// their UTF-8 bytes).
pub open spec fn lex_le(a: Seq<char>, b: Seq<char>) -> bool
    decreases a.len(),
{
    if a.len() == 0 {
        true
    } else if b.len() == 0 {
        false
    } else if a[0] != b[0] {
        a[0] < b[0]
    } else {
        lex_le(a.drop_first(), b.drop_first())
    }
}

pub proof fn lemma_lex_total(a: Seq<char>, b: Seq<char>)
    ensures
        lex_le(a, b) || lex_le(b, a),
    decreases a.len(),
{
    if a.len() > 0 && b.len() > 0 && a[0] == b[0] {
        lemma_lex_total(a.drop_first(), b.drop_first());
    }
}

pub proof fn lemma_lex_transitive(a: Seq<char>, b: Seq<char>, c: Seq<char>)
    requires
        lex_le(a, b),
        lex_le(b, c),
    ensures
        lex_le(a, c),
    decreases a.len(),
{
    if a.len() > 0 && b.len() > 0 && c.len() > 0 && a[0] == b[0] && b[0] == c[0] {
        lemma_lex_transitive(a.drop_first(), b.drop_first(), c.drop_first());
    }
}

/// Whether `a` orders before or at `b`.
pub fn lex_le_exec(a: &Vec<char>, b: &Vec<char>) -> (r: bool)
    ensures
        r == lex_le(a@, b@),
{
    let mut i: usize = 0;
    assert(a@.skip(0) =~= a@);
    assert(b@.skip(0) =~= b@);
    while i < a.len() && i < b.len() && a[i] == b[i]
        invariant
            i <= a@.len(),
            i <= b@.len(),
            lex_le(a@, b@) == lex_le(a@.skip(i as int), b@.skip(i as int)),
        decreases a.len() - i,
    {
        assert(a@.skip(i as int).drop_first() =~= a@.skip(i + 1));
        assert(b@.skip(i as int).drop_first() =~= b@.skip(i + 1));
        i = i + 1;
    }
    if i == a.len() {
        true
    } else if i == b.len() {
        false
    } else {
        assert(a@.skip(i as int)[0] == a@[i as int]);
        assert(b@.skip(i as int)[0] == b@[i as int]);
        a[i] < b[i]
    }
}

/// Each name orders at or before the next.
pub open spec fn names_sorted(v: Seq<Seq<char>>) -> bool {
    forall|i: int| 0 <= i < v.len() - 1 ==> lex_le(#[trigger] v[i], v[i + 1])
}

pub open spec fn name_views(v: Seq<String>) -> Seq<Seq<char>> {
    Seq::new(v.len(), |i: int| v[i]@)
}

/// The snapshot names among `names`, in their order.
pub open spec fn snapshot_names(names: Seq<Seq<char>>) -> Seq<Seq<char>>
    decreases names.len(),
{
    if names.len() == 0 {
        Seq::empty()
    } else {
        let rest = snapshot_names(names.drop_last());
        if is_snapshot_name(names.last()) {
            rest.push(names.last())
        } else {
            rest
        }
    }
}

/// Inserts `x` into a sorted vector, before the first name it orders
/// before.
fn insert_sorted(v: &mut Vec<String>, keys: &mut Vec<Vec<char>>, x: String)
    requires
        names_sorted(name_views(old(v)@)),
        old(keys)@.len() == old(v)@.len(),
        forall|k: int| 0 <= k < old(v)@.len() ==> (#[trigger] old(keys)@[k])@ == old(v)@[k]@,
    ensures
        names_sorted(name_views(final(v)@)),
        name_views(final(v)@).to_multiset() == name_views(old(v)@).to_multiset().insert(x@),
        final(keys)@.len() == final(v)@.len(),
        forall|k: int| 0 <= k < final(v)@.len() ==> (#[trigger] final(keys)@[k])@ == final(v)@[k]@,
{
    broadcast use vstd::seq_lib::group_to_multiset_ensures;

    let xk = chars_of(x.as_str());
    let mut p: usize = 0;
    while p < v.len() && lex_le_exec(&keys[p], &xk)
        invariant
            p <= v@.len(),
            v@ == old(v)@,
            keys@ == old(keys)@,
            keys@.len() == v@.len(),
            xk@ == x@,
            forall|k: int| 0 <= k < v@.len() ==> (#[trigger] keys@[k])@ == v@[k]@,
            forall|k: int| 0 <= k < p ==> lex_le(#[trigger] v@[k]@, x@),
        decreases v.len() - p,
    {
        p = p + 1;
    }
    let ghost old_names = name_views(v@);
    proof {
        if p < v@.len() {
            lemma_lex_total(v@[p as int]@, x@);
        }
    }
    v.insert(p, x);
    keys.insert(p, xk);
    let ghost new_names = name_views(v@);
    assert(new_names =~= old_names.insert(p as int, x@));
    assert(names_sorted(new_names)) by {
        assert forall|i: int| 0 <= i < new_names.len() - 1 implies lex_le(#[trigger] new_names[i], new_names[i + 1]) by {
            if i + 1 < p {
                assert(new_names[i] == old_names[i]);
                assert(new_names[i + 1] == old_names[i + 1]);
            } else if i + 1 == p {
                assert(new_names[i] == old_names[i]);
            } else if i == p {
            } else {
                assert(new_names[i] == old_names[i - 1]);
                assert(new_names[i + 1] == old_names[i]);
            }
        }
    }
    proof {
        vstd::seq_lib::to_multiset_insert(old_names, p as int, x@);
    }
}

/// The snapshot files among `names`, ordered by name (and so by date).
pub fn list_snapshots(names: &Vec<String>) -> (r: Vec<String>)
    ensures
        names_sorted(name_views(r@)),
        name_views(r@).to_multiset() == snapshot_names(name_views(names@)).to_multiset(),
{
    broadcast use vstd::seq_lib::group_to_multiset_ensures;

    let ghost nv = name_views(names@);
    let mut out: Vec<String> = Vec::new();
    let mut keys: Vec<Vec<char>> = Vec::new();
    let mut i: usize = 0;
    assert(name_views(out@) =~= Seq::<Seq<char>>::empty());
    assert(nv.take(0) =~= Seq::<Seq<char>>::empty());
    while i < names.len()
        invariant
            i <= names@.len(),
            nv == name_views(names@),
            names_sorted(name_views(out@)),
            name_views(out@).to_multiset() == snapshot_names(nv.take(i as int)).to_multiset(),
            keys@.len() == out@.len(),
            forall|k: int| 0 <= k < out@.len() ==> (#[trigger] keys@[k])@ == out@[k]@,
        decreases names.len() - i,
    {
        proof {
            assert(nv.take(i + 1).drop_last() =~= nv.take(i as int));
            assert(nv.take(i + 1).last() == nv[i as int]);
        }
        assert(nv[i as int] == names@[i as int]@);
        if snapshot_name(&names[i]) {
            let x = names[i].clone();
            insert_sorted(&mut out, &mut keys, x);
            proof {
                vstd::seq_lib::to_multiset_build(snapshot_names(nv.take(i as int)), nv[i as int]);
            }
            assert(snapshot_names(nv.take(i + 1)) == snapshot_names(nv.take(i as int)).push(nv[i as int]));
        } else {
            assert(snapshot_names(nv.take(i + 1)) == snapshot_names(nv.take(i as int)));
        }
        i = i + 1;
    }
    assert(nv.take(names@.len() as int) =~= nv);
    out
}

/// The snapshots to delete so that at most [`KEEP_SNAPSHOTS`] remain: the
/// oldest ones.
pub fn snapshots_to_prune(files: &Vec<String>) -> (r: Vec<String>)
    ensures
        name_views(r@) == (if files@.len() > KEEP_SNAPSHOTS {
            name_views(files@).take(files@.len() - KEEP_SNAPSHOTS)
        } else {
            Seq::empty()
        }),
{
    let mut out: Vec<String> = Vec::new();
    if files.len() > KEEP_SNAPSHOTS {
        let n = files.len() - KEEP_SNAPSHOTS;
        let mut i: usize = 0;
        while i < n
            invariant
                i <= n,
                n <= files@.len(),
                n == files@.len() - KEEP_SNAPSHOTS,
                name_views(out@) == name_views(files@).take(i as int),
            decreases n - i,
        {
            let ghost before = name_views(out@);
            out.push(files[i].clone());
            assert(name_views(out@) =~= before.push(files@[i as int]@));
            assert(name_views(out@) =~= name_views(files@).take(i + 1));
            i = i + 1;
        }
    } else {
        assert(name_views(out@) =~= Seq::<Seq<char>>::empty());
    }
    out
}

/// The label of the newest snapshot: its name without the `tasks-` prefix
/// and `.db` suffix; `""` when there is none.
pub open spec fn latest_label(files: Seq<Seq<char>>) -> Seq<char> {
    if files.len() == 0 {
        Seq::empty()
    } else {
        strip_suffixes(strip_prefixes(files.last(), "tasks-"@), ".db"@)
    }
}

/// The label of the newest of the (ordered) snapshot files.
pub fn snapshot_label(files: &Vec<String>) -> (r: String)
    ensures
        r@ == latest_label(name_views(files@)),
{
    if files.len() == 0 {
        return String::new();
    }
    let last = &files[files.len() - 1];
    let cs = chars_of(last.as_str());
    let (from, to) = strip_prefix_copies(&cs, "tasks-");
    let mid = string_of(&cs, from, to);
    let mc = chars_of(mid.as_str());
    let end = strip_suffix_copies(&mc, ".db");
    assert(name_views(files@).last() == last@);
    string_of(&mc, 0, end)
}


/// In names ordered pairwise, every name orders before every later one.
proof fn lemma_sorted_pairs(v: Seq<Seq<char>>, a: int, b: int)
    requires
        names_sorted(v),
        0 <= a <= b < v.len(),
    ensures
        lex_le(v[a], v[b]),
    decreases b - a,
{
    if a == b {
        lemma_lex_total(v[a], v[a]);
    } else {
        lemma_sorted_pairs(v, a, b - 1);
        assert(lex_le(v[b - 1], v[b]));
        lemma_lex_transitive(v[a], v[b - 1], v[b]);
    }
}

/// The snapshots pruned from an ordered list (see [`snapshots_to_prune`]).
pub open spec fn pruned(files: Seq<Seq<char>>) -> Seq<Seq<char>> {
    if files.len() > KEEP_SNAPSHOTS {
        files.take(files.len() - KEEP_SNAPSHOTS)
    } else {
        Seq::empty()
    }
}

/// Pruning an ordered list of snapshots keeps the newest
/// [`KEEP_SNAPSHOTS`] of them (all of them when there are no more): the
/// kept ones are the list without the pruned ones, and every pruned name
/// orders before every kept one.
pub proof fn law_keep_newest_snapshots(files: Seq<Seq<char>>)
    requires
        names_sorted(files),
    ensures
        ({
            let gone = pruned(files);
            let kept = files.skip(gone.len() as int);
            &&& kept.len() == (if files.len() > KEEP_SNAPSHOTS {
                KEEP_SNAPSHOTS as int
            } else {
                files.len() as int
            })
            &&& gone + kept == files
            &&& forall|a: int, b: int| 0 <= a < gone.len() && 0 <= b < kept.len() ==> lex_le(#[trigger] gone[a], #[trigger] kept[b])
        }),
{
    let gone = pruned(files);
    let kept = files.skip(gone.len() as int);
    assert(gone + kept =~= files);
    assert forall|a: int, b: int| 0 <= a < gone.len() && 0 <= b < kept.len() implies lex_le(#[trigger] gone[a], #[trigger] kept[b]) by {
        lemma_sorted_pairs(files, a, b + gone.len());
    }
}

} // verus!
