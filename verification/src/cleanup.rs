//! Duplicate clean-up: which copy of each duplicate group is kept, which copies
//! go to the trash, and what that frees.
use vstd::prelude::*;
use vstd::seq_lib::{lemma_multiset_commutative, to_multiset_build, to_multiset_insert, to_multiset_len};
use crate::duplicates::{law_runs_partition, runs};
use crate::models::{CleanupPreviewItem, CleanupResult};
use crate::paths::{absolute_spec, to_absolute};

verus! {

/// One row read for a duplicate clean-up: a member of a duplicate group.
#[derive(Debug)]
pub struct CleanupRow {
    pub group_id: i64,
    pub id: i64,
    pub file_path: String,
    pub file_name: String,
    pub file_size: i64,
    pub album_id: Option<i64>,
}

/// Whether a clean-up prefers to keep `a` over `b`: a copy that belongs to an
/// album comes first, then the copy with the lower id (the one indexed first).
pub open spec fn keep_before(a: CleanupRow, b: CleanupRow) -> bool {
    ||| (a.album_id is Some && b.album_id is None)
    ||| ((a.album_id is Some) == (b.album_id is Some) && a.id < b.id)
}

pub fn keep_before_exec(a: &CleanupRow, b: &CleanupRow) -> (r: bool)
    ensures
        r == keep_before(*a, *b),
{
    (a.album_id.is_some() && b.album_id.is_none()) || (a.album_id.is_some()
        == b.album_id.is_some() && a.id < b.id)
}

/// `x` placed into `s` after every member that `x` is not preferred to.
pub open spec fn insert_kept(s: Seq<CleanupRow>, x: CleanupRow) -> Seq<CleanupRow>
    decreases s.len(),
{
    if s.len() == 0 {
        seq![x]
    } else if keep_before(x, s[0]) {
        seq![x] + s
    } else {
        seq![s[0]] + insert_kept(s.drop_first(), x)
    }
}

/// The members of a group in the order of keep preference, ties in the order
/// they come in (a stable sort by preference). The first member is the keeper.
pub open spec fn keep_order(s: Seq<CleanupRow>) -> Seq<CleanupRow>
    decreases s.len(),
{
    if s.len() == 0 {
        s
    } else {
        insert_kept(keep_order(s.drop_last()), s.last())
    }
}

proof fn lemma_insert_kept_at(s: Seq<CleanupRow>, x: CleanupRow, p: int)
    requires
        0 <= p <= s.len(),
        forall|k: int| 0 <= k < p ==> !keep_before(x, #[trigger] s[k]),
        p == s.len() || keep_before(x, s[p]),
    ensures
        insert_kept(s, x) == s.insert(p, x),
    decreases p,
{
    if p == 0 {
        if s.len() == 0 {
            assert(seq![x] =~= s.insert(0, x));
        } else {
            assert(seq![x] + s =~= s.insert(0, x));
        }
    } else {
        let t = s.drop_first();
        assert forall|k: int| 0 <= k < p - 1 implies !keep_before(x, #[trigger] t[k]) by {
            assert(t[k] == s[k + 1]);
        }
        if p < s.len() {
            assert(t[p - 1] == s[p]);
        }
        assert(!keep_before(x, s[0]));
        lemma_insert_kept_at(t, x, p - 1);
        assert(seq![s[0]] + t.insert(p - 1, x) =~= s.insert(p, x));
    }
}

proof fn lemma_insert_kept_len(s: Seq<CleanupRow>, x: CleanupRow)
    ensures
        insert_kept(s, x).len() == s.len() + 1,
    decreases s.len(),
{
    if s.len() > 0 && !keep_before(x, s[0]) {
        lemma_insert_kept_len(s.drop_first(), x);
    }
}

proof fn lemma_keep_order_len(s: Seq<CleanupRow>)
    ensures
        keep_order(s).len() == s.len(),
    decreases s.len(),
{
    if s.len() > 0 {
        lemma_keep_order_len(s.drop_last());
        lemma_insert_kept_len(keep_order(s.drop_last()), s.last());
    }
}

/// The members of a group in keep order: the keeper first.
pub fn keep_order_exec(items: Vec<CleanupRow>) -> (r: Vec<CleanupRow>)
    ensures
        r@ == keep_order(items@),
{
    let mut r: Vec<CleanupRow> = Vec::new();
    for x in it: items.into_iter()
        invariant
            it.seq() == items@,
            r@ == keep_order(it.seq().take(it.index() as int)),
    {
        let ghost pre = it.seq().take(it.index() as int);
        let ghost post = it.seq().take(it.index() + 1);
        proof {
            assert(post.drop_last() =~= pre);
            assert(post.last() == x);
        }
        let mut p: usize = 0;
        while p < r.len() && !keep_before_exec(&x, &r[p])
            invariant
                p <= r@.len(),
                forall|k: int| 0 <= k < p ==> !keep_before(x, #[trigger] r@[k]),
            decreases r@.len() - p,
        {
            p = p + 1;
        }
        proof {
            lemma_insert_kept_at(r@, x, p as int);
        }
        r.insert(p, x);
    }
    proof {
        assert(items@.take(items@.len() as int) =~= items@);
    }
    r
}

/// The keeper of a non-empty group is a member of it and no member is
/// preferred to it.
proof fn lemma_keeper_min(s: Seq<CleanupRow>)
    requires
        s.len() > 0,
    ensures
        keep_order(s).len() == s.len(),
        exists|j: int| 0 <= j < s.len() && s[j] == keep_order(s)[0],
        forall|j: int| 0 <= j < s.len() ==> !keep_before(#[trigger] s[j], keep_order(s)[0]),
    decreases s.len(),
{
    lemma_keep_order_len(s);
    let d = s.drop_last();
    let x = s.last();
    let k = keep_order(d);
    let n = s.len();
    if d.len() == 0 {
        assert(keep_order(s) == insert_kept(k, x));
        assert(keep_order(s)[0] == x);
        assert(s[0] == x);
    } else {
        lemma_keeper_min(d);
        let m = k[0];
        let jd = choose|j: int| 0 <= j < d.len() && d[j] == m;
        if keep_before(x, m) {
            assert(keep_order(s) == seq![x] + k);
            assert(keep_order(s)[0] == x);
            assert(s[n - 1] == x);
            assert forall|j: int| 0 <= j < s.len() implies !keep_before(#[trigger] s[j], x) by {
                if j < n - 1 {
                    assert(s[j] == d[j]);
                    assert(!keep_before(d[j], m));
                }
            }
        } else {
            assert(keep_order(s) == seq![m] + insert_kept(k.drop_first(), x));
            assert(keep_order(s)[0] == m);
            assert(s[jd] == m);
            assert forall|j: int| 0 <= j < s.len() implies !keep_before(#[trigger] s[j], m) by {
                if j < n - 1 {
                    assert(s[j] == d[j]);
                }
            }
        }
    }
}

/// The keeper of a duplicate group: a member of the group; a copy that belongs to
/// an album whenever the group has one; and, among the copies that share its album
/// status, the one with the lowest id.
pub proof fn law_keeper_preferred(group: Seq<CleanupRow>)
    requires
        group.len() > 0,
    ensures
        group.contains(keep_order(group)[0]),
        (exists|j: int| 0 <= j < group.len() && (#[trigger] group[j]).album_id is Some) ==> keep_order(
            group,
        )[0].album_id is Some,
        forall|j: int|
            0 <= j < group.len() && ((#[trigger] group[j]).album_id is Some) == (keep_order(
                group,
            )[0].album_id is Some) ==> keep_order(group)[0].id <= group[j].id,
{
    lemma_keeper_min(group);
}


proof fn lemma_insert_kept_multiset(s: Seq<CleanupRow>, x: CleanupRow)
    ensures
        insert_kept(s, x).to_multiset() =~= s.to_multiset().insert(x),
    decreases s.len(),
{
    broadcast use vstd::multiset::group_multiset_axioms;

    if s.len() == 0 {
        assert(seq![x] =~= s.push(x));
        to_multiset_build(s, x);
    } else if keep_before(x, s[0]) {
        assert(seq![x] + s =~= s.insert(0, x));
        to_multiset_insert(s, 0, x);
    } else {
        let t = s.drop_first();
        lemma_insert_kept_multiset(t, x);
        let u = insert_kept(t, x);
        assert(seq![s[0]] + u =~= u.insert(0, s[0]));
        to_multiset_insert(u, 0, s[0]);
        assert(s =~= t.insert(0, s[0]));
        to_multiset_insert(t, 0, s[0]);
    }
}

/// A clean-up neither loses nor invents copies: the keep order of a group, whose
/// first member is kept and whose other members go, holds exactly the members
/// of the group, each as often as the group holds it.
pub proof fn law_keep_order_permutes_group(group: Seq<CleanupRow>)
    ensures
        keep_order(group).len() == group.len(),
        keep_order(group).to_multiset() == group.to_multiset(),
    decreases group.len(),
{
    lemma_keep_order_len(group);
    if group.len() > 0 {
        let d = group.drop_last();
        law_keep_order_permutes_group(d);
        lemma_insert_kept_multiset(keep_order(d), group.last());
        assert(group =~= d.push(group.last()));
        to_multiset_build(d, group.last());
    }
}

pub open spec fn cleanup_key(r: CleanupRow) -> i64 {
    r.group_id
}

/// The duplicate groups that clean-up rows, ordered by group id, form.
pub open spec fn cleanup_groups(rows: Seq<CleanupRow>) -> Seq<Seq<CleanupRow>> {
    runs(rows, |r: CleanupRow| cleanup_key(r))
}

/// Gathers clean-up rows, ordered by group id, into their groups.
pub fn group_cleanup_rows(rows: Vec<CleanupRow>) -> (r: Vec<Vec<CleanupRow>>)
    ensures
        r@.map_values(|v: Vec<CleanupRow>| v@) == cleanup_groups(rows@),
{
    let ghost key = |r: CleanupRow| cleanup_key(r);
    let mut result: Vec<Vec<CleanupRow>> = Vec::new();
    for row in it: rows.into_iter()
        invariant
            it.seq() == rows@,
            key == |r: CleanupRow| cleanup_key(r),
            result@.map_values(|v: Vec<CleanupRow>| v@) == runs(
                it.seq().take(it.index() as int),
                key,
            ),
    {
        let ghost pre = it.seq().take(it.index() as int);
        let ghost post = it.seq().take(it.index() + 1);
        let ghost prev = runs(pre, key);
        let ghost old_result = result@;
        proof {
            assert(post.drop_last() =~= pre);
            assert(post.last() == row);
            law_runs_partition(pre, key);
            assert(old_result.map_values(|v: Vec<CleanupRow>| v@) == prev);
        }
        let n = result.len();
        let joins = n > 0 && result[n - 1].len() > 0 && result[n - 1][0].group_id == row.group_id;
        proof {
            if n > 0 {
                assert(old_result[n - 1]@ == prev[n - 1]);
                assert(prev[n - 1].len() > 0);
                assert(prev.last() == prev[n - 1]);
            }
        }
        if joins {
            let mut g = result.pop().unwrap();
            g.push(row);
            result.push(g);
            proof {
                let last = prev.last();
                assert(runs(post.drop_last(), key) == prev);
                assert(runs(post, key) == prev.update(n - 1, last.push(row)));
                let nv = result@.map_values(|v: Vec<CleanupRow>| v@);
                let want = runs(post, key);
                assert(nv.len() == want.len());
                assert forall|i: int| 0 <= i < nv.len() implies nv[i] == want[i] by {
                    if i < n - 1 {
                        assert(result@[i] == old_result[i]);
                    }
                }
                assert(nv =~= want);
            }
        } else {
            let mut g: Vec<CleanupRow> = Vec::new();
            g.push(row);
            result.push(g);
            proof {
                assert(runs(post.drop_last(), key) == prev);
                assert(runs(post, key) == prev.push(seq![row]));
                let nv = result@.map_values(|v: Vec<CleanupRow>| v@);
                let want = runs(post, key);
                assert(nv.len() == want.len());
                assert forall|i: int| 0 <= i < nv.len() implies nv[i] == want[i] by {
                    if i < n {
                        assert(result@[i] == old_result[i]);
                    } else {
                        assert(g@ =~= seq![row]);
                    }
                }
                assert(nv =~= want);
            }
        }
    }
    proof {
        assert(rows@.take(rows@.len() as int) =~= rows@);
    }
    result
}

/// Total size in bytes of the given rows.
pub open spec fn size_sum(s: Seq<CleanupRow>) -> int
    decreases s.len(),
{
    if s.len() == 0 {
        0
    } else {
        size_sum(s.drop_last()) + s.last().file_size
    }
}

/// Bytes that cleaning up one group frees: the sizes of every member but the keeper.
pub open spec fn freed(run: Seq<CleanupRow>) -> int {
    size_sum(keep_order(run).drop_first())
}

/// Bytes freed by cleaning up all the given groups.
pub open spec fn total_freed(gs: Seq<Seq<CleanupRow>>) -> int
    decreases gs.len(),
{
    if gs.len() == 0 {
        0
    } else {
        total_freed(gs.drop_last()) + freed(gs.last())
    }
}

/// Files that cleaning up all the given groups removes: all members but the keepers.
pub open spec fn total_removed(gs: Seq<Seq<CleanupRow>>) -> int
    decreases gs.len(),
{
    if gs.len() == 0 {
        0
    } else {
        total_removed(gs.drop_last()) + gs.last().len() - 1
    }
}

/// What the preview of one group shows: the keeper's file name and path, the paths
/// of the copies that go, and the bytes they free.
pub open spec fn preview_spec(run: Seq<CleanupRow>, root: Seq<char>) -> (
    Seq<char>,
    Seq<char>,
    Seq<Seq<char>>,
    int,
) {
    let k = keep_order(run);
    (
        k[0].file_name@,
        absolute_spec(root, k[0].file_path@),
        k.drop_first().map_values(|r: CleanupRow| absolute_spec(root, r.file_path@)),
        freed(run),
    )
}

pub open spec fn preview_view(p: CleanupPreviewItem) -> (Seq<char>, Seq<char>, Seq<Seq<char>>, int) {
    (
        p.file_name@,
        p.kept_path@,
        p.deleted_paths@.map_values(|s: String| s@),
        p.bytes_freed as int,
    )
}

/// The `(media id, path on disk)` of every copy that a clean-up removes, group by group.
pub open spec fn deletions_spec(gs: Seq<Seq<CleanupRow>>, root: Seq<char>) -> Seq<(i64, Seq<char>)>
    decreases gs.len(),
{
    if gs.len() == 0 {
        Seq::<(i64, Seq<char>)>::empty()
    } else {
        deletions_spec(gs.drop_last(), root) + keep_order(gs.last()).drop_first().map_values(
            |r: CleanupRow| (r.id, absolute_spec(root, r.file_path@)),
        )
    }
}

/// The previews of a dry run: one for each of the first hundred groups.
pub open spec fn previews_spec(gs: Seq<Seq<CleanupRow>>, root: Seq<char>) -> Seq<
    (Seq<char>, Seq<char>, Seq<Seq<char>>, int),
> {
    gs.take(if gs.len() < 100 {
        gs.len() as int
    } else {
        100
    }).map_values(|run: Seq<CleanupRow>| preview_spec(run, root))
}

pub proof fn lemma_map_push<A, B>(s: Seq<A>, x: A, f: spec_fn(A) -> B)
    ensures
        s.push(x).map_values(f) == s.map_values(f).push(f(x)),
{
    assert(s.push(x).map_values(f) =~= s.map_values(f).push(f(x)));
}

pub open spec fn groups_nonempty(gs: Seq<Seq<CleanupRow>>) -> bool {
    forall|i: int| 0 <= i < gs.len() ==> (#[trigger] gs[i]).len() > 0
}

/// A sum of `n` sizes lies within `n` times the range of one size.
proof fn lemma_size_sum_bound(s: Seq<CleanupRow>)
    ensures
        -(s.len() * 0x8000_0000_0000_0000) <= size_sum(s) <= s.len() * 0x8000_0000_0000_0000,
    decreases s.len(),
{
    if s.len() > 0 {
        lemma_size_sum_bound(s.drop_last());
    }
}

/// The removal counts over the groups grow with every group and stay within
/// the rows: one removal fewer than members per group.
proof fn lemma_totals_bounded(gs: Seq<Seq<CleanupRow>>)
    requires
        groups_nonempty(gs),
    ensures
        forall|i: int|
            0 <= i <= gs.len() ==> 0 <= total_removed(#[trigger] gs.take(i)) && total_removed(
                gs.take(i),
            ) + i <= gs.flatten().len(),
        total_removed(gs) + gs.len() == gs.flatten().len(),
        gs.len() <= gs.flatten().len(),
    decreases gs.len(),
{
    if gs.len() == 0 {
        assert(gs.take(0) =~= gs);
    } else {
        let init = gs.drop_last();
        let last = gs.last();
        assert forall|i: int| 0 <= i < init.len() implies (#[trigger] init[i]).len() > 0 by {
            assert(init[i] == gs[i]);
        }
        lemma_totals_bounded(init);
        assert(gs =~= init.push(last));
        init.lemma_flatten_push(last);
        assert(last.len() > 0);
        assert(init.take(init.len() as int) =~= init);
        assert(total_removed(init) + init.len() <= init.flatten().len());
        assert(gs.flatten() == init.flatten() + last);
        assert(gs.drop_last() == init);
        assert(total_removed(gs) == total_removed(init) + last.len() - 1);
        assert forall|i: int|
            0 <= i <= gs.len() implies 0 <= total_removed(#[trigger] gs.take(i)) && total_removed(
            gs.take(i),
        ) + i <= gs.flatten().len() by {
            if i < gs.len() {
                assert(gs.take(i) =~= init.take(i));
            } else {
                assert(gs.take(i) =~= gs);
            }
        }
    }
}

/// Whether the sums a clean-up of the groups keeps fit in an `i64`: the bytes
/// each group frees, and the running total of freed bytes after each group.
pub open spec fn freed_sums_fit(gs: Seq<Seq<CleanupRow>>) -> bool {
    &&& forall|i: int| 0 <= i < gs.len() ==> i64::MIN <= #[trigger] freed(gs[i]) <= i64::MAX
    &&& forall|i: int|
        0 <= i <= gs.len() ==> i64::MIN <= #[trigger] total_freed(gs.take(i)) <= i64::MAX
}

/// The `(media id, path on disk)` under which a row is kept or sent to the trash.
pub open spec fn row_pair(root: Seq<char>, r: CleanupRow) -> (i64, Seq<char>) {
    (r.id, absolute_spec(root, r.file_path@))
}

/// The `(media id, path on disk)` of each row.
pub open spec fn pairs_of(rows: Seq<CleanupRow>, root: Seq<char>) -> Seq<(i64, Seq<char>)> {
    rows.map_values(|r: CleanupRow| row_pair(root, r))
}

/// The `(media id, path on disk)` of the copy each group keeps.
pub open spec fn keeper_pairs(gs: Seq<Seq<CleanupRow>>, root: Seq<char>) -> Seq<(i64, Seq<char>)> {
    gs.map_values(|g: Seq<CleanupRow>| row_pair(root, keep_order(g)[0]))
}

proof fn lemma_insert_kept_pairs(s: Seq<CleanupRow>, x: CleanupRow, root: Seq<char>)
    ensures
        pairs_of(insert_kept(s, x), root).to_multiset() =~= pairs_of(s, root).to_multiset().insert(
            row_pair(root, x),
        ),
    decreases s.len(),
{
    broadcast use vstd::multiset::group_multiset_axioms;

    if s.len() == 0 {
        assert(pairs_of(insert_kept(s, x), root) =~= pairs_of(s, root).push(row_pair(root, x)));
        to_multiset_build(pairs_of(s, root), row_pair(root, x));
    } else if keep_before(x, s[0]) {
        assert(pairs_of(insert_kept(s, x), root) =~= pairs_of(s, root).insert(0, row_pair(root, x)));
        to_multiset_insert(pairs_of(s, root), 0, row_pair(root, x));
    } else {
        let t = s.drop_first();
        lemma_insert_kept_pairs(t, x, root);
        let u = insert_kept(t, x);
        assert(pairs_of(insert_kept(s, x), root) =~= pairs_of(u, root).insert(
            0,
            row_pair(root, s[0]),
        ));
        to_multiset_insert(pairs_of(u, root), 0, row_pair(root, s[0]));
        assert(pairs_of(s, root) =~= pairs_of(t, root).insert(0, row_pair(root, s[0])));
        to_multiset_insert(pairs_of(t, root), 0, row_pair(root, s[0]));
    }
}

proof fn lemma_keep_order_pairs(g: Seq<CleanupRow>, root: Seq<char>)
    ensures
        pairs_of(keep_order(g), root).to_multiset() =~= pairs_of(g, root).to_multiset(),
    decreases g.len(),
{
    if g.len() > 0 {
        let d = g.drop_last();
        lemma_keep_order_pairs(d, root);
        lemma_insert_kept_pairs(keep_order(d), g.last(), root);
        assert(pairs_of(g, root) =~= pairs_of(d, root).push(row_pair(root, g.last())));
        to_multiset_build(pairs_of(d, root), row_pair(root, g.last()));
    }
}

/// Per group: the copies that go, with the keeper, are the group's members.
proof fn lemma_group_deletions(g: Seq<CleanupRow>, root: Seq<char>)
    requires
        g.len() > 0,
    ensures
        keep_order(g).drop_first().map_values(
            |r: CleanupRow| (r.id, absolute_spec(root, r.file_path@)),
        ).to_multiset().insert(row_pair(root, keep_order(g)[0])) =~= pairs_of(g, root).to_multiset(),
{
    broadcast use vstd::multiset::group_multiset_axioms;

    let k = keep_order(g);
    lemma_keep_order_len(g);
    lemma_keep_order_pairs(g, root);
    let rest = k.drop_first().map_values(|r: CleanupRow| (r.id, absolute_spec(root, r.file_path@)));
    assert(pairs_of(k, root) =~= rest.insert(0, row_pair(root, k[0])));
    to_multiset_insert(rest, 0, row_pair(root, k[0]));
}

proof fn lemma_deletions_and_keepers(gs: Seq<Seq<CleanupRow>>, root: Seq<char>)
    requires
        groups_nonempty(gs),
    ensures
        deletions_spec(gs, root).to_multiset().add(keeper_pairs(gs, root).to_multiset())
            =~= pairs_of(gs.flatten(), root).to_multiset(),
    decreases gs.len(),
{
    broadcast use vstd::multiset::group_multiset_axioms;

    if gs.len() == 0 {
        assert(deletions_spec(gs, root) =~= Seq::<(i64, Seq<char>)>::empty());
        assert(keeper_pairs(gs, root) =~= Seq::<(i64, Seq<char>)>::empty());
        assert(pairs_of(gs.flatten(), root) =~= Seq::<(i64, Seq<char>)>::empty());
        let z = Seq::<(i64, Seq<char>)>::empty();
        to_multiset_len(z);
        vstd::multiset::lemma_multiset_empty_len(z.to_multiset());
    } else {
        let init = gs.drop_last();
        let g = gs.last();
        assert forall|i: int| 0 <= i < init.len() implies (#[trigger] init[i]).len() > 0 by {
            assert(init[i] == gs[i]);
        }
        lemma_deletions_and_keepers(init, root);
        lemma_group_deletions(g, root);
        let rest = keep_order(g).drop_first().map_values(
            |r: CleanupRow| (r.id, absolute_spec(root, r.file_path@)),
        );
        let kp = row_pair(root, keep_order(g)[0]);
        assert(deletions_spec(gs, root) == deletions_spec(init, root) + rest);
        lemma_multiset_commutative(deletions_spec(init, root), rest);
        assert(keeper_pairs(gs, root) =~= keeper_pairs(init, root).push(kp));
        to_multiset_build(keeper_pairs(init, root), kp);
        assert(gs =~= init.push(g));
        init.lemma_flatten_push(g);
        assert(pairs_of(gs.flatten(), root) =~= pairs_of(init.flatten(), root) + pairs_of(g, root));
        lemma_multiset_commutative(pairs_of(init.flatten(), root), pairs_of(g, root));
    }
}

/// A real clean-up trashes every copy but the keepers: over all groups, the
/// copies sent to the trash together with the kept copies are exactly the rows,
/// each `(media id, path on disk)` as often as the rows hold it; one copy per
/// group is kept, so the trash receives one copy fewer than each group holds.
pub proof fn law_real_cleanup_trashes_all_but_keepers(rows: Seq<CleanupRow>, root: Seq<char>)
    ensures
        deletions_spec(cleanup_groups(rows), root).to_multiset().add(
            keeper_pairs(cleanup_groups(rows), root).to_multiset(),
        ) == pairs_of(rows, root).to_multiset(),
        deletions_spec(cleanup_groups(rows), root).len() == rows.len() - cleanup_groups(rows).len(),
{
    broadcast use vstd::multiset::group_multiset_axioms;

    let gs = cleanup_groups(rows);
    law_runs_partition(rows, |r: CleanupRow| cleanup_key(r));
    assert(groups_nonempty(gs));
    lemma_deletions_and_keepers(gs, root);
    let d = deletions_spec(gs, root);
    let k = keeper_pairs(gs, root);
    let m = pairs_of(rows, root);
    to_multiset_len(d);
    to_multiset_len(k);
    to_multiset_len(m);
    assert(d.to_multiset().add(k.to_multiset()).len() == d.len() + k.len());
}

/// What a clean-up does or, for a dry run, would do: its counters and previews,
/// and the copies to send to the trash (none for a dry run).
pub struct CleanupPlan {
    pub result: CleanupResult,
    pub to_delete: Vec<(i64, String)>,
}

pub open spec fn pair_view(p: (i64, String)) -> (i64, Seq<char>) {
    (p.0, p.1@)
}

/// Plans the clean-up of duplicate groups from their rows, ordered by group id.
/// In each group the copy to keep is the first in keep order (an album-backed copy
/// first, then the lowest id); every other copy goes. A dry run previews at most the
/// first hundred groups and removes nothing.
pub fn plan_cleanup(rows: Vec<CleanupRow>, root: &str, dry_run: bool) -> (plan: CleanupPlan)
    requires
        rows@.len() <= i64::MAX,
        freed_sums_fit(cleanup_groups(rows@)),
    ensures
        ({
            let gs = cleanup_groups(rows@);
            &&& plan.result.dry_run == dry_run
            &&& plan.result.groups_eligible == gs.len()
            &&& plan.result.groups_skipped == 0
            &&& plan.result.files_deleted == total_removed(gs)
            &&& plan.result.files_deleted == rows@.len() - gs.len()
            &&& plan.result.bytes_freed == total_freed(gs)
            &&& dry_run ==> plan.result.preview@.map_values(|p: CleanupPreviewItem| preview_view(p))
                == previews_spec(gs, root@)
            &&& dry_run ==> plan.to_delete@.len() == 0
            &&& !dry_run ==> plan.result.preview@.len() == 0
            &&& !dry_run ==> plan.to_delete@.map_values(|p: (i64, String)| pair_view(p))
                == deletions_spec(gs, root@)
            &&& !dry_run ==> plan.to_delete@.len() == rows@.len() - gs.len()
            &&& !dry_run ==> plan.to_delete@.map_values(|p: (i64, String)| pair_view(p)).to_multiset().add(
                keeper_pairs(gs, root@).to_multiset(),
            ) == pairs_of(rows@, root@).to_multiset()
        }),
{
    let ghost gs = cleanup_groups(rows@);
    proof {
        law_runs_partition(rows@, |r: CleanupRow| cleanup_key(r));
        lemma_totals_bounded(gs);
        law_real_cleanup_trashes_all_but_keepers(rows@, root@);
    }
    let groups = group_cleanup_rows(rows);
    proof {
        assert(groups@.len() == gs.len());
    }
    let mut groups_eligible: i64 = 0;
    let groups_skipped: i64 = 0;
    let mut files_deleted: i64 = 0;
    let mut bytes_freed: i64 = 0;
    let mut preview: Vec<CleanupPreviewItem> = Vec::new();
    let mut to_delete: Vec<(i64, String)> = Vec::new();
    for g in it: groups.into_iter()
        invariant
            it.seq() == groups@,
            it.seq().map_values(|v: Vec<CleanupRow>| v@) == gs,
            gs.len() <= i64::MAX,
            groups_nonempty(gs),
            freed_sums_fit(gs),
            forall|i: int|
                0 <= i <= gs.len() ==> 0 <= total_removed(#[trigger] gs.take(i)) <= i64::MAX,
            groups_eligible == it.index(),
            files_deleted == total_removed(gs.take(it.index() as int)),
            bytes_freed == total_freed(gs.take(it.index() as int)),
            dry_run ==> preview@.map_values(|p: CleanupPreviewItem| preview_view(p)) == gs.take(
                it.index() as int,
            ).take(if it.index() < 100 {
                it.index() as int
            } else {
                100
            }).map_values(|run: Seq<CleanupRow>| preview_spec(run, root@)),
            dry_run ==> to_delete@.len() == 0,
            !dry_run ==> preview@.len() == 0,
            !dry_run ==> to_delete@.map_values(|p: (i64, String)| pair_view(p)) == deletions_spec(
                gs.take(it.index() as int),
                root@,
            ),
    {
        let ghost i = it.index() as int;
        let ghost run = gs[i];
        proof {
            assert(it.seq().map_values(|v: Vec<CleanupRow>| v@)[i] == g@);
            assert(g@ == run);
            assert(run.len() > 0);
            lemma_keep_order_len(run);
            assert(gs.take(i + 1).drop_last() =~= gs.take(i));
            assert(gs.take(i + 1).last() == run);
        }
        let sorted = keep_order_exec(g);
        let n = sorted.len();
        let ghost rest = sorted@.drop_first();
        let mut group_bytes: i128 = 0;
        let mut paths: Vec<String> = Vec::new();
        let mut pairs: Vec<(i64, String)> = Vec::new();
        let mut j: usize = 1;
        while j < n
            invariant
                n == sorted@.len(),
                n > 0,
                1 <= j <= n,
                rest == sorted@.drop_first(),
                n <= usize::MAX,
                group_bytes == size_sum(rest.take(j - 1)),
                paths@.map_values(|s: String| s@) == rest.take(j - 1).map_values(
                    |r: CleanupRow| absolute_spec(root@, r.file_path@),
                ),
                pairs@.map_values(|p: (i64, String)| pair_view(p)) == rest.take(j - 1).map_values(
                    |r: CleanupRow| (r.id, absolute_spec(root@, r.file_path@)),
                ),
            decreases n - j,
        {
            let a = to_absolute(root, sorted[j].file_path.as_str());
            let ghost old_paths = paths@;
            let ghost old_pairs = pairs@;
            proof {
                assert(rest.take(j as int).drop_last() =~= rest.take(j - 1));
                assert(rest.take(j as int).last() == sorted@[j as int]);
                lemma_size_sum_bound(rest.take(j - 1));
                assert((j - 1) * 0x8000_0000_0000_0000 <= 0xffff_ffff_ffff_fffe * 0x8000_0000_0000_0000);
            }
            group_bytes = group_bytes + sorted[j].file_size as i128;
            paths.push(a.clone());
            pairs.push((sorted[j].id, a));
            j = j + 1;
            proof {
                let fp = |r: CleanupRow| absolute_spec(root@, r.file_path@);
                let fq = |r: CleanupRow| (r.id, absolute_spec(root@, r.file_path@));
                let x = rest[j - 2];
                assert(rest.take(j - 1) == rest.take(j - 2).push(x));
                lemma_map_push(rest.take(j - 2), x, fp);
                lemma_map_push(rest.take(j - 2), x, fq);
                lemma_map_push(old_paths, paths@.last(), |s: String| s@);
                lemma_map_push(old_pairs, pairs@.last(), |p: (i64, String)| pair_view(p));
                assert(paths@ == old_paths.push(paths@.last()));
                assert(pairs@ == old_pairs.push(pairs@.last()));
            }
        }
        proof {
            assert(rest.take(n - 1) =~= rest);
            assert(group_bytes == freed(run));
            assert(i64::MIN <= freed(run) <= i64::MAX);
        }
        let group_bytes: i64 = group_bytes as i64;
        proof {
            assert(gs.take(i + 1).drop_last() == gs.take(i));
            assert(total_freed(gs.take(i + 1)) == total_freed(gs.take(i)) + freed(run));
            assert(i64::MIN <= total_freed(gs.take(i + 1)) <= i64::MAX);
        }
        groups_eligible = groups_eligible + 1;
        files_deleted = files_deleted + (n - 1) as i64;
        bytes_freed = bytes_freed + group_bytes;
        if dry_run {
            if preview.len() < 100 {
                let item = CleanupPreviewItem {
                    file_name: sorted[0].file_name.clone(),
                    kept_path: to_absolute(root, sorted[0].file_path.as_str()),
                    deleted_paths: paths,
                    bytes_freed: group_bytes,
                };
                proof {
                    assert(preview_view(item) == preview_spec(run, root@));
                }
                preview.push(item);
            }
        } else {
            to_delete.append(&mut pairs);
        }
        proof {
            let k = i + 1;
            let lim = if k < 100 {
                k
            } else {
                100
            };
            let lim0 = if i < 100 {
                i
            } else {
                100
            };
            if dry_run {
                let want = gs.take(k).take(lim).map_values(
                    |run: Seq<CleanupRow>| preview_spec(run, root@),
                );
                let old_want = gs.take(i).take(lim0).map_values(
                    |run: Seq<CleanupRow>| preview_spec(run, root@),
                );
                if i < 100 {
                    assert(want =~= old_want.push(preview_spec(run, root@)));
                } else {
                    assert(want =~= old_want);
                }
                assert(preview@.map_values(|p: CleanupPreviewItem| preview_view(p)) =~= want);
            } else {
                assert(deletions_spec(gs.take(k), root@) == deletions_spec(gs.take(i), root@)
                    + keep_order(run).drop_first().map_values(
                    |r: CleanupRow| (r.id, absolute_spec(root@, r.file_path@)),
                ));
                assert(to_delete@.map_values(|p: (i64, String)| pair_view(p)) =~= deletions_spec(
                    gs.take(k),
                    root@,
                ));
            }
        }
    }
    proof {
        assert(gs.take(gs.len() as int) =~= gs);
        let lim = if gs.len() < 100 {
            gs.len() as int
        } else {
            100
        };
        assert(gs.take(gs.len() as int).take(lim) =~= gs.take(lim));
    }
    CleanupPlan {
        result: CleanupResult {
            dry_run,
            groups_eligible,
            groups_skipped,
            files_deleted,
            bytes_freed,
            preview,
        },
        to_delete,
    }
}


} // verus!
