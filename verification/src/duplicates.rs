//! Duplicate groups: how rows read from the database are gathered into groups,
//! and which copy of a group a clean-up keeps.
use vstd::prelude::*;
use crate::models::{DuplicateGroup, DuplicateItem};
use crate::text::{parse_i64, parse_i64_spec, trim, trim_chars};

verus! {

/// The maximal runs of consecutive rows that share the same key, in order.
/// A row joins the last run when its key equals the key of that run.
pub open spec fn runs<A>(rows: Seq<A>, key: spec_fn(A) -> i64) -> Seq<Seq<A>>
    decreases rows.len(),
{
    if rows.len() == 0 {
        Seq::<Seq<A>>::empty()
    } else {
        let prev = runs(rows.drop_last(), key);
        let r = rows.last();
        if prev.len() > 0 && key(prev.last()[0]) == key(r) {
            prev.update(prev.len() - 1, prev.last().push(r))
        } else {
            prev.push(seq![r])
        }
    }
}

/// What holds of the runs of any sequence: every run is non-empty, all rows of a
/// run share its key, neighbouring runs have different keys, and the runs put
/// back together give the rows, in their order.
pub open spec fn runs_wf<A>(rows: Seq<A>, key: spec_fn(A) -> i64, gs: Seq<Seq<A>>) -> bool {
    &&& forall|i: int| 0 <= i < gs.len() ==> #[trigger] gs[i].len() > 0
    &&& forall|i: int, j: int|
        0 <= i < gs.len() && 0 <= j < gs[i].len() ==> key(#[trigger] gs[i][j]) == key(gs[i][0])
    &&& forall|i: int|
        0 <= i < gs.len() - 1 ==> key(#[trigger] gs[i][0]) != key(gs[i + 1][0])
    &&& gs.flatten() == rows
}

proof fn lemma_update_last_flatten<A>(gs: Seq<Seq<A>>, r: A)
    requires
        gs.len() > 0,
    ensures
        gs.update(gs.len() - 1, gs.last().push(r)).flatten() == gs.flatten().push(r),
{
    let n = gs.len();
    let init = gs.drop_last();
    assert(gs =~= init.push(gs.last()));
    init.lemma_flatten_push(gs.last());
    assert(gs.update(n - 1, gs.last().push(r)) =~= init.push(gs.last().push(r)));
    init.lemma_flatten_push(gs.last().push(r));
    assert(init.flatten() + gs.last().push(r) =~= (init.flatten() + gs.last()).push(r));
}

/// Grouping rows into runs loses no row, reorders none, and never splits or
/// merges groups wrongly: the runs of `rows` satisfy `runs_wf`.
pub proof fn law_runs_partition<A>(rows: Seq<A>, key: spec_fn(A) -> i64)
    ensures
        runs_wf(rows, key, runs(rows, key)),
    decreases rows.len(),
{
    if rows.len() == 0 {
        assert(runs(rows, key).flatten() =~= rows);
    } else {
        let p = rows.drop_last();
        law_runs_partition(p, key);
        let prev = runs(p, key);
        let r = rows.last();
        let gs = runs(rows, key);
        assert(rows =~= p.push(r));
        if prev.len() > 0 && key(prev.last()[0]) == key(r) {
            lemma_update_last_flatten(prev, r);
            let n = prev.len();
            assert forall|i: int, j: int|
                0 <= i < gs.len() && 0 <= j < gs[i].len() implies key(#[trigger] gs[i][j]) == key(
                gs[i][0]) by {
                if i == n - 1 && j == gs[i].len() - 1 {
                    assert(gs[i][j] == r);
                    assert(gs[i][0] == prev.last()[0]);
                } else if i == n - 1 {
                    assert(gs[i][j] == prev[i][j]);
                    assert(gs[i][0] == prev[i][0]);
                }
            }
            assert forall|i: int| 0 <= i < gs.len() - 1 implies key(#[trigger] gs[i][0]) != key(
                gs[i + 1][0]) by {
                if i + 1 == n - 1 {
                    assert(gs[i + 1][0] == prev[i + 1][0]);
                }
            }
        } else {
            prev.lemma_flatten_push(seq![r]);
            assert(prev.flatten() + seq![r] =~= prev.flatten().push(r));
            let n = prev.len();
            assert forall|i: int, j: int|
                0 <= i < gs.len() && 0 <= j < gs[i].len() implies key(#[trigger] gs[i][j]) == key(
                gs[i][0]) by {
                if i < n {
                    assert(gs[i] == prev[i]);
                }
            }
            assert forall|i: int| 0 <= i < gs.len() - 1 implies key(#[trigger] gs[i][0]) != key(
                gs[i + 1][0]) by {
                if i + 1 == n {
                    assert(gs[i + 1][0] == r);
                    assert(gs[i] == prev.last());
                } else {
                    assert(gs[i] == prev[i]);
                    assert(gs[i + 1] == prev[i + 1]);
                }
            }
        }
    }
}

pub open spec fn dup_row_key(r: (i64, String, DuplicateItem)) -> i64 {
    r.0
}

/// The group formed by one run of rows: its id and match type are those of its
/// first row, its items those of all its rows in order.
pub open spec fn dup_group_of(run: Seq<(i64, String, DuplicateItem)>) -> (
    i64,
    String,
    Seq<DuplicateItem>,
) {
    (run[0].0, run[0].1, run.map_values(|r: (i64, String, DuplicateItem)| r.2))
}

/// The duplicate groups that rows ordered by group id form.
pub open spec fn duplicate_groups_spec(rows: Seq<(i64, String, DuplicateItem)>) -> Seq<
    (i64, String, Seq<DuplicateItem>),
> {
    runs(rows, |r: (i64, String, DuplicateItem)| dup_row_key(r)).map_values(
        |run: Seq<(i64, String, DuplicateItem)>| dup_group_of(run),
    )
}

/// Gathers `(group id, match type, item)` rows, ordered by group id, into groups:
/// consecutive rows with the same group id form one group.
pub fn group_duplicate_rows(rows: Vec<(i64, String, DuplicateItem)>) -> (r: Vec<DuplicateGroup>)
    ensures
        r@.map_values(|g: DuplicateGroup| g@) == duplicate_groups_spec(rows@),
{
    let ghost key = |r: (i64, String, DuplicateItem)| dup_row_key(r);
    let ghost f = |run: Seq<(i64, String, DuplicateItem)>| dup_group_of(run);
    assert(duplicate_groups_spec(rows@) == runs(rows@, key).map_values(f));
    let mut result: Vec<DuplicateGroup> = Vec::new();
    for row in it: rows.into_iter()
        invariant
            it.seq() == rows@,
            key == |r: (i64, String, DuplicateItem)| dup_row_key(r),
            f == |run: Seq<(i64, String, DuplicateItem)>| dup_group_of(run),
            result@.map_values(|g: DuplicateGroup| g@) == runs(
                it.seq().take(it.index() as int),
                key,
            ).map_values(f),
    {
        let ghost pre = it.seq().take(it.index() as int);
        let ghost post = it.seq().take(it.index() + 1);
        let ghost prev = runs(pre, key);
        proof {
            assert(post.drop_last() =~= pre);
            assert(post.last() == row);
            law_runs_partition(pre, key);
        }
        let ghost old_view = result@.map_values(|g: DuplicateGroup| g@);
        let ghost old_result = result@;
        let (gid, mt, item) = row;
        let n = result.len();
        proof {
            assert(old_view == prev.map_values(f));
            assert(old_view.len() == prev.len());
            if n > 0 {
                assert(old_view[n - 1] == f(prev[n - 1]));
                assert(old_view[n - 1] == result@[n - 1]@);
                assert(prev.last() == prev[n - 1]);
            }
            assert(row.0 == gid);
        }
        if n > 0 && result[n - 1].group_id == gid {
            let mut g = result.pop().unwrap();
            g.items.push(item);
            result.push(g);
            proof {
                let last = prev.last();
                assert(post.len() > 0);
                assert(runs(post.drop_last(), key) == prev);
                assert(key(prev.last()[0]) == prev.last()[0].0);
                assert(key(post.last()) == gid);
                assert(prev.last()[0].0 == f(prev[n - 1]).0);
                assert(key(prev.last()[0]) == key(post.last()));
                assert(runs(post, key) == prev.update(n - 1, last.push(row)));
                assert(last.push(row).map_values(|r: (i64, String, DuplicateItem)| r.2) =~= last.map_values(
                    |r: (i64, String, DuplicateItem)| r.2,
                ).push(item));
                assert(last.push(row)[0] == last[0]);
                let nv = result@.map_values(|g: DuplicateGroup| g@);
                let want = runs(post, key).map_values(f);
                assert(result@ == old_result.drop_last().push(g));
                assert(nv.len() == want.len());
                assert forall|i: int| 0 <= i < nv.len() implies nv[i] == want[i] by {
                    if i < n - 1 {
                        assert(result@[i] == old_result[i]);
                        assert(old_view[i] == f(prev[i]));
                        assert(runs(post, key)[i] == prev[i]);
                    } else {
                        assert(runs(post, key)[i] == last.push(row));
                        assert(old_view[i] == f(last));
                    }
                }
                assert(nv =~= want);
            }
        } else {
            let mut items: Vec<DuplicateItem> = Vec::new();
            items.push(item);
            result.push(DuplicateGroup { group_id: gid, match_type: mt, items });
            proof {
                if n > 0 {
                    assert(old_view[n - 1] == f(prev[n - 1]));
                }
                assert(runs(post, key) == prev.push(seq![row]));
                assert(seq![row].map_values(|r: (i64, String, DuplicateItem)| r.2) =~= seq![item]);
                let nv = result@.map_values(|g: DuplicateGroup| g@);
                let want = runs(post, key).map_values(f);
                assert(nv.len() == want.len());
                assert forall|i: int| 0 <= i < nv.len() implies nv[i] == want[i] by {
                    if i < n {
                        assert(result@[i] == old_result[i]);
                        assert(old_view[i] == f(prev[i]));
                        assert(runs(post, key)[i] == prev[i]);
                    } else {
                        assert(runs(post, key)[i] == seq![row]);
                    }
                }
                assert(nv =~= want);
            }
        }
    }
    proof {
        assert(rows@.take(rows@.len() as int) =~= rows@);
    }
    result
}


/// The pieces of `s` between separators, as `str::split` with a `char` gives them
/// (an empty string gives one empty piece).
pub open spec fn split_on(s: Seq<char>, sep: char) -> Seq<Seq<char>>
    decreases s.len(),
{
    if s.len() == 0 {
        seq![Seq::<char>::empty()]
    } else {
        let pre = split_on(s.drop_last(), sep);
        if s.last() == sep {
            pre.push(Seq::<char>::empty())
        } else {
            pre.update(pre.len() - 1, pre.last().push(s.last()))
        }
    }
}

proof fn lemma_split_nonempty(s: Seq<char>, sep: char)
    ensures
        split_on(s, sep).len() > 0,
    decreases s.len(),
{
    if s.len() > 0 {
        lemma_split_nonempty(s.drop_last(), sep);
    }
}

/// The ids that the pieces denote, in order; a piece that is not an integer once
/// trimmed is skipped.
pub open spec fn parsed_ids(parts: Seq<Seq<char>>) -> Seq<i64>
    decreases parts.len(),
{
    if parts.len() == 0 {
        Seq::<i64>::empty()
    } else {
        parsed_ids(parts.drop_last()) + match parse_i64_spec(trim(parts.last())) {
            Some(v) => seq![v],
            None => Seq::<i64>::empty(),
        }
    }
}

/// The media ids in a comma-separated list such as SQLite's `GROUP_CONCAT` writes.
pub open spec fn ids_of(s: Seq<char>) -> Seq<i64> {
    parsed_ids(split_on(s, ','))
}

/// Parses a comma-separated list of media ids; pieces that are not integers are skipped.
pub fn parse_id_list(s: &str) -> (r: Vec<i64>)
    ensures
        r@ == ids_of(s@),
{
    let mut ids: Vec<i64> = Vec::new();
    let mut cur: Vec<char> = Vec::new();
    for c in it: s.chars()
        invariant
            it.seq() == s@,
            split_on(it.seq().take(it.index() as int), ',').len() > 0,
            split_on(it.seq().take(it.index() as int), ',').last() == cur@,
            ids@ == parsed_ids(split_on(it.seq().take(it.index() as int), ',').drop_last()),
    {
        let ghost pre = it.seq().take(it.index() as int);
        let ghost post = it.seq().take(it.index() + 1);
        let ghost sp = split_on(pre, ',');
        proof {
            assert(post.drop_last() =~= pre);
            assert(post.last() == c);
        }
        if c == ',' {
            let t = trim_chars(cur.as_slice());
            match parse_i64(t.as_slice()) {
                Some(v) => {
                    ids.push(v);
                },
                None => {},
            }
            cur = Vec::new();
            proof {
                let sq = split_on(post, ',');
                assert(sq == sp.push(Seq::<char>::empty()));
                assert(sq.drop_last() =~= sp);
                assert(sp.drop_last().push(sp.last()) =~= sp);
                assert(parsed_ids(sp) == parsed_ids(sp.drop_last()) + match parse_i64_spec(
                    trim(sp.last()),
                ) {
                    Some(v) => seq![v],
                    None => Seq::<i64>::empty(),
                });
                assert(ids@ =~= parsed_ids(sq.drop_last()));
                assert(cur@ =~= Seq::<char>::empty());
            }
        } else {
            cur.push(c);
            proof {
                let sq = split_on(post, ',');
                assert(sq == sp.update(sp.len() - 1, sp.last().push(c)));
                assert(sq.drop_last() =~= sp.drop_last());
            }
        }
    }
    let t = trim_chars(cur.as_slice());
    match parse_i64(t.as_slice()) {
        Some(v) => {
            ids.push(v);
        },
        None => {},
    }
    proof {
        let sp = split_on(s@, ',');
        assert(s@.take(s@.len() as int) =~= s@);
        assert(sp.drop_last().push(sp.last()) =~= sp);
        assert(parsed_ids(sp) == parsed_ids(sp.drop_last()) + match parse_i64_spec(trim(sp.last())) {
            Some(v) => seq![v],
            None => Seq::<i64>::empty(),
        });
        assert(ids@ =~= parsed_ids(sp));
    }
    ids
}

/// How the members of a duplicate group were found to match.
#[derive(Debug, Clone, Copy, PartialEq, Eq, Structural)]
pub enum MatchKind {
    /// Same content hash.
    Hash,
    /// Same EXIF date, camera and dimensions.
    ExifFingerprint,
}

impl MatchKind {
    /// The name stored in the `match_type` column.
    pub fn name(&self) -> (r: &'static str)
        ensures
            *self == MatchKind::Hash ==> r@ == "hash"@,
            *self == MatchKind::ExifFingerprint ==> r@ == "exif_fingerprint"@,
    {
        match self {
            MatchKind::Hash => "hash",
            MatchKind::ExifFingerprint => "exif_fingerprint",
        }
    }
}

/// One membership of a media item in a duplicate group.
#[derive(Debug, Clone, Copy, PartialEq, Eq, Structural)]
pub struct GroupAssignment {
    pub group_id: i64,
    pub media_id: i64,
    pub kind: MatchKind,
}

/// The memberships that rows of id lists give: the rows get consecutive group ids
/// from `first`, and every id of a row joins that row's group.
pub open spec fn assignments_for(rows: Seq<Seq<char>>, first: int, kind: MatchKind) -> Seq<
    GroupAssignment,
>
    decreases rows.len(),
{
    if rows.len() == 0 {
        Seq::<GroupAssignment>::empty()
    } else {
        assignments_for(rows.drop_last(), first, kind) + ids_of(rows.last()).map_values(
            |id: i64| GroupAssignment { group_id: (first + rows.len() - 1) as i64, media_id: id, kind },
        )
    }
}

/// Appends the memberships of `rows`, with group ids from `first`.
fn assign_rows(out: &mut Vec<GroupAssignment>, rows: &Vec<String>, first: i64, kind: MatchKind) -> (next: i64)
    requires
        first >= 1,
        first + rows@.len() <= i64::MAX,
    ensures
        next == first + rows@.len(),
        final(out)@ == old(out)@ + assignments_for(rows@.map_values(|s: String| s@), first as int, kind),
{
    let ghost views = rows@.map_values(|s: String| s@);
    let mut gid = first;
    let mut i: usize = 0;
    while i < rows.len()
        invariant
            0 <= i <= rows@.len(),
            views == rows@.map_values(|s: String| s@),
            gid == first + i,
            first + rows@.len() <= i64::MAX,
            out@ == old(out)@ + assignments_for(views.take(i as int), first as int, kind),
        decreases rows@.len() - i,
    {
        let ids = parse_id_list(rows[i].as_str());
        let ghost before = out@;
        let mut k: usize = 0;
        while k < ids.len()
            invariant
                k <= ids@.len(),
                out@ == before + ids@.take(k as int).map_values(
                    |id: i64| GroupAssignment { group_id: gid, media_id: id, kind },
                ),
            decreases ids@.len() - k,
        {
            out.push(GroupAssignment { group_id: gid, media_id: ids[k], kind });
            k = k + 1;
            assert(out@ =~= before + ids@.take(k as int).map_values(
                |id: i64| GroupAssignment { group_id: gid, media_id: id, kind },
            ));
        }
        proof {
            assert(ids@.take(ids@.len() as int) =~= ids@);
            let t = views.take(i + 1);
            assert(t.drop_last() =~= views.take(i as int));
            assert(t.last() == rows@[i as int]@);
            assert(ids@ == ids_of(t.last()));
            assert((first + t.len() - 1) as i64 == gid);
            assert(out@ =~= old(out)@ + assignments_for(t, first as int, kind));
        }
        gid = gid + 1;
        i = i + 1;
    }
    proof {
        assert(views.take(rows@.len() as int) =~= views);
    }
    gid
}

/// The duplicate memberships that a detection run records: each row of
/// same-hash ids forms a group, numbered from 1, then each row of
/// same-EXIF-fingerprint ids forms a group, numbered on from there.
pub fn plan_duplicate_groups(hash_rows: &Vec<String>, exif_rows: &Vec<String>) -> (r: Vec<GroupAssignment>)
    requires
        hash_rows@.len() + exif_rows@.len() < i64::MAX,
    ensures
        r@ == assignments_for(hash_rows@.map_values(|s: String| s@), 1, MatchKind::Hash)
            + assignments_for(
            exif_rows@.map_values(|s: String| s@),
            (1 + hash_rows@.len()) as int,
            MatchKind::ExifFingerprint,
        ),
{
    let mut out: Vec<GroupAssignment> = Vec::new();
    let next = assign_rows(&mut out, hash_rows, 1, MatchKind::Hash);
    assign_rows(&mut out, exif_rows, next, MatchKind::ExifFingerprint);
    proof {
        assert(out@ =~= assignments_for(hash_rows@.map_values(|s: String| s@), 1, MatchKind::Hash)
            + assignments_for(
            exif_rows@.map_values(|s: String| s@),
            (1 + hash_rows@.len()) as int,
            MatchKind::ExifFingerprint,
        ));
    }
    out
}


/// Groups found by the two detection phases never share an id: the memberships
/// of rows numbered from `first` all have the rows' match kind and a group id
/// among the rows' numbers, `first` up to `first + rows.len() - 1`.
pub proof fn law_assignment_group_ids(rows: Seq<Seq<char>>, first: int, kind: MatchKind)
    requires
        1 <= first,
        first + rows.len() <= i64::MAX,
    ensures
        forall|j: int|
            0 <= j < assignments_for(rows, first, kind).len() ==> first <= (
            #[trigger] assignments_for(rows, first, kind)[j]).group_id < first + rows.len()
                && assignments_for(rows, first, kind)[j].kind == kind,
    decreases rows.len(),
{
    if rows.len() > 0 {
        let init = rows.drop_last();
        law_assignment_group_ids(init, first, kind);
        let a = assignments_for(init, first, kind);
        let b = ids_of(rows.last()).map_values(
            |id: i64| GroupAssignment { group_id: (first + rows.len() - 1) as i64, media_id: id, kind },
        );
        let all = assignments_for(rows, first, kind);
        assert(all == a + b);
        assert forall|j: int| 0 <= j < all.len() implies first <= (#[trigger] all[j]).group_id
            < first + rows.len() && all[j].kind == kind by {
            if j < a.len() {
                assert(all[j] == a[j]);
            } else {
                assert(all[j] == b[j - a.len()]);
            }
        }
    }
}

} // verus!
