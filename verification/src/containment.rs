//! Whether a requested path lies inside a folder. Paths are compared by their
//! components once `.` and `..` are resolved, so that a request cannot climb out
//! of a folder it is allowed to read.
use vstd::prelude::*;
use crate::text::{chars_of, chars_equal};

verus! {

/// A path separator: `/`, or `\` as Windows writes it.
pub open spec fn is_sep(c: char) -> bool {
    c == '/' || c == '\\'
}

/// The component that stands for the root of a path that starts with a separator.
pub open spec fn root_component() -> Seq<char> {
    seq!['/']
}

pub open spec fn parent_component() -> Seq<char> {
    seq!['.', '.']
}

/// The components after one more piece of a path is read: an empty piece and
/// `.` add nothing; `..` removes the last named component, stays at the root,
/// and is kept where there is nothing to remove; any other piece is added.
pub open spec fn push_piece(stack: Seq<Seq<char>>, piece: Seq<char>) -> Seq<Seq<char>> {
    if piece.len() == 0 || piece == seq!['.'] {
        stack
    } else if piece == parent_component() {
        if stack.len() > 0 && stack.last() == root_component() {
            stack
        } else if stack.len() > 0 && stack.last() != parent_component() {
            stack.drop_last()
        } else {
            stack.push(piece)
        }
    } else {
        stack.push(piece)
    }
}

/// The components read so far from `s`, starting from `init`, and the piece
/// being read.
pub open spec fn read_from(init: Seq<Seq<char>>, s: Seq<char>) -> (Seq<Seq<char>>, Seq<char>)
    decreases s.len(),
{
    if s.len() == 0 {
        (init, Seq::<char>::empty())
    } else {
        let prev = read_from(init, s.drop_last());
        if is_sep(s.last()) {
            (push_piece(prev.0, prev.1), Seq::<char>::empty())
        } else {
            (prev.0, prev.1.push(s.last()))
        }
    }
}

pub open spec fn initial_components(s: Seq<char>) -> Seq<Seq<char>> {
    if s.len() > 0 && is_sep(s[0]) {
        seq![root_component()]
    } else {
        Seq::<Seq<char>>::empty()
    }
}

/// The components of a path with `.` and `..` resolved: the root first when the
/// path starts with a separator, then its named components.
pub open spec fn path_components(s: Seq<char>) -> Seq<Seq<char>> {
    let r = read_from(initial_components(s), s);
    push_piece(r.0, r.1)
}

/// Whether `path` lies inside `base`: the components of `base` begin those of `path`.
pub open spec fn is_within(path: Seq<char>, base: Seq<char>) -> bool {
    let b = path_components(base);
    let p = path_components(path);
    b.len() <= p.len() && p.take(b.len() as int) == b
}

pub open spec fn views(v: Seq<Vec<char>>) -> Seq<Seq<char>> {
    v.map_values(|x: Vec<char>| x@)
}

fn push_piece_exec(stack: &mut Vec<Vec<char>>, piece: Vec<char>)
    ensures
        views(final(stack)@) == push_piece(views(old(stack)@), piece@),
{
    let ghost before = views(stack@);
    let dot = vec!['.'];
    let parent = vec!['.', '.'];
    let root = vec!['/'];
    assert(parent@ =~= parent_component());
    assert(root@ =~= root_component());
    assert(dot@ =~= seq!['.']);
    if piece.len() == 0 || chars_equal(piece.as_slice(), dot.as_slice()) {
        return;
    }
    let n = stack.len();
    if chars_equal(piece.as_slice(), parent.as_slice()) {
        if n > 0 {
            assert(before.last() == stack@[n - 1]@);
        }
        if n > 0 && chars_equal(stack[n - 1].as_slice(), root.as_slice()) {
            return;
        }
        if n > 0 && !chars_equal(stack[n - 1].as_slice(), parent.as_slice()) {
            stack.pop();
            assert(views(stack@) =~= before.drop_last());
            return;
        }
    }
    stack.push(piece);
    assert(views(stack@) =~= before.push(piece@));
}

/// The components of a path with `.` and `..` resolved.
pub fn path_components_exec(s: &str) -> (r: Vec<Vec<char>>)
    ensures
        views(r@) == path_components(s@),
{
    let v = chars_of(s);
    let mut stack: Vec<Vec<char>> = Vec::new();
    if v.len() > 0 && (v[0] == '/' || v[0] == '\\') {
        let root = vec!['/'];
        assert(root@ =~= root_component());
        stack.push(root);
        assert(views(stack@) =~= seq![root_component()]);
    }
    let ghost init = initial_components(s@);
    assert(views(stack@) =~= init);
    let mut cur: Vec<char> = Vec::new();
    let mut i: usize = 0;
    while i < v.len()
        invariant
            v@ == s@,
            i <= v@.len(),
            init == initial_components(s@),
            (views(stack@), cur@) == read_from(init, v@.take(i as int)),
        decreases v@.len() - i,
    {
        let c = v[i];
        proof {
            assert(v@.take(i + 1).drop_last() =~= v@.take(i as int));
            assert(v@.take(i + 1).last() == c);
        }
        if c == '/' || c == '\\' {
            let piece = cur;
            cur = Vec::new();
            push_piece_exec(&mut stack, piece);
            assert(cur@ =~= Seq::<char>::empty());
        } else {
            cur.push(c);
        }
        i = i + 1;
    }
    assert(v@.take(v@.len() as int) =~= v@);
    push_piece_exec(&mut stack, cur);
    stack
}

/// Decides whether `path` lies inside `base`, with `.` and `..` resolved in both.
pub fn path_within(path: &str, base: &str) -> (r: bool)
    ensures
        r == is_within(path@, base@),
{
    let p = path_components_exec(path);
    let b = path_components_exec(base);
    let ghost pv = views(p@);
    let ghost bv = views(b@);
    if b.len() > p.len() {
        return false;
    }
    let mut k: usize = 0;
    while k < b.len()
        invariant
            b@.len() <= p@.len(),
            k <= b@.len(),
            pv == views(p@),
            bv == views(b@),
            pv == path_components(path@),
            bv == path_components(base@),
            pv.take(k as int) == bv.take(k as int),
        decreases b@.len() - k,
    {
        assert(pv[k as int] == p@[k as int]@);
        assert(bv[k as int] == b@[k as int]@);
        if !chars_equal(p[k].as_slice(), b[k].as_slice()) {
            assert(pv.take(bv.len() as int)[k as int] == pv[k as int]);
            assert(pv.take(bv.len() as int)[k as int] != bv[k as int]);
            assert(pv.take(bv.len() as int) != bv);
            return false;
        }
        assert(pv.take(k + 1) =~= pv.take(k as int).push(pv[k as int]));
        assert(bv.take(k + 1) =~= bv.take(k as int).push(bv[k as int]));
        k = k + 1;
    }
    assert(bv.take(bv.len() as int) =~= bv);
    true
}

proof fn lemma_rooted_stack(s: Seq<char>)
    ensures
        ({
            let r = read_from(seq![root_component()], s);
            &&& r.0.len() >= 1
            &&& r.0[0] == root_component()
            &&& forall|k: int| 1 <= k < r.0.len() ==> #[trigger] r.0[k] != parent_component()
                && r.0[k] != root_component()
            &&& forall|k: int| 0 <= k < r.1.len() ==> !is_sep(#[trigger] r.1[k])
        }),
    decreases s.len(),
{
    if s.len() > 0 {
        lemma_rooted_stack(s.drop_last());
        let prev = read_from(seq![root_component()], s.drop_last());
        if is_sep(s.last()) {
            lemma_push_rooted(prev.0, prev.1);
        } else {
            let c = prev.1.push(s.last());
            assert forall|k: int| 0 <= k < c.len() implies !is_sep(#[trigger] c[k]) by {
                if k < prev.1.len() {
                    assert(c[k] == prev.1[k]);
                }
            }
        }
    }
}

proof fn lemma_push_rooted(st: Seq<Seq<char>>, piece: Seq<char>)
    requires
        st.len() >= 1,
        st[0] == root_component(),
        forall|k: int| 1 <= k < st.len() ==> #[trigger] st[k] != parent_component() && st[k]
            != root_component(),
        forall|k: int| 0 <= k < piece.len() ==> !is_sep(#[trigger] piece[k]),
    ensures
        ({
            let t = push_piece(st, piece);
            &&& t.len() >= 1
            &&& t[0] == root_component()
            &&& forall|k: int| 1 <= k < t.len() ==> #[trigger] t[k] != parent_component() && t[k]
                != root_component()
        }),
{
    if piece.len() > 0 && piece != seq!['.'] {
        if piece != parent_component() {
            assert(piece != root_component()) by {
                assert(!is_sep(piece[0]));
            }
            let t = st.push(piece);
            assert forall|k: int| 1 <= k < t.len() implies #[trigger] t[k] != parent_component()
                && t[k] != root_component() by {
                if k < st.len() {
                    assert(t[k] == st[k]);
                }
            }
        } else if st.last() != root_component() {
            assert(st.len() >= 2);
            let t = st.drop_last();
            assert forall|k: int| 1 <= k < t.len() implies #[trigger] t[k] != parent_component()
                && t[k] != root_component() by {
                assert(t[k] == st[k]);
            }
        }
    }
}

/// A path that starts with a separator cannot climb above its root: once `.`
/// and `..` are resolved it starts with the root and holds no `..` component,
/// so a path inside a folder names only components below that folder.
pub proof fn law_rooted_path_has_no_parent_steps(s: Seq<char>)
    requires
        s.len() > 0,
        is_sep(s[0]),
    ensures
        path_components(s).len() >= 1,
        path_components(s)[0] == root_component(),
        forall|k: int|
            0 <= k < path_components(s).len() ==> #[trigger] path_components(s)[k]
                != parent_component(),
{
    assert(initial_components(s) == seq![root_component()]);
    lemma_rooted_stack(s);
    let r = read_from(seq![root_component()], s);
    lemma_push_rooted(r.0, r.1);
    let t = path_components(s);
    assert forall|k: int| 0 <= k < t.len() implies #[trigger] t[k] != parent_component() by {
        if k == 0 {
            assert(t[0] == root_component());
            assert(root_component() != parent_component()) by {
                assert(root_component().len() != parent_component().len());
            }
        }
    }
}

/// Whether the local file protocol may serve `path`: one inside the application's
/// data folder, or one inside the library folder once a library was chosen (an
/// empty library root allows nothing). `.` and `..` are resolved first, so a
/// request cannot leave these folders.
pub fn access_allowed(path: &str, data_dir: &str, library_root: &str) -> (r: bool)
    ensures
        r == (is_within(path@, data_dir@) || (library_root@.len() > 0 && is_within(
            path@,
            library_root@,
        ))),
{
    let root = chars_of(library_root);
    path_within(path, data_dir) || (root.len() > 0 && path_within(path, library_root))
}

} // verus!
