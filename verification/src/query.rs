//! The media search: how search filters become one parameterised SQL query.
use vstd::prelude::*;
use crate::models::SearchFilters;
use crate::text::{chars_of, chars_equal, dec_chars, dec_u64, extend_chars, extend_str, string_from_chars};

verus! {

/// A value bound to a placeholder of the query.
#[derive(Debug)]
pub enum SqlParam {
    Text(String),
    Int(i64),
}

/// A parameter as a mathematical value.
pub enum ParamV {
    Text(Seq<char>),
    Int(i64),
}

pub open spec fn param_view(p: SqlParam) -> ParamV {
    match p {
        SqlParam::Text(s) => ParamV::Text(s@),
        SqlParam::Int(i) => ParamV::Int(i),
    }
}

/// The SQL text and the values of its placeholders `?1, ?2, ...`, in order.
#[derive(Debug)]
pub struct MediaQuery {
    pub sql: String,
    pub params: Vec<SqlParam>,
}

/// One condition of the `WHERE` clause: the text before its placeholder number,
/// the text after it, and the value bound to the placeholder.
pub type Cond = (Seq<char>, Seq<char>, ParamV);

pub open spec fn opt_cond(o: Option<i64>, pre: Seq<char>) -> Seq<Cond> {
    match o {
        Some(v) => seq![(pre, Seq::<char>::empty(), ParamV::Int(v))],
        None => Seq::<Cond>::empty(),
    }
}

/// The text after a condition's placeholder number: `)` closes the subquery of a
/// person condition.
pub open spec fn paren_text(paren: bool) -> Seq<char> {
    if paren {
        seq![')']
    } else {
        Seq::<char>::empty()
    }
}

pub open spec fn person_cond_prefix() -> Seq<char> {
    "EXISTS (SELECT 1 FROM media_people mp WHERE mp.media_id = m.id AND mp.person_id = ?"@
}

/// The conditions that the filters set, in this order: media type, least size,
/// greatest size, earliest date, latest date, album, then one condition per
/// person (a result must show every listed person).
pub open spec fn conditions(f: SearchFilters) -> Seq<Cond> {
    (match f.media_type {
        Some(t) => seq![("m.media_type = ?"@, Seq::<char>::empty(), ParamV::Text(t@))],
        None => Seq::<Cond>::empty(),
    }) + opt_cond(f.min_size_bytes, "m.file_size >= ?"@) + opt_cond(
        f.max_size_bytes,
        "m.file_size <= ?"@,
    ) + opt_cond(f.date_from, "m.photo_taken_ts >= ?"@) + opt_cond(
        f.date_to,
        "m.photo_taken_ts <= ?"@,
    ) + opt_cond(f.album_id, "m.album_id = ?"@) + f.people@.map_values(
        |pid: i64| (person_cond_prefix(), paren_text(true), ParamV::Int(pid)),
    )
}

/// The text of the `k`-th condition (counting from 0): its placeholder is `?{k+1}`.
pub open spec fn clause_text(c: Cond, k: int) -> Seq<char> {
    c.0 + dec_chars((k + 1) as nat) + c.1
}

/// `parts` joined with `sep` between neighbours.
pub open spec fn join(parts: Seq<Seq<char>>, sep: Seq<char>) -> Seq<char>
    decreases parts.len(),
{
    if parts.len() == 0 {
        Seq::<char>::empty()
    } else if parts.len() == 1 {
        parts[0]
    } else {
        join(parts.drop_last(), sep) + sep + parts.last()
    }
}

pub open spec fn clauses(conds: Seq<Cond>) -> Seq<Seq<char>> {
    Seq::new(conds.len(), |k: int| clause_text(conds[k], k))
}

/// `WHERE c1 AND c2 ...`, or nothing when there is no condition.
pub open spec fn where_spec(conds: Seq<Cond>) -> Seq<char> {
    if conds.len() == 0 {
        Seq::<char>::empty()
    } else {
        "WHERE "@ + join(clauses(conds), " AND "@)
    }
}

/// The sort order: `date_asc`, `size_desc`, `size_asc`, else newest first;
/// media without a date come last.
pub open spec fn order_spec(sort_by: Option<Seq<char>>) -> Seq<char> {
    match sort_by {
        Some(s) => if s == "date_asc"@ {
            "m.photo_taken_ts ASC NULLS LAST"@
        } else if s == "size_desc"@ {
            "m.file_size DESC"@
        } else if s == "size_asc"@ {
            "m.file_size ASC"@
        } else {
            "m.photo_taken_ts DESC NULLS LAST"@
        },
        None => "m.photo_taken_ts DESC NULLS LAST"@,
    }
}

pub open spec fn select_head() -> Seq<char> {
    "SELECT m.id, m.file_path, m.file_name, m.file_size, m.media_type, m.photo_taken_ts, m.thumbnail_path, a.title FROM media m LEFT JOIN albums a ON m.album_id = a.id "@
}

pub open spec fn opt_text_view(o: Option<String>) -> Option<Seq<char>> {
    match o {
        Some(s) => Some(s@),
        None => None,
    }
}

/// The SQL of a search: the select, the conditions, the order, then `LIMIT` and
/// `OFFSET` on the two placeholders after those of the conditions.
pub open spec fn query_sql(f: SearchFilters) -> Seq<char> {
    let conds = conditions(f);
    select_head() + where_spec(conds) + " ORDER BY "@ + order_spec(opt_text_view(f.sort_by))
        + " LIMIT ?"@ + dec_chars((conds.len() + 1) as nat) + " OFFSET ?"@ + dec_chars(
        (conds.len() + 2) as nat,
    )
}

/// The placeholder values of a search: those of the conditions, then the limit
/// (100 unless set) and the offset (0 unless set).
pub open spec fn query_params(f: SearchFilters) -> Seq<ParamV> {
    conditions(f).map_values(|c: Cond| c.2) + seq![
        ParamV::Int(
            match f.limit {
                Some(l) => l,
                None => 100,
            },
        ),
        ParamV::Int(
            match f.offset {
                Some(o) => o,
                None => 0,
            },
        ),
    ]
}

/// Every placeholder of a search has its value: the `k`-th condition's clause
/// carries placeholder `?{k+1}` and the `k`-th value is that condition's value;
/// the limit and the offset take the two values after them, on the two
/// placeholders numbered next.
pub proof fn law_placeholders_bound(f: SearchFilters)
    ensures
        query_params(f).len() == conditions(f).len() + 2,
        forall|k: int|
            0 <= k < conditions(f).len() ==> #[trigger] clauses(conditions(f))[k] == conditions(
                f,
            )[k].0 + dec_chars((k + 1) as nat) + conditions(f)[k].1 && query_params(f)[k]
                == conditions(f)[k].2,
        query_params(f)[conditions(f).len() as int] == ParamV::Int(
            match f.limit {
                Some(l) => l,
                None => 100,
            },
        ),
        query_params(f)[conditions(f).len() + 1int] == ParamV::Int(
            match f.offset {
                Some(o) => o,
                None => 0,
            },
        ),
{
}

/// Every filter that is set restricts the search by its own column in its own
/// direction, with its own value: the media type by equality; the least size
/// by `file_size >=` and the greatest by `file_size <=`; the earliest date by
/// `photo_taken_ts >=` and the latest by `photo_taken_ts <=`; the album by
/// equality; and each listed person by a tag of that person. There is one
/// condition per filter that is set and per listed person, and no other.
pub proof fn law_filter_conditions(f: SearchFilters)
    ensures
        f.media_type matches Some(t) ==> conditions(f).contains(
            ("m.media_type = ?"@, Seq::<char>::empty(), ParamV::Text(t@)),
        ),
        f.min_size_bytes matches Some(v) ==> conditions(f).contains(
            ("m.file_size >= ?"@, Seq::<char>::empty(), ParamV::Int(v)),
        ),
        f.max_size_bytes matches Some(v) ==> conditions(f).contains(
            ("m.file_size <= ?"@, Seq::<char>::empty(), ParamV::Int(v)),
        ),
        f.date_from matches Some(v) ==> conditions(f).contains(
            ("m.photo_taken_ts >= ?"@, Seq::<char>::empty(), ParamV::Int(v)),
        ),
        f.date_to matches Some(v) ==> conditions(f).contains(
            ("m.photo_taken_ts <= ?"@, Seq::<char>::empty(), ParamV::Int(v)),
        ),
        f.album_id matches Some(v) ==> conditions(f).contains(
            ("m.album_id = ?"@, Seq::<char>::empty(), ParamV::Int(v)),
        ),
        forall|k: int|
            0 <= k < f.people@.len() ==> conditions(f).contains(
                (
                    "EXISTS (SELECT 1 FROM media_people mp WHERE mp.media_id = m.id AND mp.person_id = ?"@,
                    seq![')'],
                    ParamV::Int(#[trigger] f.people@[k]),
                ),
            ),
        conditions(f).len() == (if f.media_type is Some { 1int } else { 0 }) + (
        if f.min_size_bytes is Some { 1int } else { 0 }) + (if f.max_size_bytes is Some {
            1int
        } else {
            0
        }) + (if f.date_from is Some { 1int } else { 0 }) + (if f.date_to is Some {
            1int
        } else {
            0
        }) + (if f.album_id is Some { 1int } else { 0 }) + f.people@.len(),
{
    let e = Seq::<char>::empty();
    let a = match f.media_type {
        Some(t) => seq![("m.media_type = ?"@, e, ParamV::Text(t@))],
        None => Seq::<Cond>::empty(),
    };
    let b = opt_cond(f.min_size_bytes, "m.file_size >= ?"@);
    let c = opt_cond(f.max_size_bytes, "m.file_size <= ?"@);
    let d = opt_cond(f.date_from, "m.photo_taken_ts >= ?"@);
    let g = opt_cond(f.date_to, "m.photo_taken_ts <= ?"@);
    let h = opt_cond(f.album_id, "m.album_id = ?"@);
    let p = f.people@.map_values(|pid: i64| (person_cond_prefix(), paren_text(true), ParamV::Int(pid)));
    let all = conditions(f);
    assert(all == a + b + c + d + g + h + p);
    let o1 = a.len() as int;
    let o2 = o1 + b.len();
    let o3 = o2 + c.len();
    let o4 = o3 + d.len();
    let o5 = o4 + g.len();
    let o6 = o5 + h.len();
    if f.media_type is Some {
        assert(all[0] == a[0]);
    }
    if f.min_size_bytes is Some {
        assert(all[o1] == b[0]);
    }
    if f.max_size_bytes is Some {
        assert(all[o2] == c[0]);
    }
    if f.date_from is Some {
        assert(all[o3] == d[0]);
    }
    if f.date_to is Some {
        assert(all[o4] == g[0]);
    }
    if f.album_id is Some {
        assert(all[o5] == h[0]);
    }
    assert forall|k: int| 0 <= k < f.people@.len() implies all.contains(
        (
            "EXISTS (SELECT 1 FROM media_people mp WHERE mp.media_id = m.id AND mp.person_id = ?"@,
            seq![')'],
            ParamV::Int(#[trigger] f.people@[k]),
        ),
    ) by {
        assert(all[o6 + k] == p[k]);
        assert(paren_text(true) == seq![')']);
    }
}

/// The clauses and parameters built so far.
struct Builder {
    clauses: Vec<Vec<char>>,
    params: Vec<SqlParam>,
}

impl Builder {
    spec fn wf_for(&self, conds: Seq<Cond>) -> bool {
        &&& self.clauses@.len() == conds.len()
        &&& self.params@.len() == conds.len()
        &&& forall|k: int|
            0 <= k < conds.len() ==> (#[trigger] self.clauses@[k])@ == clause_text(conds[k], k)
        &&& forall|k: int|
            0 <= k < conds.len() ==> param_view(#[trigger] self.params@[k]) == conds[k].2
    }

    fn add(&mut self, pre: &str, paren: bool, p: SqlParam, Ghost(conds): Ghost<Seq<Cond>>)
        requires
            old(self).wf_for(conds),
            conds.len() + 1 <= u64::MAX,
        ensures
            final(self).wf_for(conds.push((pre@, paren_text(paren), param_view(p)))),
    {
        let k = self.clauses.len();
        let mut c = chars_of(pre);
        let n = dec_u64((k as u64) + 1);
        extend_chars(&mut c, n.as_slice());
        if paren {
            c.push(')');
        }
        self.clauses.push(c);
        self.params.push(p);
        proof {
            let nc = conds.push((pre@, paren_text(paren), param_view(p)));
            assert(c@ =~= clause_text(nc[k as int], k as int));
            assert forall|j: int| 0 <= j < nc.len() implies (#[trigger] self.clauses@[j])@
                == clause_text(nc[j], j) by {
                if j < conds.len() {
                    assert(self.clauses@[j] == old(self).clauses@[j]);
                }
            }
            assert forall|j: int| 0 <= j < nc.len() implies param_view(#[trigger] self.params@[j])
                == nc[j].2 by {
                if j < conds.len() {
                    assert(self.params@[j] == old(self).params@[j]);
                }
            }
        }
    }

    fn add_opt(&mut self, pre: &str, v: Option<i64>, Ghost(conds): Ghost<Seq<Cond>>)
        requires
            old(self).wf_for(conds),
            conds.len() + 1 <= u64::MAX,
        ensures
            final(self).wf_for(conds + opt_cond(v, pre@)),
    {
        match v {
            Some(x) => {
                self.add(pre, false, SqlParam::Int(x), Ghost(conds));
                proof {
                    assert(conds.push((pre@, paren_text(false), ParamV::Int(x))) =~= conds + opt_cond(
                        v,
                        pre@,
                    ));
                }
            },
            None => {
                assert(conds + opt_cond(v, pre@) =~= conds);
            },
        }
    }
}

/// The clauses and parameters of the conditions that the filters set.
fn build_conditions(filters: &SearchFilters) -> (b: Builder)
    requires
        filters.people@.len() + 10 <= u64::MAX,
    ensures
        b.wf_for(conditions(*filters)),
        conditions(*filters).len() <= filters.people@.len() + 6,
{
    let ghost f = *filters;
    let mut b = Builder { clauses: Vec::new(), params: Vec::new() };
    let ghost c0 = Seq::<Cond>::empty();
    let ghost c1 = match f.media_type {
        Some(t) => seq![("m.media_type = ?"@, Seq::<char>::empty(), ParamV::Text(t@))],
        None => Seq::<Cond>::empty(),
    };
    match &filters.media_type {
        Some(t) => {
            b.add("m.media_type = ?", false, SqlParam::Text(t.clone()), Ghost(c0));
            proof {
                assert(c0.push(("m.media_type = ?"@, paren_text(false), ParamV::Text(t@))) =~= c1);
            }
        },
        None => {
            assert(c1 =~= c0);
        },
    }
    b.add_opt("m.file_size >= ?", filters.min_size_bytes, Ghost(c1));
    let ghost c2 = c1 + opt_cond(f.min_size_bytes, "m.file_size >= ?"@);
    b.add_opt("m.file_size <= ?", filters.max_size_bytes, Ghost(c2));
    let ghost c3 = c2 + opt_cond(f.max_size_bytes, "m.file_size <= ?"@);
    b.add_opt("m.photo_taken_ts >= ?", filters.date_from, Ghost(c3));
    let ghost c4 = c3 + opt_cond(f.date_from, "m.photo_taken_ts >= ?"@);
    b.add_opt("m.photo_taken_ts <= ?", filters.date_to, Ghost(c4));
    let ghost c5 = c4 + opt_cond(f.date_to, "m.photo_taken_ts <= ?"@);
    b.add_opt("m.album_id = ?", filters.album_id, Ghost(c5));
    let ghost c6 = c5 + opt_cond(f.album_id, "m.album_id = ?"@);
    let mut i: usize = 0;
    while i < filters.people.len()
        invariant
            f == *filters,
            i <= f.people@.len(),
            f.people@.len() + 10 <= u64::MAX,
            c6.len() <= 6,
            b.wf_for(
                c6 + f.people@.take(i as int).map_values(
                    |pid: i64| (person_cond_prefix(), paren_text(true), ParamV::Int(pid)),
                ),
            ),
        decreases f.people@.len() - i,
    {
        let ghost cur = c6 + f.people@.take(i as int).map_values(
            |pid: i64| (person_cond_prefix(), paren_text(true), ParamV::Int(pid)),
        );
        b.add(
            "EXISTS (SELECT 1 FROM media_people mp WHERE mp.media_id = m.id AND mp.person_id = ?",
            true,
            SqlParam::Int(filters.people[i]),
            Ghost(cur),
        );
        proof {
            let nxt = c6 + f.people@.take(i + 1).map_values(
                |pid: i64| (person_cond_prefix(), paren_text(true), ParamV::Int(pid)),
            );
            assert(f.people@.take(i + 1) =~= f.people@.take(i as int).push(f.people@[i as int]));
            assert(nxt =~= cur.push(
                (person_cond_prefix(), paren_text(true), ParamV::Int(f.people@[i as int])),
            ));
        }
        i = i + 1;
    }
    proof {
        assert(f.people@.take(f.people@.len() as int) =~= f.people@);
        assert(conditions(f) =~= c6 + f.people@.map_values(
            |pid: i64| (person_cond_prefix(), paren_text(true), ParamV::Int(pid)),
        ));
    }
    b
}

/// The `WHERE` clause of built conditions.
fn where_text(b: &Builder, Ghost(conds): Ghost<Seq<Cond>>) -> (r: Vec<char>)
    requires
        b.wf_for(conds),
    ensures
        r@ == where_spec(conds),
{
    let n = b.clauses.len();
    let mut sql: Vec<char> = Vec::new();
    if n == 0 {
        assert(sql@ =~= where_spec(conds));
        return sql;
    }
    extend_str(&mut sql, "WHERE ");
    let ghost before = sql@;
    let mut k: usize = 0;
    while k < n
        invariant
            n == b.clauses@.len(),
            n == conds.len(),
            n > 0,
            b.wf_for(conds),
            k <= n,
            before == "WHERE "@,
            sql@ == before + join(clauses(conds).take(k as int), " AND "@),
        decreases n - k,
    {
        if k > 0 {
            extend_str(&mut sql, " AND ");
        }
        extend_chars(&mut sql, b.clauses[k].as_slice());
        proof {
            let cs = clauses(conds);
            let t = cs.take(k + 1);
            assert(t.drop_last() =~= cs.take(k as int));
            assert(t.last() == clause_text(conds[k as int], k as int));
            if k == 0 {
                assert(cs.take(0) =~= Seq::<Seq<char>>::empty());
                assert(t.len() == 1);
            }
            assert(sql@ =~= before + join(t, " AND "@));
        }
        k = k + 1;
    }
    proof {
        assert(clauses(conds).take(n as int) =~= clauses(conds));
    }
    sql
}

/// The `ORDER BY` expression for a sort choice.
pub fn order_text(sort_by: &Option<String>) -> (r: &'static str)
    ensures
        r@ == order_spec(opt_text_view(*sort_by)),
{
    match sort_by {
        Some(s) => {
            let sc = chars_of(s.as_str());
            let da = chars_of("date_asc");
            let sd = chars_of("size_desc");
            let sa = chars_of("size_asc");
            if chars_equal(sc.as_slice(), da.as_slice()) {
                "m.photo_taken_ts ASC NULLS LAST"
            } else if chars_equal(sc.as_slice(), sd.as_slice()) {
                "m.file_size DESC"
            } else if chars_equal(sc.as_slice(), sa.as_slice()) {
                "m.file_size ASC"
            } else {
                "m.photo_taken_ts DESC NULLS LAST"
            }
        },
        None => "m.photo_taken_ts DESC NULLS LAST",
    }
}

/// Builds the SQL query and its parameters for a media search.
pub fn build_media_query(filters: &SearchFilters) -> (q: MediaQuery)
    requires
        filters.people@.len() + 10 <= u64::MAX,
    ensures
        q.sql@ == query_sql(*filters),
        q.params@.map_values(|p: SqlParam| param_view(p)) == query_params(*filters),
{
    let ghost f = *filters;
    let ghost conds = conditions(f);
    let b = build_conditions(filters);
    let w = where_text(&b, Ghost(conds));
    let mut sql = chars_of(
        "SELECT m.id, m.file_path, m.file_name, m.file_size, m.media_type, m.photo_taken_ts, m.thumbnail_path, a.title FROM media m LEFT JOIN albums a ON m.album_id = a.id ",
    );
    extend_chars(&mut sql, w.as_slice());
    extend_str(&mut sql, " ORDER BY ");
    let order = order_text(&filters.sort_by);
    extend_str(&mut sql, order);
    extend_str(&mut sql, " LIMIT ?");
    let n = b.clauses.len();
    let d1 = dec_u64((n as u64) + 1);
    extend_chars(&mut sql, d1.as_slice());
    extend_str(&mut sql, " OFFSET ?");
    let d2 = dec_u64((n as u64) + 2);
    extend_chars(&mut sql, d2.as_slice());
    proof {
        assert(sql@ =~= query_sql(f));
    }
    let limit = match filters.limit {
        Some(l) => l,
        None => 100,
    };
    let offset = match filters.offset {
        Some(o) => o,
        None => 0,
    };
    let mut params = b.params;
    params.push(SqlParam::Int(limit));
    params.push(SqlParam::Int(offset));
    proof {
        assert(params@.map_values(|p: SqlParam| param_view(p)) =~= query_params(f));
    }
    MediaQuery { sql: string_from_chars(sql.as_slice()), params }
}

} // verus!
