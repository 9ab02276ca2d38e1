//! The query engine: pure, eager functions computing derived views from a
//! dataset snapshot. Nothing here touches the live store; every function
//! recomputes from scratch over the rows it is handed.

use vstd::prelude::*;
use vstd::seq_lib::*;
use crate::record::{Record, opt_text_view, category_of, name_of, clone_opt_text, opt_text_is};

verus! {

// ---------------------------------------------------------------------------
// Raw rows
// ---------------------------------------------------------------------------

/// One row of the raw dump: the record as an ordered field-name/value list,
/// with `None` standing for an explicit null (never an omitted field).
pub struct RawRow {
    pub fields: Vec<(String, Option<String>)>,
}

/// The value of one emitted field, as text.
pub open spec fn raw_field_view(p: (String, Option<String>)) -> (Seq<char>, Option<Seq<char>>) {
    (p.0@, opt_text_view(p.1))
}

/// The content of a raw row: its field names and values, in order.
pub open spec fn raw_row_view(rr: RawRow) -> Seq<(Seq<char>, Option<Seq<char>>)> {
    rr.fields@.map_values(|p: (String, Option<String>)| raw_field_view(p))
}

/// The five named fields a record contributes to the raw dump.
pub open spec fn raw_of(r: Record) -> Seq<(Seq<char>, Option<Seq<char>>)> {
    seq![
        ("country"@, opt_text_view(r.country)),
        ("category"@, opt_text_view(r.category)),
        ("currency"@, opt_text_view(r.currency)),
        ("name"@, opt_text_view(r.name)),
        ("type"@, opt_text_view(r.kind)),
    ]
}

/// What `raw_rows` returns: one row per record, in the dataset's order,
/// each carrying exactly the record's five fields.
pub open spec fn raw_rows_post(rows: Seq<Record>, out: Seq<RawRow>) -> bool {
    &&& out.len() == rows.len()
    &&& forall|i: int| 0 <= i < rows.len() ==> #[trigger] raw_row_view(out[i]) == raw_of(rows[i])
}

fn raw_row_of(r: &Record) -> (rr: RawRow)
    ensures
        raw_row_view(rr) == raw_of(*r),
{
    let fields: Vec<(String, Option<String>)> = vec![
        ("country".to_owned(), clone_opt_text(&r.country)),
        ("category".to_owned(), clone_opt_text(&r.category)),
        ("currency".to_owned(), clone_opt_text(&r.currency)),
        ("name".to_owned(), clone_opt_text(&r.name)),
        ("type".to_owned(), clone_opt_text(&r.kind)),
    ];
    let rr = RawRow { fields };
    proof {
        assert(raw_row_view(rr) =~= raw_of(*r));
    }
    rr
}

/// Every record as an explicit field-name/value mapping, preserving the
/// dataset's order; null fields appear with an explicit `None` value.
pub fn raw_rows(rows: &Vec<Record>) -> (out: Vec<RawRow>)
    ensures
        raw_rows_post(rows@, out@),
{
    let mut out: Vec<RawRow> = Vec::new();
    let n = rows.len();
    for i in 0..n
        invariant
            n == rows.len(),
            out@.len() == i,
            forall|j: int| 0 <= j < i ==> #[trigger] raw_row_view(out@[j]) == raw_of(rows@[j]),
    {
        out.push(raw_row_of(&rows[i]));
    }
    out
}

/// Law: `raw_rows` preserves the row count, its rows carry exactly the
/// source records' fields, and any two results computed over the same
/// snapshot have identical content — the view is a pure function of the
/// dataset.
pub proof fn lemma_raw_rows_pure(rows: Seq<Record>, a: Seq<RawRow>, b: Seq<RawRow>)
    requires
        raw_rows_post(rows, a),
        raw_rows_post(rows, b),
    ensures
        a.len() == rows.len(),
        b.len() == rows.len(),
        forall|i: int| 0 <= i < rows.len() ==> #[trigger] raw_row_view(a[i]) == raw_row_view(b[i]),
{
}

// ---------------------------------------------------------------------------
// Filtered unique names
// ---------------------------------------------------------------------------

/// The names of the rows whose category is exactly `c`, in row order,
/// with null names dropped.
pub open spec fn names_matching(rows: Seq<Record>, c: Seq<char>) -> Seq<Seq<char>>
    decreases rows.len(),
{
    if rows.len() == 0 {
        Seq::empty()
    } else {
        let rest = names_matching(rows.drop_last(), c);
        if category_of(rows.last()) == Some(c) {
            match name_of(rows.last()) {
                Some(n) => rest.push(n),
                None => rest,
            }
        } else {
            rest
        }
    }
}

/// First-occurrence deduplication: each value keeps its first position and
/// later repetitions are dropped.
pub open spec fn dedup_first(s: Seq<Seq<char>>) -> Seq<Seq<char>>
    decreases s.len(),
{
    if s.len() == 0 {
        Seq::empty()
    } else {
        let d = dedup_first(s.drop_last());
        if d.contains(s.last()) {
            d
        } else {
            d.push(s.last())
        }
    }
}

/// What `unique_names_where_category` returns.
pub open spec fn unique_names_spec(rows: Seq<Record>, c: Seq<char>) -> Seq<Seq<char>> {
    dedup_first(names_matching(rows, c))
}

/// Whether the names already collected contain the given text.
fn names_contain(out: &Vec<String>, n: &String) -> (b: bool)
    ensures
        b == out@.map_values(|s: String| s@).contains(n@),
{
    let ghost view = out@.map_values(|s: String| s@);
    let m = out.len();
    for j in 0..m
        invariant
            m == out.len(),
            view == out@.map_values(|s: String| s@),
            forall|k: int| 0 <= k < j ==> #[trigger] view[k] != n@,
    {
        if out[j] == *n {
            assert(view[j as int] == n@);
            return true;
        }
    }
    false
}

/// Filters the rows whose `category` equals `category` (exact, case-sensitive
/// match), projects the `name` field, drops nulls, and deduplicates while
/// preserving first-occurrence order.
pub fn unique_names_where_category(rows: &Vec<Record>, category: &str) -> (out: Vec<String>)
    ensures
        out@.map_values(|s: String| s@) == unique_names_spec(rows@, category@),
{
    let cat: String = category.to_owned();
    let mut out: Vec<String> = Vec::new();
    let n = rows.len();
    for i in 0..n
        invariant
            n == rows.len(),
            cat@ == category@,
            out@.map_values(|s: String| s@) == unique_names_spec(rows@.take(i as int), category@),
    {
        let ghost prefix = rows@.take(i as int);
        let ghost next = rows@.take(i + 1 as int);
        let ghost ns_pre = names_matching(prefix, category@);
        proof {
            assert(next.drop_last() =~= prefix);
            assert(next.last() == rows@[i as int]);
        }
        let r = &rows[i];
        if opt_text_is(&r.category, &cat) {
            match &r.name {
                Some(nm) => {
                    proof {
                        assert(names_matching(next, category@) == ns_pre.push(nm@));
                        assert(ns_pre.push(nm@).drop_last() =~= ns_pre);
                    }
                    if !names_contain(&out, nm) {
                        let ghost before = out@.map_values(|s: String| s@);
                        out.push(nm.clone());
                        proof {
                            assert(out@.map_values(|s: String| s@) =~= before.push(nm@));
                        }
                    }
                },
                None => {
                    proof {
                        assert(names_matching(next, category@) == ns_pre);
                    }
                },
            }
        } else {
            proof {
                assert(names_matching(next, category@) == ns_pre);
            }
        }
    }
    proof {
        assert(rows@.take(n as int) =~= rows@);
    }
    out
}

/// Whether some row carries the matching category and the given name.
pub open spec fn row_has_name(rows: Seq<Record>, c: Seq<char>, x: Seq<char>) -> bool {
    exists|i: int|
        0 <= i < rows.len() && category_of(#[trigger] rows[i]) == Some(c) && name_of(rows[i])
            == Some(x)
}

/// Law: the filtered unique-name list never holds a value twice, and every
/// value it holds is the name of at least one row whose category matches.
pub proof fn lemma_unique_names_law(rows: Seq<Record>, c: Seq<char>)
    ensures
        forall|i: int, j: int|
            0 <= i < j < unique_names_spec(rows, c).len()
                ==> unique_names_spec(rows, c)[i] != unique_names_spec(rows, c)[j],
        forall|k: int|
            0 <= k < unique_names_spec(rows, c).len()
                ==> row_has_name(rows, c, #[trigger] unique_names_spec(rows, c)[k]),
{
    let ns = names_matching(rows, c);
    let d = dedup_first(ns);
    lemma_dedup_first_distinct(ns);
    lemma_dedup_first_elements(ns);
    assert forall|k: int| 0 <= k < d.len() implies row_has_name(rows, c, #[trigger] d[k]) by {
        assert(ns.contains(d[k]));
        lemma_names_matching_sound(rows, c, d[k]);
    }
}

/// Deduplication leaves no duplicates.
pub proof fn lemma_dedup_first_distinct(s: Seq<Seq<char>>)
    ensures
        forall|i: int, j: int|
            0 <= i < j < dedup_first(s).len() ==> dedup_first(s)[i] != dedup_first(s)[j],
    decreases s.len(),
{
    if s.len() > 0 {
        lemma_dedup_first_elements(s.drop_last());
        lemma_dedup_first_distinct(s.drop_last());
        let d = dedup_first(s.drop_last());
        if !d.contains(s.last()) {
            assert forall|i: int, j: int|
                0 <= i < j < d.push(s.last()).len() implies d.push(s.last())[i] != d.push(
                s.last(),
            )[j] by {
                if j == d.len() {
                    assert(d.contains(d[i]));
                }
            }
        }
    }
}

/// Deduplication keeps exactly the elements of its input.
pub proof fn lemma_dedup_first_elements(s: Seq<Seq<char>>)
    ensures
        forall|x: Seq<char>| dedup_first(s).contains(x) <==> s.contains(x),
    decreases s.len(),
{
    if s.len() > 0 {
        lemma_dedup_first_elements(s.drop_last());
        let d = dedup_first(s.drop_last());
        assert forall|x: Seq<char>| s.contains(x) implies dedup_first(s).contains(x) by {
            let i = choose|i: int| 0 <= i < s.len() && s[i] == x;
            if i < s.len() - 1 {
                assert(s.drop_last()[i] == x);
                assert(s.drop_last().contains(x));
                if !d.contains(s.last()) {
                    let j = choose|j: int| 0 <= j < d.len() && d[j] == x;
                    assert(d.push(s.last())[j] == x);
                }
            } else {
                if d.contains(s.last()) {
                    assert(dedup_first(s).contains(x));
                } else {
                    assert(d.push(s.last())[d.len() as int] == x);
                }
            }
        }
        assert forall|x: Seq<char>| dedup_first(s).contains(x) implies s.contains(x) by {
            if d.contains(x) {
                assert(s.drop_last().contains(x));
                let i = choose|i: int| 0 <= i < s.drop_last().len() && s.drop_last()[i] == x;
                assert(s[i] == x);
            } else {
                let j = choose|j: int| 0 <= j < dedup_first(s).len() && dedup_first(s)[j] == x;
                if j < d.len() {
                    assert(d[j] == x);
                    assert(d.contains(x));
                } else {
                    assert(x == s.last());
                    assert(s[s.len() - 1] == x);
                }
            }
        }
    }
}

// ---------------------------------------------------------------------------
// Grouped counts
// ---------------------------------------------------------------------------

/// One bucket of the grouped view: a category label and how many rows carry it.
pub struct GroupCount {
    pub label: String,
    pub count: usize,
}

/// The category texts of the rows whose category is non-null, in row order.
/// Rows with a null category are assigned to no bucket (the chosen policy:
/// they are excluded from aggregation rather than grouped under a marker).
pub open spec fn cats(rows: Seq<Record>) -> Seq<Seq<char>>
    decreases rows.len(),
{
    if rows.len() == 0 {
        Seq::empty()
    } else {
        let rest = cats(rows.drop_last());
        match category_of(rows.last()) {
            Some(c) => rest.push(c),
            None => rest,
        }
    }
}

/// The position of the first bucket labelled `c`, if any.
pub open spec fn find_label(g: Seq<(Seq<char>, int)>, c: Seq<char>) -> Option<int>
    decreases g.len(),
{
    if g.len() == 0 {
        None
    } else if g[0].0 == c {
        Some(0)
    } else {
        match find_label(g.drop_first(), c) {
            Some(j) => Some(j + 1),
            None => None,
        }
    }
}

/// One observed category folded into the buckets: the first bucket with that
/// label is incremented, or a fresh bucket with count one is appended.
pub open spec fn bump(g: Seq<(Seq<char>, int)>, c: Seq<char>) -> Seq<(Seq<char>, int)> {
    match find_label(g, c) {
        Some(j) => g.update(j, (c, g[j].1 + 1)),
        None => g.push((c, 1)),
    }
}

/// The buckets obtained by folding a category sequence left to right.
pub open spec fn groups_of(cs: Seq<Seq<char>>) -> Seq<(Seq<char>, int)>
    decreases cs.len(),
{
    if cs.len() == 0 {
        Seq::empty()
    } else {
        bump(groups_of(cs.drop_last()), cs.last())
    }
}

/// The label and count a bucket denotes.
pub open spec fn group_view(g: GroupCount) -> (Seq<char>, int) {
    (g.label@, g.count as int)
}

/// The buckets a result vector denotes.
pub open spec fn groups_view(v: Seq<GroupCount>) -> Seq<(Seq<char>, int)> {
    v.map_values(|g: GroupCount| group_view(g))
}

/// The number of occurrences of `c` in `cs`.
pub open spec fn occ(cs: Seq<Seq<char>>, c: Seq<char>) -> int
    decreases cs.len(),
{
    if cs.len() == 0 {
        0
    } else {
        occ(cs.drop_last(), c) + if cs.last() == c {
            1int
        } else {
            0int
        }
    }
}

/// The total of all bucket counts.
pub open spec fn sum_counts(g: Seq<(Seq<char>, int)>) -> int
    decreases g.len(),
{
    if g.len() == 0 {
        0
    } else {
        sum_counts(g.drop_last()) + g.last().1
    }
}

/// Occurrence counts are never negative.
proof fn lemma_occ_nonneg(cs: Seq<Seq<char>>, c: Seq<char>)
    ensures
        occ(cs, c) >= 0,
    decreases cs.len(),
{
    if cs.len() > 0 {
        lemma_occ_nonneg(cs.drop_last(), c);
    }
}

/// The position of the first collected bucket labelled `c`, if any.
fn find_group(out: &Vec<GroupCount>, c: &String) -> (r: Option<usize>)
    ensures
        match r {
            Some(j) => j < out.len() && find_label(groups_view(out@), c@) == Some(j as int),
            None => find_label(groups_view(out@), c@) is None,
        },
{
    let ghost gv = groups_view(out@);
    let m = out.len();
    for j in 0..m
        invariant
            m == out.len(),
            gv == groups_view(out@),
            forall|k: int| 0 <= k < j ==> (#[trigger] gv[k]).0 != c@,
    {
        if out[j].label == *c {
            proof {
                assert(gv[j as int].0 == c@);
                lemma_find_label_at(gv, c@, j as int);
            }
            return Some(j);
        }
    }
    proof {
        lemma_find_label_absent(gv, c@);
    }
    None
}

/// A first match at `j` is what `find_label` returns.
proof fn lemma_find_label_at(g: Seq<(Seq<char>, int)>, c: Seq<char>, j: int)
    requires
        0 <= j < g.len(),
        g[j].0 == c,
        forall|k: int| 0 <= k < j ==> (#[trigger] g[k]).0 != c,
    ensures
        find_label(g, c) == Some(j),
    decreases g.len(),
{
    if j > 0 {
        assert(g[0].0 != c);
        assert(g.drop_first()[j - 1] == g[j]);
        assert forall|k: int| 0 <= k < j - 1 implies (#[trigger] g.drop_first()[k]).0 != c by {
            assert(g.drop_first()[k] == g[k + 1]);
        }
        lemma_find_label_at(g.drop_first(), c, j - 1);
    }
}

/// With no matching label anywhere, `find_label` finds none.
proof fn lemma_find_label_absent(g: Seq<(Seq<char>, int)>, c: Seq<char>)
    requires
        forall|k: int| 0 <= k < g.len() ==> (#[trigger] g[k]).0 != c,
    ensures
        find_label(g, c) is None,
    decreases g.len(),
{
    if g.len() > 0 {
        assert forall|k: int| 0 <= k < g.drop_first().len() implies (#[trigger] g.drop_first()[k]).0
            != c by {
            assert(g.drop_first()[k] == g[k + 1]);
        }
        lemma_find_label_absent(g.drop_first(), c);
    }
}

/// What `find_label` returns is a first match.
proof fn lemma_find_label_sound(g: Seq<(Seq<char>, int)>, c: Seq<char>)
    ensures
        match find_label(g, c) {
            Some(j) => 0 <= j < g.len() && g[j].0 == c && forall|k: int|
                0 <= k < j ==> (#[trigger] g[k]).0 != c,
            None => forall|k: int| 0 <= k < g.len() ==> (#[trigger] g[k]).0 != c,
        },
    decreases g.len(),
{
    if g.len() > 0 && g[0].0 != c {
        lemma_find_label_sound(g.drop_first(), c);
        match find_label(g.drop_first(), c) {
            Some(j) => {
                assert(g.drop_first()[j] == g[j + 1]);
                assert forall|k: int| 0 <= k < j + 1 implies (#[trigger] g[k]).0 != c by {
                    if k > 0 {
                        assert(g.drop_first()[k - 1] == g[k]);
                    }
                }
            },
            None => {
                assert forall|k: int| 0 <= k < g.len() implies (#[trigger] g[k]).0 != c by {
                    if k > 0 {
                        assert(g.drop_first()[k - 1] == g[k]);
                    }
                }
            },
        }
    }
}

/// Partitions the rows by the `category` field's text and returns one
/// (label, count) bucket per distinct non-null value observed, in
/// first-seen order; rows with a null category are excluded.
pub fn group_by_category(rows: &Vec<Record>) -> (out: Vec<GroupCount>)
    ensures
        groups_view(out@) == groups_of(cats(rows@)),
{
    let mut out: Vec<GroupCount> = Vec::new();
    let n = rows.len();
    for i in 0..n
        invariant
            n == rows.len(),
            groups_view(out@) == groups_of(cats(rows@.take(i as int))),
            forall|k: int| 0 <= k < out@.len() ==> (#[trigger] out@[k]).count <= i,
    {
        let ghost prefix = rows@.take(i as int);
        let ghost next = rows@.take(i + 1 as int);
        let ghost cs_pre = cats(prefix);
        proof {
            assert(next.drop_last() =~= prefix);
            assert(next.last() == rows@[i as int]);
        }
        match &rows[i].category {
            Some(c) => {
                proof {
                    assert(cats(next) == cs_pre.push(c@));
                    assert(cs_pre.push(c@).drop_last() =~= cs_pre);
                }
                let ghost gv = groups_view(out@);
                match find_group(&out, c) {
                    Some(j) => {
                        let cnt = out[j].count;
                        proof {
                            lemma_find_label_sound(gv, c@);
                            assert(gv[j as int] == group_view(out@[j as int]));
                        }
                        out.set(j, GroupCount { label: c.clone(), count: cnt + 1 });
                        proof {
                            assert(groups_view(out@) =~= gv.update(
                                j as int,
                                (c@, gv[j as int].1 + 1),
                            ));
                        }
                    },
                    None => {
                        out.push(GroupCount { label: c.clone(), count: 1 });
                        proof {
                            assert(groups_view(out@) =~= gv.push((c@, 1)));
                        }
                    },
                }
            },
            None => {
                proof {
                    assert(cats(next) == cs_pre);
                }
            },
        }
    }
    proof {
        assert(rows@.take(n as int) =~= rows@);
    }
    out
}

/// The buckets with well-formed counts over the categories they summarise:
/// labels are pairwise distinct, every bucket's count is that label's number
/// of occurrences, every label occurs, and every observed category has a
/// bucket.
pub open spec fn wf_groups(g: Seq<(Seq<char>, int)>, cs: Seq<Seq<char>>) -> bool {
    &&& forall|i: int, j: int| 0 <= i < j < g.len() ==> (#[trigger] g[i]).0 != (#[trigger] g[j]).0
    &&& forall|i: int| 0 <= i < g.len() ==> (#[trigger] g[i]).1 == occ(cs, g[i].0)
    &&& forall|i: int| 0 <= i < g.len() ==> occ(cs, (#[trigger] g[i]).0) > 0
    &&& forall|c: Seq<char>| occ(cs, c) > 0 ==> exists|i: int|
        0 <= i < g.len() && (#[trigger] g[i]).0 == c
}

/// The folded buckets are well formed over their input.
pub proof fn lemma_groups_of_wf(cs: Seq<Seq<char>>)
    ensures
        wf_groups(groups_of(cs), cs),
    decreases cs.len(),
{
    if cs.len() > 0 {
        let dl = cs.drop_last();
        let c = cs.last();
        lemma_groups_of_wf(dl);
        let g = groups_of(dl);
        lemma_find_label_sound(g, c);
        assert forall|x: Seq<char>| true implies occ(cs, x) == occ(dl, x) + (if x == c {
            1int
        } else {
            0int
        }) by {}
        match find_label(g, c) {
            Some(j) => {
                let g2 = g.update(j, (c, g[j].1 + 1));
                assert(groups_of(cs) == g2);
                assert forall|i: int| 0 <= i < g2.len() implies (#[trigger] g2[i]).1 == occ(
                    cs,
                    g2[i].0,
                ) by {
                    if i != j {
                        assert(g2[i] == g[i]);
                        assert(g[i].0 != c);
                    }
                }
                assert forall|x: Seq<char>| occ(cs, x) > 0 implies exists|i: int|
                    0 <= i < g2.len() && (#[trigger] g2[i]).0 == x by {
                    if x == c {
                        assert(g2[j].0 == c);
                    } else {
                        let i = choose|i: int| 0 <= i < g.len() && (#[trigger] g[i]).0 == x;
                        assert(g2[i].0 == x);
                    }
                }
            },
            None => {
                let g2 = g.push((c, 1));
                assert(groups_of(cs) == g2);
                assert(occ(dl, c) == 0) by {
                    lemma_occ_nonneg(dl, c);
                    if occ(dl, c) > 0 {
                        assert(exists|i: int| 0 <= i < g.len() && (#[trigger] g[i]).0 == c);
                        let i = choose|i: int| 0 <= i < g.len() && (#[trigger] g[i]).0 == c;
                        assert(g[i].0 != c);
                        assert(false);
                    }
                }
                assert forall|i: int| 0 <= i < g2.len() implies (#[trigger] g2[i]).1 == occ(
                    cs,
                    g2[i].0,
                ) by {
                    if i < g.len() {
                        assert(g2[i] == g[i]);
                        assert(g[i].0 != c);
                    } else {
                        assert(g2[i] == (c, 1int));
                    }
                }
                assert forall|x: Seq<char>| occ(cs, x) > 0 implies exists|i: int|
                    0 <= i < g2.len() && (#[trigger] g2[i]).0 == x by {
                    if x == c {
                        assert(g2[g.len() as int].0 == c);
                    } else {
                        let i = choose|i: int| 0 <= i < g.len() && (#[trigger] g[i]).0 == x;
                        assert(g2[i].0 == x);
                    }
                }
            },
        }
    }
}

/// Updating one bucket's count by one raises the total by one.
proof fn lemma_sum_counts_update(g: Seq<(Seq<char>, int)>, j: int, p: (Seq<char>, int))
    requires
        0 <= j < g.len(),
        p.1 == g[j].1 + 1,
    ensures
        sum_counts(g.update(j, p)) == sum_counts(g) + 1,
    decreases g.len(),
{
    let g2 = g.update(j, p);
    if j == g.len() - 1 {
        assert(g2.drop_last() =~= g.drop_last());
        assert(g2.last() == p);
    } else {
        assert(g2.drop_last() =~= g.drop_last().update(j, p));
        assert(g2.last() == g.last());
        lemma_sum_counts_update(g.drop_last(), j, p);
    }
}

/// Appending a bucket adds its count to the total.
proof fn lemma_sum_counts_push(g: Seq<(Seq<char>, int)>, p: (Seq<char>, int))
    ensures
        sum_counts(g.push(p)) == sum_counts(g) + p.1,
{
    assert(g.push(p).drop_last() =~= g);
    assert(g.push(p).last() == p);
}

/// The number of rows carrying a non-null category.
pub open spec fn categorized_count(rows: Seq<Record>) -> int
    decreases rows.len(),
{
    if rows.len() == 0 {
        0
    } else {
        categorized_count(rows.drop_last()) + if category_of(rows.last()) is Some {
            1int
        } else {
            0int
        }
    }
}

/// Law: the bucket counts sum to the number of rows assigned to some bucket —
/// here, the rows whose category is non-null, each counted exactly once —
/// and each bucket's count is exactly how often its label was observed,
/// with no label appearing twice.
pub proof fn lemma_group_counts_sum(rows: Seq<Record>)
    ensures
        sum_counts(groups_of(cats(rows))) == cats(rows).len(),
        cats(rows).len() == categorized_count(rows),
        forall|i: int, j: int|
            0 <= i < j < groups_of(cats(rows)).len() ==> (#[trigger] groups_of(cats(rows))[i]).0
                != (#[trigger] groups_of(cats(rows))[j]).0,
        forall|i: int|
            0 <= i < groups_of(cats(rows)).len() ==> (#[trigger] groups_of(cats(rows))[i]).1 == occ(
                cats(rows),
                groups_of(cats(rows))[i].0,
            ),
{
    lemma_sum_groups(cats(rows));
    lemma_cats_len(rows);
    lemma_groups_of_wf(cats(rows));
}

/// Folding a category sequence yields counts totalling its length.
proof fn lemma_sum_groups(cs: Seq<Seq<char>>)
    ensures
        sum_counts(groups_of(cs)) == cs.len(),
    decreases cs.len(),
{
    if cs.len() > 0 {
        let dl = cs.drop_last();
        let c = cs.last();
        lemma_sum_groups(dl);
        let g = groups_of(dl);
        lemma_find_label_sound(g, c);
        match find_label(g, c) {
            Some(j) => {
                lemma_sum_counts_update(g, j, (c, g[j].1 + 1));
            },
            None => {
                lemma_sum_counts_push(g, (c, 1));
            },
        }
    }
}

/// There are as many observed categories as rows carrying one.
proof fn lemma_cats_len(rows: Seq<Record>)
    ensures
        cats(rows).len() == categorized_count(rows),
    decreases rows.len(),
{
    if rows.len() > 0 {
        lemma_cats_len(rows.drop_last());
    }
}

/// Every collected name comes from a row whose category matches.
pub proof fn lemma_names_matching_sound(rows: Seq<Record>, c: Seq<char>, x: Seq<char>)
    requires
        names_matching(rows, c).contains(x),
    ensures
        exists|i: int|
            0 <= i < rows.len() && category_of(#[trigger] rows[i]) == Some(c) && name_of(rows[i])
                == Some(x),
    decreases rows.len(),
{
    let ns = names_matching(rows, c);
    let rest = names_matching(rows.drop_last(), c);
    if category_of(rows.last()) == Some(c) && name_of(rows.last()) == Some(x) {
        assert(category_of(rows[rows.len() - 1]) == Some(c));
    } else {
        assert(rest.contains(x)) by {
            let j = choose|j: int| 0 <= j < ns.len() && ns[j] == x;
            if ns.len() > rest.len() {
                assert(j < rest.len());
                assert(rest[j] == x);
            } else {
                assert(rest[j] == x);
            }
        }
        lemma_names_matching_sound(rows.drop_last(), c, x);
        let i = choose|i: int|
            0 <= i < rows.drop_last().len() && category_of(#[trigger] rows.drop_last()[i]) == Some(
                c,
            ) && name_of(rows.drop_last()[i]) == Some(x);
        assert(rows[i] == rows.drop_last()[i]);
        assert(category_of(rows[i]) == Some(c));
    }
}

} // verus!
