//! The reading plan over a project map: files from the most central down,
//! each with a priority, the reason for it and an estimate of its tokens.

use vstd::prelude::*;
use vstd::multiset::Multiset;
use vstd::string::StringExecFns;
use crate::context::token_estimator::tokens_for_size;
use crate::ir::schema::ContextPlanItem;
use crate::map::builder::{centralities_unit, sum_lines, sum_sizes, ProjectMap};
use crate::map::schema::{file_views, role_name, role_text, FileNode, FileNodeView, FileRole, Ratio};
use crate::text::{decimal, decimal_exec, owned, str_same, string_of, chars_of};

verus! {

// ---------------------------------------------------------------------------
// Comparing ratios
// ---------------------------------------------------------------------------

/// `a` is smaller than `b`.
pub open spec fn ratio_less(a: Ratio, b: Ratio) -> bool {
    a.num * b.den < b.num * a.den
}

/// Whether `a` is smaller than `b`, compared by integer parts and then by
/// the flipped remainders, so that no product is formed.
pub fn ratio_less_exec(a: Ratio, b: Ratio) -> (r: bool)
    requires
        a.den > 0,
        b.den > 0,
    ensures
        r == ratio_less(a, b),
    decreases a.den + b.den,
{
    let qa = a.num / a.den;
    let qb = b.num / b.den;
    let ra = a.num % a.den;
    let rb = b.num % b.den;
    proof {
        vstd::arithmetic::div_mod::lemma_fundamental_div_mod(a.num as int, a.den as int);
        vstd::arithmetic::div_mod::lemma_fundamental_div_mod(b.num as int, b.den as int);
        assert(a.den * qa == qa * a.den) by (nonlinear_arith);
        assert(b.den * qb == qb * b.den) by (nonlinear_arith);
        lemma_split_compare(
            a.num as int,
            a.den as int,
            b.num as int,
            b.den as int,
            qa as int,
            qb as int,
            ra as int,
            rb as int,
        );
    }
    if qa != qb {
        return qa < qb;
    }
    if ra == 0 {
        return rb > 0;
    }
    if rb == 0 {
        return false;
    }
    proof {
        assert(ra * b.den < rb * a.den <==> b.den * ra < a.den * rb) by (nonlinear_arith);
    }
    ratio_less_exec(Ratio { num: b.den, den: rb }, Ratio { num: a.den, den: ra })
}

/// Splitting two ratios into integer parts and remainders decides their order.
proof fn lemma_split_compare(na: int, da: int, nb: int, db: int, qa: int, qb: int, ra: int, rb: int)
    requires
        da > 0,
        db > 0,
        na >= 0,
        nb >= 0,
        na == qa * da + ra,
        nb == qb * db + rb,
        0 <= ra < da,
        0 <= rb < db,
        qa >= 0,
        qb >= 0,
    ensures
        qa < qb ==> na * db < nb * da,
        qa > qb ==> !(na * db < nb * da),
        qa == qb ==> (na * db < nb * da <==> ra * db < rb * da),
        qa == qb && ra == 0 ==> (na * db < nb * da <==> rb > 0),
        qa == qb && rb == 0 ==> !(na * db < nb * da),
{
    if rb > 0 {
        assert(rb * da > 0) by (nonlinear_arith)
            requires
                rb > 0,
                da > 0,
        ;
    }
    if ra == 0 {
        assert(ra * db == 0) by (nonlinear_arith)
            requires
                ra == 0,
        ;
    }
    if rb == 0 {
        assert(rb * da == 0) by (nonlinear_arith)
            requires
                rb == 0,
        ;
    }
    assert(na * db == qa * da * db + ra * db) by (nonlinear_arith)
        requires
            na == qa * da + ra,
    ;
    assert(nb * da == qb * db * da + rb * da) by (nonlinear_arith)
        requires
            nb == qb * db + rb,
    ;
    assert(qa * da * db == qa * (da * db)) by (nonlinear_arith);
    assert(qb * db * da == qb * (da * db)) by (nonlinear_arith);
    assert(ra * db < da * db) by (nonlinear_arith)
        requires
            0 <= ra < da,
            db > 0,
    ;
    assert(rb * da < da * db) by (nonlinear_arith)
        requires
            0 <= rb < db,
            da > 0,
    ;
    assert(0 <= ra * db) by (nonlinear_arith)
        requires
            0 <= ra,
            db > 0,
    ;
    assert(0 <= rb * da) by (nonlinear_arith)
        requires
            0 <= rb,
            da > 0,
    ;
    if qa < qb {
        assert(qa * (da * db) + da * db <= qb * (da * db)) by (nonlinear_arith)
            requires
                qa < qb,
                da * db > 0,
        ;
    }
    if qa > qb {
        assert(qb * (da * db) + da * db <= qa * (da * db)) by (nonlinear_arith)
            requires
                qb < qa,
                da * db > 0,
        ;
    }
}

// ---------------------------------------------------------------------------
// The order of the plan
// ---------------------------------------------------------------------------

/// How many files of `s` are at least as central as `x`.
pub open spec fn count_not_less(s: Seq<FileNodeView>, x: FileNodeView) -> nat
    decreases s.len(),
{
    if s.len() == 0 {
        0
    } else {
        count_not_less(s.drop_last(), x) + if ratio_less(s.last().centrality_score, x.centrality_score) {
            0nat
        } else {
            1nat
        }
    }
}

/// `x` placed into `s`, a list from the most central down, after every file
/// at least as central as it.
pub open spec fn insert_desc(s: Seq<FileNodeView>, x: FileNodeView) -> Seq<FileNodeView> {
    let k = count_not_less(s, x) as int;
    s.take(k) + seq![x] + s.skip(k)
}

/// The files from the most central down; files of equal centrality keep
/// their order (a stable sort).
pub open spec fn sort_desc(fs: Seq<FileNodeView>) -> Seq<FileNodeView>
    decreases fs.len(),
{
    if fs.len() == 0 {
        Seq::empty()
    } else {
        insert_desc(sort_desc(fs.drop_last()), fs.last())
    }
}

/// At most all files are counted.
proof fn lemma_count_not_less_bound(s: Seq<FileNodeView>, x: FileNodeView)
    ensures
        count_not_less(s, x) <= s.len(),
    decreases s.len(),
{
    if s.len() > 0 {
        lemma_count_not_less_bound(s.drop_last(), x);
    }
}

/// Sorting keeps the files' centralities between 0 and 1, and the length.
proof fn lemma_sort_unit(fs: Seq<FileNodeView>)
    requires
        centralities_unit(fs),
    ensures
        centralities_unit(sort_desc(fs)),
        sort_desc(fs).len() == fs.len(),
    decreases fs.len(),
{
    if fs.len() > 0 {
        let f = fs.drop_last();
        assert(centralities_unit(f)) by {
            assert forall|i: int| 0 <= i < f.len() implies (#[trigger] f[i]).centrality_score.unit() by {
                assert(f[i] == fs[i]);
            }
        }
        lemma_sort_unit(f);
        let s = sort_desc(f);
        let x = fs.last();
        assert(x == fs[fs.len() - 1]);
        lemma_count_not_less_bound(s, x);
        let k = count_not_less(s, x) as int;
        let t = insert_desc(s, x);
        assert forall|i: int| 0 <= i < t.len() implies (#[trigger] t[i]).centrality_score.unit() by {
            if i < k {
                assert(t[i] == s[i]);
            } else if i > k {
                assert(t[i] == s[i - 1]);
            }
        }
    }
}

// ---------------------------------------------------------------------------
// Laws of the plan order
// ---------------------------------------------------------------------------

/// `a` is at least as central as `b`.
pub open spec fn not_less(a: FileNodeView, b: FileNodeView) -> bool {
    !ratio_less(a.centrality_score, b.centrality_score)
}

/// The files run from the most central down.
pub open spec fn sorted_desc(s: Seq<FileNodeView>) -> bool {
    forall|i: int, j: int| 0 <= i < j < s.len() ==> not_less(#[trigger] s[i], #[trigger] s[j])
}

/// Every centrality has a positive denominator.
pub open spec fn dens_positive(s: Seq<FileNodeView>) -> bool {
    forall|i: int| 0 <= i < s.len() ==> (#[trigger] s[i]).centrality_score.den > 0
}

/// With positive denominators, "at least as central" is transitive.
proof fn lemma_not_less_trans(a: FileNodeView, b: FileNodeView, c: FileNodeView)
    requires
        a.centrality_score.den > 0,
        b.centrality_score.den > 0,
        c.centrality_score.den > 0,
        not_less(a, b),
        not_less(b, c),
    ensures
        not_less(a, c),
{
    let (an, ad) = (a.centrality_score.num as int, a.centrality_score.den as int);
    let (bn, bd) = (b.centrality_score.num as int, b.centrality_score.den as int);
    let (cn, cd) = (c.centrality_score.num as int, c.centrality_score.den as int);
    assert(an * cd >= cn * ad) by (nonlinear_arith)
        requires
            an * bd >= bn * ad,
            bn * cd >= cn * bd,
            ad > 0,
            bd > 0,
            cd > 0,
            an >= 0,
            bn >= 0,
            cn >= 0,
    ;
}

/// With positive denominators, of two files one is at least as central.
proof fn lemma_not_less_total(a: FileNodeView, b: FileNodeView)
    ensures
        not_less(a, b) || not_less(b, a),
{
}

/// In a list sorted from the most central down, the files at least as
/// central as `x` come first, and there are `count_not_less` of them.
proof fn lemma_count_prefix(s: Seq<FileNodeView>, x: FileNodeView)
    requires
        sorted_desc(s),
        dens_positive(s),
        x.centrality_score.den > 0,
    ensures
        count_not_less(s, x) <= s.len(),
        forall|m: int| 0 <= m < count_not_less(s, x) ==> not_less(#[trigger] s[m], x),
        forall|m: int| count_not_less(s, x) <= m < s.len() ==> !not_less(#[trigger] s[m], x),
    decreases s.len(),
{
    if s.len() > 0 {
        let t = s.drop_last();
        assert(sorted_desc(t)) by {
            assert forall|i: int, j: int| 0 <= i < j < t.len() implies not_less(
                #[trigger] t[i],
                #[trigger] t[j],
            ) by {
                assert(t[i] == s[i] && t[j] == s[j]);
            }
        }
        assert(dens_positive(t)) by {
            assert forall|i: int| 0 <= i < t.len() implies (#[trigger] t[i]).centrality_score.den > 0 by {
                assert(t[i] == s[i]);
            }
        }
        lemma_count_prefix(t, x);
        let l = s.len() - 1;
        if not_less(s[l], x) {
            assert forall|m: int| 0 <= m < count_not_less(s, x) implies not_less(#[trigger] s[m], x) by {
                if m < l {
                    assert(not_less(s[m], s[l]));
                    lemma_not_less_trans(s[m], s[l], x);
                }
            }
            assert forall|m: int| 0 <= m < l implies not_less(#[trigger] t[m], x) by {
                assert(t[m] == s[m]);
                assert(not_less(s[m], s[l]));
                lemma_not_less_trans(s[m], s[l], x);
            }
            assert(count_not_less(t, x) == t.len()) by {
                if count_not_less(t, x) < t.len() {
                    let m = count_not_less(t, x) as int;
                    assert(!not_less(t[m], x));
                }
            }
        } else {
            assert forall|m: int| 0 <= m < count_not_less(s, x) implies not_less(#[trigger] s[m], x) by {
                assert(t[m] == s[m]);
            }
            assert forall|m: int| count_not_less(s, x) <= m < s.len() implies !not_less(
                #[trigger] s[m],
                x,
            ) by {
                if m < l {
                    assert(t[m] == s[m]);
                }
            }
        }
    }
}

/// Sorting leaves the files from the most central down.
pub proof fn lemma_sort_desc_sorted(fs: Seq<FileNodeView>)
    requires
        dens_positive(fs),
    ensures
        sorted_desc(sort_desc(fs)),
        dens_positive(sort_desc(fs)),
        sort_desc(fs).len() == fs.len(),
    decreases fs.len(),
{
    if fs.len() > 0 {
        let f = fs.drop_last();
        assert(dens_positive(f)) by {
            assert forall|i: int| 0 <= i < f.len() implies (#[trigger] f[i]).centrality_score.den > 0 by {
                assert(f[i] == fs[i]);
            }
        }
        lemma_sort_desc_sorted(f);
        let s = sort_desc(f);
        let x = fs.last();
        assert(x == fs[fs.len() - 1]);
        lemma_count_prefix(s, x);
        let k = count_not_less(s, x) as int;
        let t = insert_desc(s, x);
        assert(t.len() == s.len() + 1);
        assert forall|i: int| 0 <= i < t.len() implies (#[trigger] t[i]).centrality_score.den > 0 by {
            if i < k {
                assert(t[i] == s[i]);
            } else if i > k {
                assert(t[i] == s[i - 1]);
            }
        }
        assert forall|i: int, j: int| 0 <= i < j < t.len() implies not_less(
            #[trigger] t[i],
            #[trigger] t[j],
        ) by {
            if j < k {
                assert(t[i] == s[i] && t[j] == s[j]);
            } else if j == k {
                assert(t[i] == s[i] && t[j] == x);
            } else if i < k {
                assert(t[i] == s[i] && t[j] == s[j - 1]);
            } else if i == k {
                assert(t[i] == x && t[j] == s[j - 1]);
                assert(!not_less(s[j - 1], x));
                lemma_not_less_total(s[j - 1], x);
            } else {
                assert(t[i] == s[i - 1] && t[j] == s[j - 1]);
            }
        }
    }
}

/// Sorting keeps every file, as often as it occurs.
pub proof fn lemma_sort_desc_permutes(fs: Seq<FileNodeView>)
    ensures
        sort_desc(fs).to_multiset() == fs.to_multiset(),
        sort_desc(fs).len() == fs.len(),
    decreases fs.len(),
{
    broadcast use vstd::seq_lib::group_to_multiset_ensures;
    broadcast use vstd::seq_lib::lemma_multiset_commutative;

    if fs.len() > 0 {
        let f = fs.drop_last();
        lemma_sort_desc_permutes(f);
        let s = sort_desc(f);
        let x = fs.last();
        lemma_count_not_less_bound(s, x);
        let k = count_not_less(s, x) as int;
        assert(fs =~= f.push(x));
        assert(s =~= s.take(k) + s.skip(k));
        assert(insert_desc(s, x).to_multiset() =~= s.take(k).to_multiset().add(
            seq![x].to_multiset(),
        ).add(s.skip(k).to_multiset()));
        assert(s.to_multiset() =~= s.take(k).to_multiset().add(s.skip(k).to_multiset()));
        assert(seq![x].to_multiset() =~= Multiset::empty().insert(x)) by {
            assert(seq![x] =~= Seq::<FileNodeView>::empty().push(x));
        }
        assert(insert_desc(s, x).to_multiset() =~= s.to_multiset().insert(x));
        assert(fs.to_multiset() =~= f.to_multiset().insert(x));
        lemma_sort_unit_len(fs);
    }
}

/// The files exactly as central as `r`.
pub open spec fn as_central_as(r: Ratio) -> spec_fn(FileNodeView) -> bool {
    |f: FileNodeView| !ratio_less(f.centrality_score, r) && !ratio_less(r, f.centrality_score)
}

/// Less central than a file as central as `r` means less central than `r`.
proof fn lemma_less_than_equal(a: Ratio, x: Ratio, r: Ratio)
    requires
        a.den > 0,
        x.den > 0,
        r.den > 0,
        ratio_less(a, x),
        !ratio_less(x, r),
        !ratio_less(r, x),
    ensures
        ratio_less(a, r),
{
    let (an, ad, xn, xd, rn, rd) = (a.num as int, a.den as int, x.num as int, x.den as int, r.num as int, r.den as int);
    assert(an * rd < rn * ad) by (nonlinear_arith)
        requires
            an * xd < xn * ad,
            xn * rd == rn * xd,
            ad > 0,
            xd > 0,
            rd > 0,
            an >= 0,
            xn >= 0,
            rn >= 0,
    ;
}

/// The plan's order is stable: files of equal centrality keep the order in
/// which the map holds them.
pub proof fn lemma_sort_desc_stable(fs: Seq<FileNodeView>, r: Ratio)
    requires
        dens_positive(fs),
        r.den > 0,
    ensures
        sort_desc(fs).filter(as_central_as(r)) == fs.filter(as_central_as(r)),
    decreases fs.len(),
{
    reveal(Seq::filter);
    let p = as_central_as(r);
    if fs.len() > 0 {
        let f = fs.drop_last();
        assert(dens_positive(f)) by {
            assert forall|i: int| 0 <= i < f.len() implies (#[trigger] f[i]).centrality_score.den > 0 by {
                assert(f[i] == fs[i]);
            }
        }
        lemma_sort_desc_stable(f, r);
        lemma_sort_desc_sorted(f);
        let s = sort_desc(f);
        let x = fs.last();
        assert(x == fs[fs.len() - 1]);
        lemma_count_prefix(s, x);
        let k = count_not_less(s, x) as int;
        let (a, b) = (s.take(k), s.skip(k));
        assert(s =~= a + b);
        Seq::filter_distributes_over_add(a, b, p);
        Seq::filter_distributes_over_add(a + seq![x], b, p);
        Seq::filter_distributes_over_add(a, seq![x], p);
        assert(seq![x].drop_last() =~= Seq::<FileNodeView>::empty());
        assert(Seq::<FileNodeView>::empty().filter(p) =~= Seq::<FileNodeView>::empty());
        if p(x) {
            assert(b.filter(p) =~= Seq::<FileNodeView>::empty()) by {
                assert forall|m: int| 0 <= m < b.len() implies !p(#[trigger] b[m]) by {
                    assert(b[m] == s[k + m]);
                    assert(!not_less(s[k + m], x));
                    lemma_less_than_equal(b[m].centrality_score, x.centrality_score, r);
                }
                lemma_filter_none(b, p);
            }
            assert(seq![x].filter(p) =~= seq![x]);
        } else {
            assert(seq![x].filter(p) =~= Seq::<FileNodeView>::empty());
        }
        assert(sort_desc(fs).filter(p) =~= fs.filter(p));
    }
}

/// The plan's order: the map's files from the most central down, every file
/// kept as often as it occurs, and files of equal centrality in the map's
/// order (a stable descending sort). `ContextPlanner::plan` ranks its items
/// from 0 along this order.
pub proof fn lemma_plan_order(fs: Seq<FileNodeView>)
    requires
        dens_positive(fs),
    ensures
        sorted_desc(sort_desc(fs)),
        sort_desc(fs).to_multiset() == fs.to_multiset(),
        sort_desc(fs).len() == fs.len(),
        forall|r: Ratio|
            r.den > 0 ==> #[trigger] sort_desc(fs).filter(as_central_as(r)) == fs.filter(as_central_as(r)),
{
    lemma_sort_desc_sorted(fs);
    lemma_sort_desc_permutes(fs);
    assert forall|r: Ratio| r.den > 0 implies #[trigger] sort_desc(fs).filter(as_central_as(r)) == fs.filter(
        as_central_as(r),
    ) by {
        lemma_sort_desc_stable(fs, r);
    }
}

proof fn lemma_filter_none(b: Seq<FileNodeView>, p: spec_fn(FileNodeView) -> bool)
    requires
        forall|m: int| 0 <= m < b.len() ==> !p(#[trigger] b[m]),
    ensures
        b.filter(p) =~= Seq::<FileNodeView>::empty(),
    decreases b.len(),
{
    reveal(Seq::filter);
    if b.len() > 0 {
        assert forall|m: int| 0 <= m < b.drop_last().len() implies !p(#[trigger] b.drop_last()[m]) by {
            assert(b.drop_last()[m] == b[m]);
        }
        lemma_filter_none(b.drop_last(), p);
        assert(!p(b[b.len() - 1]));
    }
}

/// Sorting keeps the number of files.
proof fn lemma_sort_unit_len(fs: Seq<FileNodeView>)
    ensures
        sort_desc(fs).len() == fs.len(),
    decreases fs.len(),
{
    if fs.len() > 0 {
        lemma_sort_unit_len(fs.drop_last());
        lemma_count_not_less_bound(sort_desc(fs.drop_last()), fs.last());
    }
}

// ---------------------------------------------------------------------------
// Priorities and reasons
// ---------------------------------------------------------------------------

/// The ratio is above `p / q`.
pub open spec fn above(r: Ratio, p: int, q: int) -> bool {
    q * r.num > p * r.den
}

/// The priority of a file: must-send above 80% centrality, else by role.
pub open spec fn priority_text(f: FileNodeView) -> Seq<char> {
    if above(f.centrality_score, 4, 5) {
        "MustSend"@
    } else {
        match f.role {
            FileRole::Entry | FileRole::Brain => "MustSend"@,
            FileRole::Interface | FileRole::Connector => "ShouldSend"@,
            FileRole::DataModel | FileRole::Config | FileRole::Utility | FileRole::Output => "SendIfNeeded"@,
            FileRole::Test | FileRole::Documentation => "IgnoreFirst"@,
            FileRole::Unknown => if above(f.centrality_score, 1, 2) {
                "ShouldSend"@
            } else {
                "IgnoreFirst"@
            },
        }
    }
}

/// Why a file has priority `p`.
pub open spec fn reason_text(f: FileNodeView, p: Seq<char>) -> Seq<char> {
    let role = role_text(f.role);
    let pct = decimal(f.centrality_score.percent());
    if p == "MustSend"@ {
        "Critical "@ + role + ": "@ + pct
            + "% centrality score, essential for understanding project structure"@
    } else if p == "ShouldSend"@ {
        "Important "@ + role + ": "@ + pct + "% centrality, provides key context for "@
            + f.language
    } else if p == "SendIfNeeded"@ {
        "Reference "@ + role + ": "@ + pct
            + "% centrality, consult when needed for specific details"@
    } else if p == "IgnoreFirst"@ {
        "Low priority "@ + role + ": "@ + pct
            + "% centrality, can be skipped for initial understanding"@
    } else {
        role + " with "@ + pct + "% centrality"@
    }
}

/// The plan item carries rank `rank` for the file `f`.
pub open spec fn plan_item_is(item: ContextPlanItem, rank: int, f: FileNodeView) -> bool {
    &&& item.rank == rank
    &&& item.file@ == f.relative_path
    &&& item.priority@ == priority_text(f)
    &&& item.reason@ == reason_text(f, priority_text(f))
    &&& item.estimated_tokens == tokens_for_size(f.size_bytes)
}

/// Plans which files to hand to a language model, and in what order.
pub struct ContextPlanner {}

impl ContextPlanner {
    /// A new planner.
    pub fn new() -> (r: Self) {
        ContextPlanner {  }
    }

    /// The priority of `file`: `MustSend`, `ShouldSend`, `SendIfNeeded` or
    /// `IgnoreFirst`.
    pub fn determine_priority(&self, file: &FileNode) -> (r: String)
        requires
            file.centrality_score.den > 0,
        ensures
            r@ == priority_text(file@),
    {
        let c = file.centrality_score;
        if ratio_less_exec(Ratio { num: 4, den: 5 }, c) {
            return owned("MustSend");
        }
        match file.role {
            FileRole::Entry | FileRole::Brain => owned("MustSend"),
            FileRole::Interface | FileRole::Connector => owned("ShouldSend"),
            FileRole::DataModel | FileRole::Config | FileRole::Utility | FileRole::Output => owned(
                "SendIfNeeded",
            ),
            FileRole::Test | FileRole::Documentation => owned("IgnoreFirst"),
            FileRole::Unknown => if ratio_less_exec(Ratio { num: 1, den: 2 }, c) {
                owned("ShouldSend")
            } else {
                owned("IgnoreFirst")
            },
        }
    }

    /// A sentence on why `file` has `priority`.
    pub fn generate_priority_reason(&self, file: &FileNode, priority: &str) -> (r: String)
        requires
            file.centrality_score.percent_fits(),
        ensures
            r@ == reason_text(file@, priority@),
    {
        let role = role_name(file.role);
        let digits = decimal_exec(file.centrality_score.percent_exec());
        let pct = string_of(digits.as_slice());
        let pc = chars_of(priority);
        let p = pc.as_slice();
        if str_same(p, "MustSend") {
            let mut r = owned("Critical ");
            r.append(role);
            r.append(": ");
            r.append(pct.as_str());
            r.append("% centrality score, essential for understanding project structure");
            r
        } else if str_same(p, "ShouldSend") {
            let mut r = owned("Important ");
            r.append(role);
            r.append(": ");
            r.append(pct.as_str());
            r.append("% centrality, provides key context for ");
            r.append(file.language.as_str());
            r
        } else if str_same(p, "SendIfNeeded") {
            let mut r = owned("Reference ");
            r.append(role);
            r.append(": ");
            r.append(pct.as_str());
            r.append("% centrality, consult when needed for specific details");
            r
        } else if str_same(p, "IgnoreFirst") {
            let mut r = owned("Low priority ");
            r.append(role);
            r.append(": ");
            r.append(pct.as_str());
            r.append("% centrality, can be skipped for initial understanding");
            r
        } else {
            let mut r = owned(role);
            r.append(" with ");
            r.append(pct.as_str());
            r.append("% centrality");
            r
        }
    }

    /// The files of the map, from the most central down, as plan items
    /// ranked from 0, each with its priority, the reason for it and an
    /// estimate of its tokens.
    pub fn plan(&self, map: &ProjectMap) -> (r: Result<Vec<ContextPlanItem>, String>)
        requires
            map.wf(),
            sum_lines(map.files_v()) <= usize::MAX,
            sum_sizes(map.files_v()) <= u64::MAX,
        ensures
            r matches Ok(items) && items@.len() == map.files_v().len() && forall|i: int|
                0 <= i < items@.len() ==> plan_item_is(
                    #[trigger] items@[i],
                    i,
                    sort_desc(map.files_v())[i],
                ),
    {
        let ir = map.to_ir();
        let ghost fs = map.files_v();
        let mut sorted: Vec<&FileNode> = Vec::new();
        let mut i: usize = 0;
        while i < ir.files.len()
            invariant
                i <= ir.files@.len(),
                file_views(ir.files@) == fs,
                centralities_unit(fs),
                sorted@.map_values(|f: &FileNode| f@) == sort_desc(fs.take(i as int)),
            decreases ir.files.len() - i,
        {
            let x = &ir.files[i];
            assert(fs[i as int] == x@);
            assert(x@.centrality_score.unit());
            assert(fs.take(i + 1).drop_last() =~= fs.take(i as int));
            assert(fs.take(i + 1).last() == x@);
            let ghost sv = sorted@.map_values(|f: &FileNode| f@);
            proof {
                assert(centralities_unit(fs.take(i as int))) by {
                    assert forall|m: int| 0 <= m < i implies (#[trigger] fs.take(i as int)[m]).centrality_score.unit() by {
                        assert(fs.take(i as int)[m] == fs[m]);
                    }
                }
                lemma_sort_unit(fs.take(i as int));
            }
            let mut k: usize = 0;
            let mut j: usize = 0;
            while j < sorted.len()
                invariant
                    j <= sorted@.len(),
                    sv == sorted@.map_values(|f: &FileNode| f@),
                    k == count_not_less(sv.take(j as int), x@),
                    k <= j,
                    centralities_unit(sv),
                    x.centrality_score.unit(),
                decreases sorted.len() - j,
            {
                assert(sv.take(j + 1).drop_last() =~= sv.take(j as int));
                assert(sv.take(j + 1).last() == sorted@[j as int]@);
                assert(sv[j as int].centrality_score.unit());
                if !ratio_less_exec(sorted[j].centrality_score, x.centrality_score) {
                    k += 1;
                }
                j += 1;
            }
            assert(sv.take(sorted@.len() as int) =~= sv);
            sorted.insert(k, x);
            assert(sorted@.map_values(|f: &FileNode| f@) =~= insert_desc(sv, x@));
            i += 1;
        }
        assert(fs.take(ir.files@.len() as int) =~= fs);
        proof {
            lemma_sort_unit(fs);
        }
        let ghost sd = sort_desc(fs);
        let mut items: Vec<ContextPlanItem> = Vec::new();
        let mut rank: usize = 0;
        while rank < sorted.len()
            invariant
                rank <= sorted@.len(),
                sorted@.map_values(|f: &FileNode| f@) == sd,
                centralities_unit(sd),
                items@.len() == rank,
                forall|m: int| 0 <= m < rank ==> plan_item_is(#[trigger] items@[m], m, sd[m]),
            decreases sorted.len() - rank,
        {
            let file = sorted[rank];
            assert(sd[rank as int] == file@);
            let priority = self.determine_priority(file);
            let reason = self.generate_priority_reason(file, priority.as_str());
            let q = file.size_bytes / 4;
            let estimated_tokens = if q > usize::MAX as u64 {
                usize::MAX
            } else {
                q as usize
            };
            items.push(
                ContextPlanItem {
                    rank,
                    file: file.relative_path.clone(),
                    priority,
                    reason,
                    estimated_tokens,
                },
            );
            rank += 1;
        }
        Ok(items)
    }
}


impl Default for ContextPlanner {
    fn default() -> (r: Self)
        ensures
            r == (ContextPlanner {  }),
    {
        ContextPlanner {  }
    }
}

} // verus!
