//! Risk flags: secrets, keys, and files unfit for a language model.

pub mod secrets;
pub mod unsafe_patterns;
pub mod file_risks;

use vstd::prelude::*;
use crate::ir::schema::{FileObject, RiskFlagObject};
use secrets::{detect_secret_risks, opt_view, risk_is, secret_risk_of, RiskFacts};
use file_risks::{detect_file_risks, file_risk_of};

verus! {

/// A risk before sorting: the file and the facts of its flag.
pub type RiskEntry = (Seq<char>, RiskFacts);

/// The view of an optional owned text.
pub open spec fn owned_opt_view(c: Option<String>) -> Option<Seq<char>> {
    match c {
        Some(s) => Some(s@),
        None => None,
    }
}

/// For each file in order: its secret risk, then its file-level risk.
pub open spec fn risk_entries(fs: Seq<FileObject>, contents: Seq<Option<String>>) -> Seq<RiskEntry>
    decreases fs.len(),
{
    if fs.len() == 0 {
        Seq::empty()
    } else {
        let n = (fs.len() - 1) as int;
        let acc = risk_entries(fs.drop_last(), contents);
        let f = fs.last();
        let with_secret = match secret_risk_of(f, owned_opt_view(contents[n])) {
            Some(d) => acc.push((f.path@, d)),
            None => acc,
        };
        match file_risk_of(f) {
            Some(d) => with_secret.push((f.path@, d)),
            None => with_secret,
        }
    }
}

/// Sort key of a severity: `Critical` 4, `High` 3, `Medium` 2, `Low` 1,
/// anything else 0.
pub open spec fn severity_rank(s: Seq<char>) -> int {
    if s == "Critical"@ {
        4
    } else if s == "High"@ {
        3
    } else if s == "Medium"@ {
        2
    } else if s == "Low"@ {
        1
    } else {
        0
    }
}

/// The entries of `s` whose severity has rank `k`, in their order.
pub open spec fn severity_bucket(s: Seq<RiskEntry>, k: int) -> Seq<RiskEntry>
    decreases s.len(),
{
    if s.len() == 0 {
        Seq::empty()
    } else if severity_rank(s.last().1.1) == k {
        severity_bucket(s.drop_last(), k).push(s.last())
    } else {
        severity_bucket(s.drop_last(), k)
    }
}

/// The buckets of ranks above `k` (up to 4), most severe first.
pub open spec fn buckets_above(s: Seq<RiskEntry>, k: int) -> Seq<RiskEntry>
    decreases 4 - k,
{
    if k >= 4 {
        Seq::empty()
    } else {
        buckets_above(s, k + 1) + severity_bucket(s, k + 1)
    }
}

/// `s` in a stable sort by decreasing severity.
pub open spec fn by_severity(s: Seq<RiskEntry>) -> Seq<RiskEntry> {
    buckets_above(s, -1)
}

fn severity_rank_exec(s: &String) -> (r: u8)
    ensures
        r as int == severity_rank(s@),
{
    let c = crate::text::chars_of(s.as_str());
    let c = c.as_slice();
    if crate::text::str_same(c, "Critical") {
        4
    } else if crate::text::str_same(c, "High") {
        3
    } else if crate::text::str_same(c, "Medium") {
        2
    } else if crate::text::str_same(c, "Low") {
        1
    } else {
        0
    }
}

proof fn lemma_take_all<T>(s: Seq<T>)
    ensures
        s.take(s.len() as int) == s,
{
    assert(s.take(s.len() as int) =~= s);
}

proof fn lemma_severity_bucket_prefix_len(s: Seq<RiskEntry>, j: int, k: int)
    requires
        0 <= j <= s.len(),
    ensures
        severity_bucket(s.take(j), k).len() <= severity_bucket(s, k).len(),
    decreases s.len(),
{
    if j < s.len() {
        assert(s.drop_last().take(j) =~= s.take(j));
        lemma_severity_bucket_prefix_len(s.drop_last(), j, k);
    } else {
        assert(s.take(j) =~= s);
    }
}

/// Sorting by severity keeps every entry, as often as it occurs.
pub proof fn lemma_by_severity_permutes(s: Seq<RiskEntry>)
    ensures
        by_severity(s).to_multiset() == s.to_multiset(),
        by_severity(s).len() == s.len(),
    decreases s.len(),
{
    broadcast use vstd::seq_lib::group_to_multiset_ensures;
    broadcast use vstd::seq_lib::lemma_multiset_commutative;

    reveal_with_fuel(buckets_above, 6);
    if s.len() == 0 {
        assert(by_severity(s) =~= Seq::<RiskEntry>::empty());
    } else {
        let t = s.drop_last();
        let x = s.last();
        lemma_by_severity_permutes(t);
        assert(s =~= t.push(x));
        assert(by_severity(s).to_multiset() =~= severity_bucket(s, 4).to_multiset().add(
            severity_bucket(s, 3).to_multiset(),
        ).add(severity_bucket(s, 2).to_multiset()).add(severity_bucket(s, 1).to_multiset()).add(
            severity_bucket(s, 0).to_multiset(),
        ));
        assert(by_severity(t).to_multiset() =~= severity_bucket(t, 4).to_multiset().add(
            severity_bucket(t, 3).to_multiset(),
        ).add(severity_bucket(t, 2).to_multiset()).add(severity_bucket(t, 1).to_multiset()).add(
            severity_bucket(t, 0).to_multiset(),
        ));
        assert(by_severity(s).to_multiset() =~= by_severity(t).to_multiset().insert(x));
        assert(s.to_multiset() =~= t.to_multiset().insert(x));
        assert(by_severity(s).len() == by_severity(s).to_multiset().len());
        assert(s.len() == s.to_multiset().len());
    }
}

/// The secret risk of each file is among the risk entries.
pub(crate) proof fn lemma_secret_entry(fs: Seq<FileObject>, contents: Seq<Option<String>>, k: int)
    requires
        0 <= k < fs.len(),
        secret_risk_of(fs[k], owned_opt_view(contents[k])) is Some,
    ensures
        risk_entries(fs, contents).contains(
            (fs[k].path@, secret_risk_of(fs[k], owned_opt_view(contents[k])).unwrap()),
        ),
    decreases fs.len(),
{
    let e = (fs[k].path@, secret_risk_of(fs[k], owned_opt_view(contents[k])).unwrap());
    let n = (fs.len() - 1) as int;
    let acc = risk_entries(fs.drop_last(), contents);
    let with_secret = match secret_risk_of(fs.last(), owned_opt_view(contents[n])) {
        Some(d) => acc.push((fs.last().path@, d)),
        None => acc,
    };
    if k == n {
        assert(with_secret[with_secret.len() - 1] == e);
    } else {
        lemma_secret_entry(fs.drop_last(), contents, k);
        assert(fs.drop_last()[k] == fs[k]);
        let j = choose|j: int| 0 <= j < acc.len() && acc[j] == e;
        assert(with_secret[j] == e);
    }
    let all = risk_entries(fs, contents);
    let j = choose|j: int| 0 <= j < with_secret.len() && with_secret[j] == e;
    assert(all[j] == e);
}

/// Every secret and file-level risk of every file (`contents[i]` is the text
/// of `files[i]` when it could be read), stably sorted from most to least
/// severe.
pub fn detect_risks(files: &[FileObject], contents: &[Option<String>]) -> (r: Vec<RiskFlagObject>)
    requires
        contents@.len() == files@.len(),
    ensures
        r@.len() == by_severity(risk_entries(files@, contents@)).len(),
        forall|i: int|
            0 <= i < r@.len() ==> risk_is(
                #[trigger] r@[i],
                by_severity(risk_entries(files@, contents@))[i].0,
                by_severity(risk_entries(files@, contents@))[i].1,
            ),
{
    let ghost entries = risk_entries(files@, contents@);
    let mut risks: Vec<RiskFlagObject> = Vec::new();
    let mut i: usize = 0;
    while i < files.len()
        invariant
            i <= files.len(),
            contents@.len() == files@.len(),
            risks@.len() == risk_entries(files@.take(i as int), contents@).len(),
            forall|j: int|
                0 <= j < risks@.len() ==> risk_is(
                    #[trigger] risks@[j],
                    risk_entries(files@.take(i as int), contents@)[j].0,
                    risk_entries(files@.take(i as int), contents@)[j].1,
                ),
        decreases files.len() - i,
    {
        proof {
            assert(files@.take(i + 1).drop_last() =~= files@.take(i as int));
            assert(files@.take(i + 1).last() == files@[i as int]);
        }
        let content: Option<&str> = match &contents[i] {
            Some(s) => Some(s.as_str()),
            None => None,
        };
        assert(opt_view(content) == owned_opt_view(contents@[i as int]));
        if let Some(risk) = detect_secret_risks(&files[i], content) {
            risks.push(risk);
        }
        if let Some(risk) = detect_file_risks(&files[i]) {
            risks.push(risk);
        }
        i += 1;
    }
    proof {
        lemma_take_all(files@);
    }
    let mut sorted: Vec<RiskFlagObject> = Vec::new();
    let mut above: u8 = 5;
    while above > 0
        invariant
            above <= 5,
            risks@.len() == entries.len(),
            entries == risk_entries(files@, contents@),
            forall|j: int|
                0 <= j < risks@.len() ==> risk_is(#[trigger] risks@[j], entries[j].0, entries[j].1),
            sorted@.len() == buckets_above(entries, above - 1).len(),
            forall|j: int|
                0 <= j < sorted@.len() ==> risk_is(
                    #[trigger] sorted@[j],
                    buckets_above(entries, above - 1)[j].0,
                    buckets_above(entries, above - 1)[j].1,
                ),
        decreases above,
    {
        let key = above - 1;
        let mut j: usize = 0;
        let ghost base = buckets_above(entries, key as int);
        while j < risks.len()
            invariant
                key <= 4,
                j <= risks@.len(),
                risks@.len() == entries.len(),
                forall|m: int|
                    0 <= m < risks@.len() ==> risk_is(#[trigger] risks@[m], entries[m].0, entries[m].1),
                base == buckets_above(entries, key as int),
                sorted@.len() == base.len() + severity_bucket(entries.take(j as int), key as int).len(),
                forall|m: int|
                    0 <= m < sorted@.len() ==> risk_is(
                        #[trigger] sorted@[m],
                        (base + severity_bucket(entries.take(j as int), key as int))[m].0,
                        (base + severity_bucket(entries.take(j as int), key as int))[m].1,
                    ),
            decreases risks.len() - j,
        {
            proof {
                assert(entries.take(j + 1).drop_last() =~= entries.take(j as int));
            }
            if severity_rank_exec(&risks[j].severity) == key {
                let item = &risks[j];
                sorted.push(
                    RiskFlagObject {
                        file: item.file.clone(),
                        risk_type: item.risk_type.clone(),
                        severity: item.severity.clone(),
                        confidence: item.confidence,
                        reason: item.reason.clone(),
                        safe_action: item.safe_action.clone(),
                    },
                );
                proof {
                    assert(base + severity_bucket(entries.take(j + 1), key as int) =~= (base
                        + severity_bucket(entries.take(j as int), key as int)).push(entries[j as int]));
                }
            }
            j += 1;
        }
        proof {
            lemma_take_all(entries);
            assert(buckets_above(entries, key - 1) == buckets_above(entries, key as int) + severity_bucket(entries, key as int));
        }
        above = key;
    }
    sorted
}


/// Every entry of bucket `k` has severity rank `k`.
proof fn lemma_severity_bucket_keys(s: Seq<RiskEntry>, k: int)
    ensures
        forall|m: int|
            0 <= m < severity_bucket(s, k).len() ==> severity_rank((#[trigger] severity_bucket(s, k)[m]).1.1) == k,
    decreases s.len(),
{
    if s.len() > 0 {
        lemma_severity_bucket_keys(s.drop_last(), k);
        let front = severity_bucket(s.drop_last(), k);
        assert forall|m: int| 0 <= m < severity_bucket(s, k).len() implies severity_rank(
            (#[trigger] severity_bucket(s, k)[m]).1.1,
        ) == k by {
            if m < front.len() {
                assert(severity_bucket(s, k)[m] == front[m]);
            }
        }
    }
}

/// The risks run from the most severe down.
pub open spec fn severity_sorted(s: Seq<RiskEntry>) -> bool {
    forall|i: int, j: int|
        0 <= i < j < s.len() ==> severity_rank((#[trigger] s[i]).1.1) >= severity_rank((#[trigger] s[j]).1.1)
}

proof fn lemma_buckets_above_sorted(s: Seq<RiskEntry>, k: int)
    requires
        -1 <= k <= 4,
    ensures
        severity_sorted(buckets_above(s, k)),
        forall|m: int|
            0 <= m < buckets_above(s, k).len() ==> severity_rank((#[trigger] buckets_above(s, k)[m]).1.1) > k,
    decreases 4 - k,
{
    if k < 4 {
        lemma_buckets_above_sorted(s, k + 1);
        lemma_severity_bucket_keys(s, k + 1);
        let a = buckets_above(s, k + 1);
        let b = severity_bucket(s, k + 1);
        assert(buckets_above(s, k) == a + b);
        assert forall|i: int, j: int| 0 <= i < j < (a + b).len() implies severity_rank(
            (#[trigger] (a + b)[i]).1.1,
        ) >= severity_rank((#[trigger] (a + b)[j]).1.1) by {
            if j < a.len() {
                assert((a + b)[i] == a[i] && (a + b)[j] == a[j]);
            } else if i < a.len() {
                assert((a + b)[i] == a[i] && (a + b)[j] == b[j - a.len()]);
            } else {
                assert((a + b)[i] == b[i - a.len()] && (a + b)[j] == b[j - a.len()]);
            }
        }
        assert forall|m: int| 0 <= m < (a + b).len() implies severity_rank((#[trigger] (a + b)[m]).1.1) > k by {
            if m < a.len() {
                assert((a + b)[m] == a[m]);
            } else {
                assert((a + b)[m] == b[m - a.len()]);
            }
        }
    }
}

/// The risk report runs from the most severe risk down: critical, high,
/// medium, low, then anything else.
pub proof fn lemma_by_severity_sorted(s: Seq<RiskEntry>)
    ensures
        severity_sorted(by_severity(s)),
{
    lemma_buckets_above_sorted(s, -1);
}

/// The risk entries whose severity has rank `k`.
pub open spec fn has_severity_rank(k: int) -> spec_fn(RiskEntry) -> bool {
    |e: RiskEntry| severity_rank(e.1.1) == k
}

proof fn lemma_severity_bucket_is_filter(s: Seq<RiskEntry>, k: int)
    ensures
        severity_bucket(s, k) == s.filter(has_severity_rank(k)),
    decreases s.len(),
{
    reveal(Seq::filter);
    if s.len() > 0 {
        lemma_severity_bucket_is_filter(s.drop_last(), k);
    }
}

proof fn lemma_severity_bucket_filter(s: Seq<RiskEntry>, k: int, j: int)
    ensures
        severity_bucket(s, k).filter(has_severity_rank(j)) == (if j == k {
            severity_bucket(s, k)
        } else {
            Seq::<RiskEntry>::empty()
        }),
    decreases s.len(),
{
    reveal(Seq::filter);
    if s.len() > 0 {
        lemma_severity_bucket_filter(s.drop_last(), k, j);
        let b = severity_bucket(s, k);
        if severity_rank(s.last().1.1) == k {
            assert(b.drop_last() =~= severity_bucket(s.drop_last(), k));
            assert(b.last() == s.last());
        } else {
            assert(b == severity_bucket(s.drop_last(), k));
        }
    } else {
        assert(severity_bucket(s, k).filter(has_severity_rank(j)) =~= Seq::<RiskEntry>::empty());
    }
}

proof fn lemma_severity_bucket_outside(s: Seq<RiskEntry>, k: int)
    requires
        !(0 <= k <= 4),
    ensures
        severity_bucket(s, k) == Seq::<RiskEntry>::empty(),
    decreases s.len(),
{
    if s.len() > 0 {
        lemma_severity_bucket_outside(s.drop_last(), k);
    }
}

/// The risk report's order is stable: for every severity, the risks of that
/// severity come in the order in which they were found.
pub proof fn lemma_by_severity_stable(s: Seq<RiskEntry>, k: int)
    ensures
        by_severity(s).filter(has_severity_rank(k)) == s.filter(has_severity_rank(k)),
{
    reveal_with_fuel(buckets_above, 6);
    let p = has_severity_rank(k);
    let (b4, b3, b2, b1, b0) = (
        severity_bucket(s, 4),
        severity_bucket(s, 3),
        severity_bucket(s, 2),
        severity_bucket(s, 1),
        severity_bucket(s, 0),
    );
    let e = Seq::<RiskEntry>::empty();
    assert(by_severity(s) == e + b4 + b3 + b2 + b1 + b0);
    lemma_severity_bucket_filter(s, 4, k);
    lemma_severity_bucket_filter(s, 3, k);
    lemma_severity_bucket_filter(s, 2, k);
    lemma_severity_bucket_filter(s, 1, k);
    lemma_severity_bucket_filter(s, 0, k);
    lemma_severity_bucket_is_filter(s, k);
    reveal(Seq::filter);
    Seq::filter_distributes_over_add(e + b4 + b3 + b2 + b1, b0, p);
    Seq::filter_distributes_over_add(e + b4 + b3 + b2, b1, p);
    Seq::filter_distributes_over_add(e + b4 + b3, b2, p);
    Seq::filter_distributes_over_add(e + b4, b3, p);
    Seq::filter_distributes_over_add(e, b4, p);
    assert(e.filter(p) =~= e);
    if !(0 <= k <= 4) {
        lemma_severity_bucket_outside(s, k);
    }
    assert(by_severity(s).filter(p) =~= s.filter(p));
}

/// The risk report runs Critical, High, Medium, Low: a risk of one of these
/// severities is only ever preceded by risks of the same or a graver one, so
/// every Critical risk comes before every High one, and so on.
pub proof fn lemma_risks_in_severity_order(s: Seq<RiskEntry>)
    ensures
        forall|i: int, j: int|
            #![trigger by_severity(s)[i], by_severity(s)[j]]
            0 <= i < j < by_severity(s).len() ==> {
                let a = by_severity(s)[i].1.1;
                let b = by_severity(s)[j].1.1;
                &&& b == "Critical"@ ==> a == "Critical"@
                &&& b == "High"@ ==> a == "Critical"@ || a == "High"@
                &&& b == "Medium"@ ==> a == "Critical"@ || a == "High"@ || a == "Medium"@
                &&& b == "Low"@ ==> a == "Critical"@ || a == "High"@ || a == "Medium"@ || a == "Low"@
            },
{
    reveal_strlit("Critical");
    reveal_strlit("High");
    reveal_strlit("Medium");
    reveal_strlit("Low");
    assert("Critical"@.len() == 8 && "High"@.len() == 4 && "Medium"@.len() == 6 && "Low"@.len() == 3);
    assert(severity_rank("Critical"@) == 4 && severity_rank("High"@) == 3 && severity_rank("Medium"@) == 2
        && severity_rank("Low"@) == 1);
    let t = by_severity(s);
    lemma_by_severity_sorted(s);
    assert forall|i: int, j: int| 0 <= i < j < t.len() implies {
        let a = #[trigger] t[i].1.1;
        let b = #[trigger] t[j].1.1;
        &&& b == "Critical"@ ==> a == "Critical"@
        &&& b == "High"@ ==> a == "Critical"@ || a == "High"@
        &&& b == "Medium"@ ==> a == "Critical"@ || a == "High"@ || a == "Medium"@
        &&& b == "Low"@ ==> a == "Critical"@ || a == "High"@ || a == "Medium"@ || a == "Low"@
    } by {
        assert(severity_rank(t[i].1.1) >= severity_rank(t[j].1.1));
    }
}

} // verus!
