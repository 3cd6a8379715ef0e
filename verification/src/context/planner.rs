//! The context plan: which files to hand to a language model, and in what
//! order.

use vstd::prelude::*;
use crate::ir::schema::{ContextPlanItem, EntrypointObject, FileObject, FileRoleObject, RiskFlagObject};
use crate::risk::{by_severity, lemma_by_severity_permutes, lemma_secret_entry, owned_opt_view, risk_entries};
use crate::risk::secrets::{risk_is, secret_file_name, secret_risk_of};
use crate::text::{after_last, chars_of, owned, str_same};
use super::priority::{get_priority_for_role, priority_for_role};
use super::token_estimator::{estimate_file_tokens, tokens_for_size};

verus! {

/// A plan entry before ranking: file, priority, reason and token estimate.
pub type PlanEntry = (Seq<char>, Seq<char>, Seq<char>, nat);

/// Some risk flagged on file `f` is `Critical` or `High`.
pub open spec fn is_risky(risks: Seq<RiskFlagObject>, f: Seq<char>) -> bool {
    exists|i: int|
        0 <= i < risks.len() && (#[trigger] risks[i]).file@ == f && (risks[i].severity@
            == "Critical"@ || risks[i].severity@ == "High"@)
}

/// Some entry point is file `f`.
pub open spec fn is_entrypoint(eps: Seq<EntrypointObject>, f: Seq<char>) -> bool {
    exists|i: int| 0 <= i < eps.len() && (#[trigger] eps[i]).file@ == f
}

/// The role of the last role record of file `f`, if any.
pub open spec fn last_role_of(roles: Seq<FileRoleObject>, f: Seq<char>) -> Option<Seq<char>>
    decreases roles.len(),
{
    if roles.len() == 0 {
        None
    } else if roles.last().file@ == f {
        Some(roles.last().role@)
    } else {
        last_role_of(roles.drop_last(), f)
    }
}

/// The plan entry of one file: a security-sensitive (`Dangerous`) file is
/// never sent, an entry point is always sent, and other files go by their
/// role (`Utility` when they have none).
pub open spec fn plan_entry(file: FileObject, eps: Seq<EntrypointObject>, roles: Seq<FileRoleObject>) -> PlanEntry {
    let role = match last_role_of(roles, file.path@) {
        Some(r) => r,
        None => "Utility"@,
    };
    let (priority, reason) = if role != "Dangerous"@ && is_entrypoint(eps, file.path@) {
        ("MustSend"@, "Execution entrypoint - essential for understanding"@)
    } else {
        priority_for_role(role)
    };
    (file.path@, priority, reason, tokens_for_size(file.size_bytes))
}

/// Plan entries of the files that carry no critical or high risk, in file
/// order.
pub open spec fn plan_entries(
    fs: Seq<FileObject>,
    eps: Seq<EntrypointObject>,
    roles: Seq<FileRoleObject>,
    risks: Seq<RiskFlagObject>,
) -> Seq<PlanEntry>
    decreases fs.len(),
{
    if fs.len() == 0 {
        Seq::empty()
    } else {
        let acc = plan_entries(fs.drop_last(), eps, roles, risks);
        if is_risky(risks, fs.last().path@) {
            acc
        } else {
            acc.push(plan_entry(fs.last(), eps, roles))
        }
    }
}

/// Sort key of a priority: `MustSend` first, unknown priorities last.
pub open spec fn priority_order(p: Seq<char>) -> int {
    if p == "MustSend"@ {
        1
    } else if p == "ShouldSend"@ {
        2
    } else if p == "SendIfNeeded"@ {
        3
    } else if p == "IgnoreFirst"@ {
        4
    } else if p == "NeverSend"@ {
        5
    } else {
        6
    }
}

/// The entries of `s` whose priority has sort key `k`, in their order.
pub open spec fn bucket(s: Seq<PlanEntry>, k: int) -> Seq<PlanEntry>
    decreases s.len(),
{
    if s.len() == 0 {
        Seq::empty()
    } else if priority_order(s.last().1) == k {
        bucket(s.drop_last(), k).push(s.last())
    } else {
        bucket(s.drop_last(), k)
    }
}

/// `s` in a stable sort by priority key.
pub open spec fn by_priority(s: Seq<PlanEntry>) -> Seq<PlanEntry> {
    bucket(s, 1) + bucket(s, 2) + bucket(s, 3) + bucket(s, 4) + bucket(s, 5) + bucket(s, 6)
}

/// The plan item carries rank `rank` and entry `e`.
pub open spec fn item_is(item: ContextPlanItem, rank: int, e: PlanEntry) -> bool {
    &&& item.rank == rank
    &&& item.file@ == e.0
    &&& item.priority@ == e.1
    &&& item.reason@ == e.2
    &&& item.estimated_tokens == e.3
}

fn is_risky_exec(risks: &[RiskFlagObject], f: &String) -> (r: bool)
    ensures
        r == is_risky(risks@, f@),
{
    let crit = owned("Critical");
    let high = owned("High");
    let mut i: usize = 0;
    while i < risks.len()
        invariant
            i <= risks.len(),
            crit@ == "Critical"@,
            high@ == "High"@,
            forall|j: int|
                0 <= j < i ==> !((#[trigger] risks@[j]).file@ == f@ && (risks@[j].severity@
                    == "Critical"@ || risks@[j].severity@ == "High"@)),
        decreases risks.len() - i,
    {
        if risks[i].file == *f && (risks[i].severity == crit || risks[i].severity == high) {
            return true;
        }
        i += 1;
    }
    false
}

fn is_entrypoint_exec(eps: &[EntrypointObject], f: &String) -> (r: bool)
    ensures
        r == is_entrypoint(eps@, f@),
{
    let mut i: usize = 0;
    while i < eps.len()
        invariant
            i <= eps.len(),
            forall|j: int| 0 <= j < i ==> (#[trigger] eps@[j]).file@ != f@,
        decreases eps.len() - i,
    {
        if eps[i].file == *f {
            return true;
        }
        i += 1;
    }
    false
}

fn last_role_exec(roles: &[FileRoleObject], f: &String) -> (r: Option<String>)
    ensures
        match r {
            Some(s) => last_role_of(roles@, f@) == Some(s@),
            None => last_role_of(roles@, f@) is None,
        },
{
    let mut i: usize = roles.len();
    proof {
        lemma_take_all(roles@);
    }
    while i > 0
        invariant
            i <= roles.len(),
            last_role_of(roles@, f@) == last_role_of(roles@.take(i as int), f@),
        decreases i,
    {
        proof {
            assert(roles@.take(i as int).drop_last() =~= roles@.take(i - 1));
        }
        if roles[i - 1].file == *f {
            return Some(roles[i - 1].role.clone());
        }
        i -= 1;
    }
    None
}

proof fn lemma_take_all<T>(s: Seq<T>)
    ensures
        s.take(s.len() as int) == s,
{
    assert(s.take(s.len() as int) =~= s);
}

proof fn lemma_bucket_step(s: Seq<PlanEntry>, i: int, k: int)
    requires
        0 <= i < s.len(),
    ensures
        bucket(s.take(i + 1), k) == if priority_order(s[i].1) == k {
            bucket(s.take(i), k).push(s[i])
        } else {
            bucket(s.take(i), k)
        },
{
    assert(s.take(i + 1).drop_last() =~= s.take(i));
}

/// The plan: every file without a critical or high risk, with its priority
/// (`Dangerous` files `NeverSend`, other entry points `MustSend`, the rest by
/// role) and token estimate, stably
/// sorted by priority and ranked from 1.
pub fn plan_context(
    files: &[FileObject],
    entrypoints: &[EntrypointObject],
    file_roles: &[FileRoleObject],
    risks: &[RiskFlagObject],
) -> (r: Vec<ContextPlanItem>)
    ensures
        r@.len() == by_priority(plan_entries(files@, entrypoints@, file_roles@, risks@)).len(),
        forall|i: int|
            0 <= i < r@.len() ==> item_is(
                #[trigger] r@[i],
                i + 1,
                by_priority(plan_entries(files@, entrypoints@, file_roles@, risks@))[i],
            ),
{
    let ghost entries = plan_entries(files@, entrypoints@, file_roles@, risks@);
    let mut plan: Vec<ContextPlanItem> = Vec::new();
    let mut i: usize = 0;
    while i < files.len()
        invariant
            i <= files.len(),
            plan@.len() == plan_entries(files@.take(i as int), entrypoints@, file_roles@, risks@).len(),
            forall|j: int|
                0 <= j < plan@.len() ==> item_is(
                    #[trigger] plan@[j],
                    0,
                    plan_entries(files@.take(i as int), entrypoints@, file_roles@, risks@)[j],
                ),
        decreases files.len() - i,
    {
        proof {
            assert(files@.take(i + 1).drop_last() =~= files@.take(i as int));
            assert(files@.take(i + 1).last() == files@[i as int]);
        }
        let file = &files[i];
        if !is_risky_exec(risks, &file.path) {
            let role = match last_role_exec(file_roles, &file.path) {
                Some(r) => r,
                None => owned("Utility"),
            };
            let dangerous = str_same(chars_of(role.as_str()).as_slice(), "Dangerous");
            let (priority, reason) = if !dangerous && is_entrypoint_exec(entrypoints, &file.path) {
                (owned("MustSend"), owned("Execution entrypoint - essential for understanding"))
            } else {
                get_priority_for_role(role.as_str())
            };
            let estimated_tokens = estimate_file_tokens(file);
            plan.push(
                ContextPlanItem { rank: 0, file: file.path.clone(), priority, reason, estimated_tokens },
            );
        }
        i += 1;
    }
    proof {
        lemma_take_all(files@);
    }
    // Stable sort by priority key: append the items of each key in turn.
    let mut sorted: Vec<ContextPlanItem> = Vec::new();
    let mut key: u8 = 1;
    while key <= 6
        invariant
            1 <= key <= 7,
            plan@.len() == entries.len(),
            entries == plan_entries(files@, entrypoints@, file_roles@, risks@),
            forall|j: int| 0 <= j < plan@.len() ==> item_is(#[trigger] plan@[j], 0, entries[j]),
            sorted@.len() == prefix_buckets(entries, key as int).len(),
            forall|j: int|
                0 <= j < sorted@.len() ==> item_is(#[trigger] sorted@[j], j + 1, prefix_buckets(entries, key as int)[j]),
        decreases 7 - key,
    {
        let mut j: usize = 0;
        let ghost base = sorted@.len();
        while j < plan.len()
            invariant
                1 <= key <= 6,
                j <= plan@.len(),
                plan@.len() == entries.len(),
                forall|m: int| 0 <= m < plan@.len() ==> item_is(#[trigger] plan@[m], 0, entries[m]),
                base == prefix_buckets(entries, key as int).len(),
                sorted@.len() == base + bucket(entries.take(j as int), key as int).len(),
                forall|m: int|
                    0 <= m < sorted@.len() ==> item_is(
                        #[trigger] sorted@[m],
                        m + 1,
                        (prefix_buckets(entries, key as int) + bucket(entries.take(j as int), key as int))[m],
                    ),
            decreases plan.len() - j,
        {
            proof {
                lemma_bucket_step(entries, j as int, key as int);
                lemma_order_exec(plan@[j as int].priority@);
            }
            if order_of(&plan[j].priority) == key {
                let item = &plan[j];
                let n = sorted.len();
                proof {
                    lemma_bucket_prefix_len(entries, j + 1, key as int);
                    lemma_prefix_buckets_len(entries, key as int);
                }
                sorted.push(
                    ContextPlanItem {
                        rank: n + 1,
                        file: item.file.clone(),
                        priority: item.priority.clone(),
                        reason: item.reason.clone(),
                        estimated_tokens: item.estimated_tokens,
                    },
                );
                proof {
                    let pre = prefix_buckets(entries, key as int);
                    assert(pre + bucket(entries.take(j + 1), key as int) =~= (pre + bucket(
                        entries.take(j as int),
                        key as int,
                    )).push(entries[j as int]));
                }
            }
            j += 1;
        }
        proof {
            lemma_take_all(entries);
            assert(prefix_buckets(entries, key + 1) == prefix_buckets(entries, key as int) + bucket(entries, key as int));
        }
        key += 1;
    }
    proof {
        reveal_with_fuel(prefix_buckets, 7);
        assert(prefix_buckets(entries, 7) =~= by_priority(entries));
    }
    sorted
}

/// The buckets of keys below `k`, concatenated.
pub open spec fn prefix_buckets(s: Seq<PlanEntry>, k: int) -> Seq<PlanEntry>
    decreases k,
{
    if k <= 1 {
        Seq::empty()
    } else {
        prefix_buckets(s, k - 1) + bucket(s, k - 1)
    }
}

proof fn lemma_bucket_len(s: Seq<PlanEntry>, k: int)
    ensures
        bucket(s, k).len() <= s.len(),
    decreases s.len(),
{
    if s.len() > 0 {
        lemma_bucket_len(s.drop_last(), k);
    }
}

proof fn lemma_bucket_prefix_len(s: Seq<PlanEntry>, j: int, k: int)
    requires
        0 <= j <= s.len(),
    ensures
        bucket(s.take(j), k).len() <= bucket(s, k).len(),
    decreases s.len(),
{
    if j < s.len() {
        assert(s.drop_last().take(j) =~= s.take(j));
        lemma_bucket_prefix_len(s.drop_last(), j, k);
    } else {
        assert(s.take(j) =~= s);
    }
}

/// Sorting by priority keeps every entry, as often as it occurs.
pub proof fn lemma_by_priority_permutes(s: Seq<PlanEntry>)
    ensures
        by_priority(s).to_multiset() == s.to_multiset(),
        by_priority(s).len() == s.len(),
    decreases s.len(),
{
    broadcast use vstd::seq_lib::group_to_multiset_ensures;
    broadcast use vstd::seq_lib::lemma_multiset_commutative;

    if s.len() == 0 {
        assert(by_priority(s) =~= Seq::<PlanEntry>::empty());
    } else {
        let t = s.drop_last();
        let x = s.last();
        lemma_by_priority_permutes(t);
        assert(s =~= t.push(x));
        let k = priority_order(x.1);
        assert(1 <= k <= 6);
        let b1 = bucket(s, 1);
        let b2 = bucket(s, 2);
        let b3 = bucket(s, 3);
        let b4 = bucket(s, 4);
        let b5 = bucket(s, 5);
        let b6 = bucket(s, 6);
        assert(by_priority(s).to_multiset() =~= b1.to_multiset().add(b2.to_multiset()).add(
            b3.to_multiset(),
        ).add(b4.to_multiset()).add(b5.to_multiset()).add(b6.to_multiset()));
        assert(by_priority(t).to_multiset() =~= bucket(t, 1).to_multiset().add(
            bucket(t, 2).to_multiset(),
        ).add(bucket(t, 3).to_multiset()).add(bucket(t, 4).to_multiset()).add(
            bucket(t, 5).to_multiset(),
        ).add(bucket(t, 6).to_multiset()));
        assert(by_priority(s).to_multiset() =~= by_priority(t).to_multiset().insert(x));
        assert(s.to_multiset() =~= t.to_multiset().insert(x));
        assert(by_priority(s).len() == by_priority(s).to_multiset().len());
        assert(s.len() == s.to_multiset().len());
    }
}

proof fn lemma_prefix_buckets_len(s: Seq<PlanEntry>, k: int)
    requires
        1 <= k <= 6,
    ensures
        prefix_buckets(s, k).len() + bucket(s, k).len() <= s.len(),
{
    lemma_by_priority_permutes(s);
    reveal_with_fuel(prefix_buckets, 7);
    assert(by_priority(s) =~= prefix_buckets(s, 7));
    lemma_prefix_buckets_grow(s, k + 1, 7);
}

proof fn lemma_prefix_buckets_grow(s: Seq<PlanEntry>, k: int, m: int)
    requires
        1 <= k <= m,
    ensures
        prefix_buckets(s, k).len() <= prefix_buckets(s, m).len(),
    decreases m - k,
{
    if k < m {
        lemma_prefix_buckets_grow(s, k, m - 1);
    }
}

proof fn lemma_order_exec(p: Seq<char>)
    ensures
        1 <= priority_order(p) <= 6,
{
}

fn order_of(p: &String) -> (r: u8)
    ensures
        r as int == priority_order(p@),
{
    let c = crate::text::chars_of(p.as_str());
    let c = c.as_slice();
    if crate::text::str_same(c, "MustSend") {
        1
    } else if crate::text::str_same(c, "ShouldSend") {
        2
    } else if crate::text::str_same(c, "SendIfNeeded") {
        3
    } else if crate::text::str_same(c, "IgnoreFirst") {
        4
    } else if crate::text::str_same(c, "NeverSend") {
        5
    } else {
        6
    }
}


/// Every entry of bucket `k` has priority key `k`.
proof fn lemma_bucket_keys(s: Seq<PlanEntry>, k: int)
    ensures
        forall|m: int| 0 <= m < bucket(s, k).len() ==> priority_order((#[trigger] bucket(s, k)[m]).1) == k,
    decreases s.len(),
{
    if s.len() > 0 {
        lemma_bucket_keys(s.drop_last(), k);
        let front = bucket(s.drop_last(), k);
        assert forall|m: int| 0 <= m < bucket(s, k).len() implies priority_order(
            (#[trigger] bucket(s, k)[m]).1,
        ) == k by {
            if m < front.len() {
                assert(bucket(s, k)[m] == front[m]);
            }
        }
    }
}

/// The plan entries run in nondecreasing priority key.
pub open spec fn keys_sorted(s: Seq<PlanEntry>) -> bool {
    forall|i: int, j: int| 0 <= i < j < s.len() ==> priority_order((#[trigger] s[i]).1) <= priority_order((#[trigger] s[j]).1)
}

proof fn lemma_append_bucket(a: Seq<PlanEntry>, b: Seq<PlanEntry>, k: int)
    requires
        keys_sorted(a),
        forall|m: int| 0 <= m < a.len() ==> priority_order((#[trigger] a[m]).1) < k,
        forall|m: int| 0 <= m < b.len() ==> priority_order((#[trigger] b[m]).1) == k,
    ensures
        keys_sorted(a + b),
        forall|m: int| 0 <= m < (a + b).len() ==> priority_order((#[trigger] (a + b)[m]).1) <= k,
{
    assert forall|i: int, j: int| 0 <= i < j < (a + b).len() implies priority_order(
        (#[trigger] (a + b)[i]).1,
    ) <= priority_order((#[trigger] (a + b)[j]).1) by {
        if j < a.len() {
            assert((a + b)[i] == a[i] && (a + b)[j] == a[j]);
        } else if i < a.len() {
            assert((a + b)[i] == a[i] && (a + b)[j] == b[j - a.len()]);
        } else {
            assert((a + b)[i] == b[i - a.len()] && (a + b)[j] == b[j - a.len()]);
        }
    }
    assert forall|m: int| 0 <= m < (a + b).len() implies priority_order((#[trigger] (a + b)[m]).1) <= k by {
        if m < a.len() {
            assert((a + b)[m] == a[m]);
        } else {
            assert((a + b)[m] == b[m - a.len()]);
        }
    }
}

/// Sorting by priority puts `MustSend` first, then `ShouldSend`,
/// `SendIfNeeded`, `IgnoreFirst`, `NeverSend` and anything else.
pub proof fn lemma_by_priority_sorted(s: Seq<PlanEntry>)
    ensures
        keys_sorted(by_priority(s)),
{
    lemma_bucket_keys(s, 1);
    lemma_bucket_keys(s, 2);
    lemma_bucket_keys(s, 3);
    lemma_bucket_keys(s, 4);
    lemma_bucket_keys(s, 5);
    lemma_bucket_keys(s, 6);
    let b1 = bucket(s, 1);
    assert(keys_sorted(b1));
    lemma_append_bucket(b1, bucket(s, 2), 2);
    lemma_append_bucket(b1 + bucket(s, 2), bucket(s, 3), 3);
    lemma_append_bucket(b1 + bucket(s, 2) + bucket(s, 3), bucket(s, 4), 4);
    lemma_append_bucket(b1 + bucket(s, 2) + bucket(s, 3) + bucket(s, 4), bucket(s, 5), 5);
    lemma_append_bucket(
        b1 + bucket(s, 2) + bucket(s, 3) + bucket(s, 4) + bucket(s, 5),
        bucket(s, 6),
        6,
    );
}

/// No plan entry is a file with a critical or high risk.
proof fn lemma_entries_not_risky(
    fs: Seq<FileObject>,
    eps: Seq<EntrypointObject>,
    roles: Seq<FileRoleObject>,
    risks: Seq<RiskFlagObject>,
)
    ensures
        forall|m: int|
            0 <= m < plan_entries(fs, eps, roles, risks).len() ==> !is_risky(
                risks,
                (#[trigger] plan_entries(fs, eps, roles, risks)[m]).0,
            ),
    decreases fs.len(),
{
    if fs.len() > 0 {
        lemma_entries_not_risky(fs.drop_last(), eps, roles, risks);
        let front = plan_entries(fs.drop_last(), eps, roles, risks);
        let all = plan_entries(fs, eps, roles, risks);
        assert forall|m: int| 0 <= m < all.len() implies !is_risky(risks, (#[trigger] all[m]).0) by {
            if m < front.len() {
                assert(all[m] == front[m]);
            }
        }
    }
}

/// The plan never holds a file with a critical or high risk: such files are
/// never handed to a language model.
pub proof fn lemma_plan_never_risky(
    fs: Seq<FileObject>,
    eps: Seq<EntrypointObject>,
    roles: Seq<FileRoleObject>,
    risks: Seq<RiskFlagObject>,
)
    ensures
        forall|i: int|
            0 <= i < by_priority(plan_entries(fs, eps, roles, risks)).len() ==> !is_risky(
                risks,
                (#[trigger] by_priority(plan_entries(fs, eps, roles, risks))[i]).0,
            ),
{
    broadcast use vstd::seq_lib::group_to_multiset_ensures;

    let s = plan_entries(fs, eps, roles, risks);
    let b = by_priority(s);
    lemma_by_priority_permutes(s);
    lemma_entries_not_risky(fs, eps, roles, risks);
    assert forall|i: int| 0 <= i < b.len() implies !is_risky(risks, (#[trigger] b[i]).0) by {
        assert(b.to_multiset().count(b[i]) > 0);
        assert(s.to_multiset().count(b[i]) > 0);
        assert(s.contains(b[i]));
        let m = choose|m: int| 0 <= m < s.len() && s[m] == b[i];
        assert(!is_risky(risks, s[m].0));
    }
}

/// A file named like an environment file or a key or certificate never
/// enters the context plan made with the risks that `detect_risks` reports
/// for the same files.
pub proof fn lemma_secret_files_never_planned(
    fs: Seq<FileObject>,
    contents: Seq<Option<String>>,
    eps: Seq<EntrypointObject>,
    roles: Seq<FileRoleObject>,
    risks: Seq<RiskFlagObject>,
    k: int,
)
    requires
        risks.len() == by_severity(risk_entries(fs, contents)).len(),
        forall|i: int|
            0 <= i < risks.len() ==> risk_is(
                #[trigger] risks[i],
                by_severity(risk_entries(fs, contents))[i].0,
                by_severity(risk_entries(fs, contents))[i].1,
            ),
        0 <= k < fs.len(),
        secret_file_name(after_last(fs[k].path@, '/')),
    ensures
        forall|i: int|
            0 <= i < by_priority(plan_entries(fs, eps, roles, risks)).len() ==> (#[trigger] by_priority(
                plan_entries(fs, eps, roles, risks),
            )[i]).0 != fs[k].path@,
{
    broadcast use vstd::seq_lib::group_to_multiset_ensures;

    let s = risk_entries(fs, contents);
    let d = secret_risk_of(fs[k], owned_opt_view(contents[k]));
    assert(d is Some);
    let e = (fs[k].path@, d.unwrap());
    assert(e.1.1 == "High"@ || e.1.1 == "Critical"@);
    lemma_secret_entry(fs, contents, k);
    lemma_by_severity_permutes(s);
    assert(s.to_multiset().count(e) > 0);
    assert(by_severity(s).to_multiset().count(e) > 0);
    assert(by_severity(s).contains(e));
    let j = choose|j: int| 0 <= j < by_severity(s).len() && by_severity(s)[j] == e;
    assert(risk_is(risks[j], e.0, e.1));
    assert(is_risky(risks, fs[k].path@));
    lemma_plan_never_risky(fs, eps, roles, risks);
}

/// A file whose role is `Dangerous` is planned as `NeverSend`, even when it
/// is an entry point: security-sensitive files are never sent by default.
pub proof fn lemma_dangerous_files_never_sent(f: FileObject, eps: Seq<EntrypointObject>, roles: Seq<FileRoleObject>)
    requires
        last_role_of(roles, f.path@) == Some("Dangerous"@),
    ensures
        plan_entry(f, eps, roles).1 == "NeverSend"@,
{
    reveal_strlit("Dangerous");
    reveal_strlit("Brain");
    reveal_strlit("Entry");
    reveal_strlit("Interface");
    reveal_strlit("Connector");
    reveal_strlit("Config");
    reveal_strlit("Output");
    reveal_strlit("Utility");
    assert("Dangerous"@.len() != "Brain"@.len());
    assert("Dangerous"@.len() != "Entry"@.len());
    assert("Dangerous"@.len() != "Config"@.len());
    assert("Dangerous"@.len() != "Output"@.len());
    assert("Dangerous"@.len() != "Utility"@.len());
    assert("Dangerous"@[0] != "Interface"@[0]);
    assert("Dangerous"@[0] != "Connector"@[0]);
    assert("Dangerous"@ != "Brain"@);
    assert("Dangerous"@ != "Entry"@);
    assert("Dangerous"@ != "Interface"@);
    assert("Dangerous"@ != "Connector"@);
    assert("Dangerous"@ != "Config"@);
    assert("Dangerous"@ != "Output"@);
    assert("Dangerous"@ != "Utility"@);
    assert(priority_for_role("Dangerous"@).0 == "NeverSend"@);
    assert(plan_entry(f, eps, roles).1 == priority_for_role("Dangerous"@).0);
}

/// The entries whose priority has sort key `k`.
pub open spec fn has_priority(k: int) -> spec_fn(PlanEntry) -> bool {
    |e: PlanEntry| priority_order(e.1) == k
}

proof fn lemma_bucket_is_filter(s: Seq<PlanEntry>, k: int)
    ensures
        bucket(s, k) == s.filter(has_priority(k)),
    decreases s.len(),
{
    reveal(Seq::filter);
    if s.len() > 0 {
        lemma_bucket_is_filter(s.drop_last(), k);
    }
}

proof fn lemma_bucket_filter(s: Seq<PlanEntry>, k: int, j: int)
    ensures
        bucket(s, k).filter(has_priority(j)) == (if j == k { bucket(s, k) } else { Seq::<PlanEntry>::empty() }),
    decreases s.len(),
{
    reveal(Seq::filter);
    if s.len() > 0 {
        lemma_bucket_filter(s.drop_last(), k, j);
        let b = bucket(s, k);
        if priority_order(s.last().1) == k {
            assert(b.drop_last() =~= bucket(s.drop_last(), k));
            assert(b.last() == s.last());
        } else {
            assert(b == bucket(s.drop_last(), k));
        }
    } else {
        assert(bucket(s, k).filter(has_priority(j)) =~= Seq::<PlanEntry>::empty());
    }
}

proof fn lemma_bucket_outside(s: Seq<PlanEntry>, k: int)
    requires
        !(1 <= k <= 6),
    ensures
        bucket(s, k) == Seq::<PlanEntry>::empty(),
    decreases s.len(),
{
    if s.len() > 0 {
        lemma_bucket_outside(s.drop_last(), k);
    }
}

/// The plan's order is stable: for every priority, the entries of that
/// priority come in the order of their files.
pub proof fn lemma_by_priority_stable(s: Seq<PlanEntry>, k: int)
    ensures
        by_priority(s).filter(has_priority(k)) == s.filter(has_priority(k)),
{
    let p = has_priority(k);
    lemma_bucket_filter(s, 1, k);
    lemma_bucket_filter(s, 2, k);
    lemma_bucket_filter(s, 3, k);
    lemma_bucket_filter(s, 4, k);
    lemma_bucket_filter(s, 5, k);
    lemma_bucket_filter(s, 6, k);
    lemma_bucket_is_filter(s, k);
    let (b1, b2, b3, b4, b5, b6) = (bucket(s, 1), bucket(s, 2), bucket(s, 3), bucket(s, 4), bucket(s, 5), bucket(s, 6));
    Seq::filter_distributes_over_add(b1 + b2 + b3 + b4 + b5, b6, p);
    Seq::filter_distributes_over_add(b1 + b2 + b3 + b4, b5, p);
    Seq::filter_distributes_over_add(b1 + b2 + b3, b4, p);
    Seq::filter_distributes_over_add(b1 + b2, b3, p);
    Seq::filter_distributes_over_add(b1, b2, p);
    assert((b1 + b2 + b3 + b4 + b5 + b6).filter(p) == (b1 + b2 + b3 + b4 + b5).filter(p) + b6.filter(p));
    assert((b1 + b2 + b3 + b4 + b5).filter(p) == (b1 + b2 + b3 + b4).filter(p) + b5.filter(p));
    assert((b1 + b2 + b3 + b4).filter(p) == (b1 + b2 + b3).filter(p) + b4.filter(p));
    assert((b1 + b2 + b3).filter(p) == (b1 + b2).filter(p) + b3.filter(p));
    assert((b1 + b2).filter(p) == b1.filter(p) + b2.filter(p));
    if !(1 <= k <= 6) {
        lemma_bucket_outside(s, k);
    }
    assert(by_priority(s).filter(p) =~= s.filter(p));
}

proof fn lemma_priority_literals()
    ensures
        priority_order("MustSend"@) == 1,
        priority_order("ShouldSend"@) == 2,
        priority_order("SendIfNeeded"@) == 3,
        priority_order("IgnoreFirst"@) == 4,
        priority_order("NeverSend"@) == 5,
{
    reveal_strlit("MustSend");
    reveal_strlit("ShouldSend");
    reveal_strlit("SendIfNeeded");
    reveal_strlit("IgnoreFirst");
    reveal_strlit("NeverSend");
    assert("MustSend"@.len() == 8);
    assert("ShouldSend"@.len() == 10);
    assert("SendIfNeeded"@.len() == 12);
    assert("IgnoreFirst"@.len() == 11);
    assert("NeverSend"@.len() == 9);
}

/// The plan runs `MustSend`, then `ShouldSend`, then `SendIfNeeded`, then
/// `IgnoreFirst`, then `NeverSend`: an entry of one of these priorities is
/// only ever preceded by entries of the same or a more urgent one. So every
/// `ShouldSend` file is ranked before every `SendIfNeeded` file.
pub proof fn lemma_plan_priorities_in_order(
    fs: Seq<FileObject>,
    eps: Seq<EntrypointObject>,
    roles: Seq<FileRoleObject>,
    risks: Seq<RiskFlagObject>,
)
    ensures
        forall|i: int, j: int|
            #![trigger by_priority(plan_entries(fs, eps, roles, risks))[i], by_priority(plan_entries(fs, eps, roles, risks))[j]]
            0 <= i < j < by_priority(plan_entries(fs, eps, roles, risks)).len() ==> {
                let a = by_priority(plan_entries(fs, eps, roles, risks))[i].1;
                let b = by_priority(plan_entries(fs, eps, roles, risks))[j].1;
                &&& b == "MustSend"@ ==> a == "MustSend"@
                &&& b == "ShouldSend"@ ==> a == "MustSend"@ || a == "ShouldSend"@
                &&& b == "SendIfNeeded"@ ==> a == "MustSend"@ || a == "ShouldSend"@ || a == "SendIfNeeded"@
                &&& b == "IgnoreFirst"@ ==> a == "MustSend"@ || a == "ShouldSend"@ || a == "SendIfNeeded"@
                    || a == "IgnoreFirst"@
                &&& b == "NeverSend"@ ==> a == "MustSend"@ || a == "ShouldSend"@ || a == "SendIfNeeded"@
                    || a == "IgnoreFirst"@ || a == "NeverSend"@
            },
{
    let plan = by_priority(plan_entries(fs, eps, roles, risks));
    lemma_by_priority_sorted(plan_entries(fs, eps, roles, risks));
    lemma_priority_literals();
    assert forall|i: int, j: int| 0 <= i < j < plan.len() implies {
        let a = #[trigger] plan[i].1;
        let b = #[trigger] plan[j].1;
        &&& b == "MustSend"@ ==> a == "MustSend"@
        &&& b == "ShouldSend"@ ==> a == "MustSend"@ || a == "ShouldSend"@
        &&& b == "SendIfNeeded"@ ==> a == "MustSend"@ || a == "ShouldSend"@ || a == "SendIfNeeded"@
        &&& b == "IgnoreFirst"@ ==> a == "MustSend"@ || a == "ShouldSend"@ || a == "SendIfNeeded"@
            || a == "IgnoreFirst"@
        &&& b == "NeverSend"@ ==> a == "MustSend"@ || a == "ShouldSend"@ || a == "SendIfNeeded"@
            || a == "IgnoreFirst"@ || a == "NeverSend"@
    } by {
        assert(priority_order(plan[i].1) <= priority_order(plan[j].1));
    }
}

/// An entry point whose role is not `Dangerous` is planned as `MustSend`,
/// whatever its role, with the entry-point reason; a file's token estimate
/// is a quarter of its size.
pub proof fn lemma_entry_points_sent(f: FileObject, eps: Seq<EntrypointObject>, roles: Seq<FileRoleObject>)
    ensures
        is_entrypoint(eps, f.path@) && last_role_of(roles, f.path@) != Some("Dangerous"@) ==> plan_entry(
            f,
            eps,
            roles,
        ).1 == "MustSend"@ && plan_entry(f, eps, roles).2 == "Execution entrypoint - essential for understanding"@,
        plan_entry(f, eps, roles).0 == f.path@,
        plan_entry(f, eps, roles).3 == tokens_for_size(f.size_bytes),
{
    reveal_strlit("Utility");
    reveal_strlit("Dangerous");
    assert("Utility"@.len() != "Dangerous"@.len());
}

} // verus!
