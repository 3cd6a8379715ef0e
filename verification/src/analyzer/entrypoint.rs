//! Entry point detection from file names and contents.

use vstd::prelude::*;
use crate::ir::schema::{EntrypointObject, FileObject};
use crate::risk::owned_opt_view;
use crate::risk::secrets::opt_view;
use crate::text::{
    after_last, after_last_exec, chars_of, contains_text, finishes, lemma_name_suffix, owned, str_contains,
    str_finishes, str_same,
};

verus! {

/// The facts of an entry point: kind, confidence (hundredths), reason.
pub type EntryFacts = (Seq<char>, u32, Seq<char>);

/// The record is about file `f` and carries the facts `d`.
pub open spec fn entry_is(e: EntrypointObject, f: Seq<char>, d: EntryFacts) -> bool {
    &&& e.file@ == f
    &&& e.kind@ == d.0
    &&& e.confidence == d.1
    &&& e.reason@ == d.2
}

/// The entry point facts of a file: well-known entry file names first, then
/// a main function in the content of a Rust, Python, Java or Go source.
pub open spec fn entry_of(file: FileObject, content: Option<Seq<char>>) -> Option<EntryFacts> {
    let n = after_last(file.path@, '/');
    let p = file.path@;
    let l = file.language@;
    if n == "main.rs"@ {
        Some(("rust_main"@, 95u32, "Rust main.rs - standard entry point"@))
    } else if n == "main.py"@ || n == "app.py"@ || n == "cli.py"@ {
        Some(("python_main"@, 90u32, "Python main/app/cli file - common entry point pattern"@))
    } else if n == "index.js"@ || n == "server.js"@ || n == "app.js"@ {
        Some(("nodejs_main"@, 88u32, "Node.js index/server/app file - common entry point"@))
    } else if n == "main.ts"@ || n == "index.ts"@ {
        Some(("typescript_main"@, 85u32, "TypeScript main/index file - likely entry point"@))
    } else if n == "index.html"@ {
        Some(("web_entry"@, 92u32, "HTML index - web application entry point"@))
    } else {
        match content {
            Some(c) => {
                if l == "Rust"@ && finishes(p, ".rs"@) && contains_text(c, "fn main()"@) {
                    Some(("rust_fn_main"@, 98u32, "Contains fn main() - Rust execution entry point"@))
                } else if l == "Python"@ && finishes(p, ".py"@) && (contains_text(
                    c,
                    "if __name__ == \"__main__\""@,
                ) || contains_text(c, "if __name__ == '__main__'"@)) {
                    Some(
                        (
                            "python_main_block"@,
                            95u32,
                            "Contains if __name__ == '__main__' - Python script entry"@,
                        ),
                    )
                } else if l == "Java"@ && finishes(p, ".java"@) && contains_text(
                    c,
                    "public static void main"@,
                ) {
                    Some(("java_main"@, 96u32, "Contains public static void main - Java entry point"@))
                } else if l == "Go"@ && finishes(p, ".go"@) && contains_text(c, "package main"@)
                    && contains_text(c, "func main()"@) {
                    Some(("go_main"@, 97u32, "Go package main with func main() - Go entry point"@))
                } else {
                    None
                }
            },
            None => None,
        }
    }
}

fn entry_record(file: &FileObject, kind: &str, confidence: u32, reason: &str) -> (r: EntrypointObject)
    ensures
        entry_is(r, file.path@, (kind@, confidence, reason@)),
{
    EntrypointObject { file: file.path.clone(), kind: owned(kind), confidence, reason: owned(reason) }
}

/// The entry point record of `file` (see `entry_of`); `content` is the file's
/// text when it could be read.
pub fn check_file_for_entrypoint(file: &FileObject, content: Option<&str>) -> (r: Option<EntrypointObject>)
    ensures
        match entry_of(*file, opt_view(content)) {
            Some(d) => r is Some && entry_is(r->0, file.path@, d),
            None => r is None,
        },
{
    let pc = chars_of(file.path.as_str());
    let p = pc.as_slice();
    let nc = after_last_exec(p, '/');
    let n = nc.as_slice();
    if str_same(n, "main.rs") {
        return Some(entry_record(file, "rust_main", 95, "Rust main.rs - standard entry point"));
    }
    if str_same(n, "main.py") || str_same(n, "app.py") || str_same(n, "cli.py") {
        return Some(
            entry_record(file, "python_main", 90, "Python main/app/cli file - common entry point pattern"),
        );
    }
    if str_same(n, "index.js") || str_same(n, "server.js") || str_same(n, "app.js") {
        return Some(
            entry_record(file, "nodejs_main", 88, "Node.js index/server/app file - common entry point"),
        );
    }
    if str_same(n, "main.ts") || str_same(n, "index.ts") {
        return Some(
            entry_record(file, "typescript_main", 85, "TypeScript main/index file - likely entry point"),
        );
    }
    if str_same(n, "index.html") {
        return Some(entry_record(file, "web_entry", 92, "HTML index - web application entry point"));
    }
    if let Some(content) = content {
        let cc = chars_of(content);
        let c = cc.as_slice();
        let lc = chars_of(file.language.as_str());
        let l = lc.as_slice();
        if str_same(l, "Rust") && str_finishes(p, ".rs") {
            if str_contains(c, "fn main()") {
                return Some(
                    entry_record(file, "rust_fn_main", 98, "Contains fn main() - Rust execution entry point"),
                );
            }
        }
        if str_same(l, "Python") && str_finishes(p, ".py") {
            if str_contains(c, "if __name__ == \"__main__\"") || str_contains(
                c,
                "if __name__ == '__main__'",
            ) {
                return Some(
                    entry_record(
                        file,
                        "python_main_block",
                        95,
                        "Contains if __name__ == '__main__' - Python script entry",
                    ),
                );
            }
        }
        if str_same(l, "Java") && str_finishes(p, ".java") {
            if str_contains(c, "public static void main") {
                return Some(
                    entry_record(file, "java_main", 96, "Contains public static void main - Java entry point"),
                );
            }
        }
        if str_same(l, "Go") && str_finishes(p, ".go") {
            if str_contains(c, "package main") && str_contains(c, "func main()") {
                return Some(
                    entry_record(file, "go_main", 97, "Go package main with func main() - Go entry point"),
                );
            }
        }
    }
    None
}

/// An entry point before sorting: the file and its facts.
pub type EntryEntry = (Seq<char>, EntryFacts);

/// The entry points of the files, in file order.
pub open spec fn entry_entries(fs: Seq<FileObject>, contents: Seq<Option<String>>) -> Seq<EntryEntry>
    decreases fs.len(),
{
    if fs.len() == 0 {
        Seq::empty()
    } else {
        let acc = entry_entries(fs.drop_last(), contents);
        match entry_of(fs.last(), owned_opt_view(contents[fs.len() - 1])) {
            Some(d) => acc.push((fs.last().path@, d)),
            None => acc,
        }
    }
}

/// The confidences an entry point can have, highest first.
pub open spec fn confidence_level(k: int) -> u32 {
    if k == 0 {
        98
    } else if k == 1 {
        97
    } else if k == 2 {
        96
    } else if k == 3 {
        95
    } else if k == 4 {
        92
    } else if k == 5 {
        90
    } else if k == 6 {
        88
    } else {
        85
    }
}

/// The entries of `s` with confidence `c`, in their order.
pub open spec fn confidence_bucket(s: Seq<EntryEntry>, c: u32) -> Seq<EntryEntry>
    decreases s.len(),
{
    if s.len() == 0 {
        Seq::empty()
    } else if s.last().1.1 == c {
        confidence_bucket(s.drop_last(), c).push(s.last())
    } else {
        confidence_bucket(s.drop_last(), c)
    }
}

/// The buckets of the first `k` confidence levels, concatenated.
pub open spec fn levels_upto(s: Seq<EntryEntry>, k: int) -> Seq<EntryEntry>
    decreases k,
{
    if k <= 0 {
        Seq::empty()
    } else {
        levels_upto(s, k - 1) + confidence_bucket(s, confidence_level(k - 1))
    }
}

/// `s` in a stable sort by decreasing confidence (every entry point has one
/// of the eight confidence levels).
pub open spec fn by_confidence(s: Seq<EntryEntry>) -> Seq<EntryEntry> {
    levels_upto(s, 8)
}

fn confidence_level_exec(k: usize) -> (r: u32)
    requires
        k < 8,
    ensures
        r == confidence_level(k as int),
{
    if k == 0 {
        98
    } else if k == 1 {
        97
    } else if k == 2 {
        96
    } else if k == 3 {
        95
    } else if k == 4 {
        92
    } else if k == 5 {
        90
    } else if k == 6 {
        88
    } else {
        85
    }
}

/// The entry points of the files (`contents[i]` is the text of `files[i]`
/// when it could be read), stably sorted by decreasing confidence.
pub fn detect_entrypoints(files: &[FileObject], contents: &[Option<String>]) -> (r: Vec<EntrypointObject>)
    requires
        contents@.len() == files@.len(),
    ensures
        r@.len() == by_confidence(entry_entries(files@, contents@)).len(),
        forall|i: int|
            0 <= i < r@.len() ==> entry_is(
                #[trigger] r@[i],
                by_confidence(entry_entries(files@, contents@))[i].0,
                by_confidence(entry_entries(files@, contents@))[i].1,
            ),
{
    let ghost entries = entry_entries(files@, contents@);
    let mut found: Vec<EntrypointObject> = Vec::new();
    let mut i: usize = 0;
    while i < files.len()
        invariant
            i <= files.len(),
            contents@.len() == files@.len(),
            found@.len() == entry_entries(files@.take(i as int), contents@).len(),
            forall|j: int|
                0 <= j < found@.len() ==> entry_is(
                    #[trigger] found@[j],
                    entry_entries(files@.take(i as int), contents@)[j].0,
                    entry_entries(files@.take(i as int), contents@)[j].1,
                ),
        decreases files.len() - i,
    {
        proof {
            assert(files@.take(i + 1).drop_last() =~= files@.take(i as int));
            assert(files@.take(i + 1).last() == files@[i as int]);
        }
        let content: Option<&str> = match &contents[i] {
            Some(s) => Some(s.as_str()),
            None => None,
        };
        assert(opt_view(content) == owned_opt_view(contents@[i as int]));
        if let Some(e) = check_file_for_entrypoint(&files[i], content) {
            found.push(e);
        }
        i += 1;
    }
    assert(files@.take(files@.len() as int) =~= files@);
    let mut sorted: Vec<EntrypointObject> = Vec::new();
    let mut k: usize = 0;
    while k < 8
        invariant
            k <= 8,
            found@.len() == entries.len(),
            entries == entry_entries(files@, contents@),
            forall|j: int| 0 <= j < found@.len() ==> entry_is(#[trigger] found@[j], entries[j].0, entries[j].1),
            sorted@.len() == levels_upto(entries, k as int).len(),
            forall|j: int|
                0 <= j < sorted@.len() ==> entry_is(
                    #[trigger] sorted@[j],
                    levels_upto(entries, k as int)[j].0,
                    levels_upto(entries, k as int)[j].1,
                ),
        decreases 8 - k,
    {
        let level = confidence_level_exec(k);
        let ghost base = levels_upto(entries, k as int);
        let mut j: usize = 0;
        while j < found.len()
            invariant
                k < 8,
                level == confidence_level(k as int),
                j <= found@.len(),
                found@.len() == entries.len(),
                forall|m: int| 0 <= m < found@.len() ==> entry_is(#[trigger] found@[m], entries[m].0, entries[m].1),
                base == levels_upto(entries, k as int),
                sorted@.len() == base.len() + confidence_bucket(entries.take(j as int), level).len(),
                forall|m: int|
                    0 <= m < sorted@.len() ==> entry_is(
                        #[trigger] sorted@[m],
                        (base + confidence_bucket(entries.take(j as int), level))[m].0,
                        (base + confidence_bucket(entries.take(j as int), level))[m].1,
                    ),
            decreases found.len() - j,
        {
            proof {
                assert(entries.take(j + 1).drop_last() =~= entries.take(j as int));
            }
            if found[j].confidence == level {
                let e = &found[j];
                sorted.push(
                    EntrypointObject {
                        file: e.file.clone(),
                        kind: e.kind.clone(),
                        confidence: e.confidence,
                        reason: e.reason.clone(),
                    },
                );
                proof {
                    assert(base + confidence_bucket(entries.take(j + 1), level) =~= (base
                        + confidence_bucket(entries.take(j as int), level)).push(entries[j as int]));
                }
            }
            j += 1;
        }
        proof {
            assert(entries.take(entries.len() as int) =~= entries);
            assert(levels_upto(entries, k + 1) == levels_upto(entries, k as int) + confidence_bucket(entries, level));
        }
        k += 1;
    }
    sorted
}


/// Every entry of the bucket of confidence `c` has confidence `c`.
proof fn lemma_confidence_bucket_keys(s: Seq<EntryEntry>, c: u32)
    ensures
        forall|m: int|
            0 <= m < confidence_bucket(s, c).len() ==> (#[trigger] confidence_bucket(s, c)[m]).1.1 == c,
    decreases s.len(),
{
    if s.len() > 0 {
        lemma_confidence_bucket_keys(s.drop_last(), c);
        let front = confidence_bucket(s.drop_last(), c);
        assert forall|m: int| 0 <= m < confidence_bucket(s, c).len() implies (#[trigger] confidence_bucket(
            s,
            c,
        )[m]).1.1 == c by {
            if m < front.len() {
                assert(confidence_bucket(s, c)[m] == front[m]);
            }
        }
    }
}

/// The entry points run from the most confident down.
pub open spec fn confidence_sorted(s: Seq<EntryEntry>) -> bool {
    forall|i: int, j: int| 0 <= i < j < s.len() ==> (#[trigger] s[i]).1.1 >= (#[trigger] s[j]).1.1
}

proof fn lemma_levels_sorted(s: Seq<EntryEntry>, k: int)
    requires
        0 <= k <= 8,
    ensures
        confidence_sorted(levels_upto(s, k)),
        k >= 1 ==> forall|m: int|
            0 <= m < levels_upto(s, k).len() ==> (#[trigger] levels_upto(s, k)[m]).1.1 >= confidence_level(k - 1),
    decreases k,
{
    if k >= 1 {
        lemma_levels_sorted(s, k - 1);
        lemma_confidence_bucket_keys(s, confidence_level(k - 1));
        let a = levels_upto(s, k - 1);
        let b = confidence_bucket(s, confidence_level(k - 1));
        assert(k >= 2 ==> confidence_level(k - 2) > confidence_level(k - 1));
        assert forall|i: int, j: int| 0 <= i < j < (a + b).len() implies (#[trigger] (a + b)[i]).1.1
            >= (#[trigger] (a + b)[j]).1.1 by {
            if j < a.len() {
                assert((a + b)[i] == a[i] && (a + b)[j] == a[j]);
            } else if i < a.len() {
                assert((a + b)[i] == a[i] && (a + b)[j] == b[j - a.len()]);
            } else {
                assert((a + b)[i] == b[i - a.len()] && (a + b)[j] == b[j - a.len()]);
            }
        }
        assert forall|m: int| 0 <= m < (a + b).len() implies (#[trigger] (a + b)[m]).1.1 >= confidence_level(
            k - 1,
        ) by {
            if m < a.len() {
                assert((a + b)[m] == a[m]);
            } else {
                assert((a + b)[m] == b[m - a.len()]);
            }
        }
    }
}

/// The entry points are reported from the most confident down.
pub proof fn lemma_by_confidence_sorted(s: Seq<EntryEntry>)
    ensures
        confidence_sorted(by_confidence(s)),
{
    lemma_levels_sorted(s, 8);
}

/// One of the eight confidences an entry point can have.
pub open spec fn is_confidence_level(c: u32) -> bool {
    c == 98 || c == 97 || c == 96 || c == 95 || c == 92 || c == 90 || c == 88 || c == 85
}

proof fn lemma_entry_levels(fs: Seq<FileObject>, contents: Seq<Option<String>>)
    ensures
        forall|i: int|
            0 <= i < entry_entries(fs, contents).len() ==> is_confidence_level(
                (#[trigger] entry_entries(fs, contents)[i]).1.1,
            ),
    decreases fs.len(),
{
    if fs.len() > 0 {
        lemma_entry_levels(fs.drop_last(), contents);
        let acc = entry_entries(fs.drop_last(), contents);
        let all = entry_entries(fs, contents);
        assert forall|i: int| 0 <= i < all.len() implies is_confidence_level((#[trigger] all[i]).1.1) by {
            if i < acc.len() {
                assert(all[i] == acc[i]);
            }
        }
    }
}

proof fn lemma_levels_multiset(s: Seq<EntryEntry>)
    requires
        forall|i: int| 0 <= i < s.len() ==> is_confidence_level((#[trigger] s[i]).1.1),
    ensures
        by_confidence(s).to_multiset() == s.to_multiset(),
        by_confidence(s).len() == s.len(),
    decreases s.len(),
{
    broadcast use vstd::seq_lib::group_to_multiset_ensures;
    broadcast use vstd::seq_lib::lemma_multiset_commutative;

    reveal_with_fuel(levels_upto, 9);
    if s.len() == 0 {
        assert(by_confidence(s) =~= Seq::<EntryEntry>::empty());
    } else {
        let t = s.drop_last();
        let x = s.last();
        assert forall|i: int| 0 <= i < t.len() implies is_confidence_level((#[trigger] t[i]).1.1) by {
            assert(t[i] == s[i]);
        }
        lemma_levels_multiset(t);
        assert(s =~= t.push(x));
        assert(is_confidence_level(s[s.len() - 1].1.1));
        assert(by_confidence(s).to_multiset() =~= confidence_bucket(s, 98).to_multiset().add(
            confidence_bucket(s, 97).to_multiset(),
        ).add(confidence_bucket(s, 96).to_multiset()).add(confidence_bucket(s, 95).to_multiset()).add(
            confidence_bucket(s, 92).to_multiset(),
        ).add(confidence_bucket(s, 90).to_multiset()).add(confidence_bucket(s, 88).to_multiset()).add(
            confidence_bucket(s, 85).to_multiset(),
        ));
        assert(by_confidence(t).to_multiset() =~= confidence_bucket(t, 98).to_multiset().add(
            confidence_bucket(t, 97).to_multiset(),
        ).add(confidence_bucket(t, 96).to_multiset()).add(confidence_bucket(t, 95).to_multiset()).add(
            confidence_bucket(t, 92).to_multiset(),
        ).add(confidence_bucket(t, 90).to_multiset()).add(confidence_bucket(t, 88).to_multiset()).add(
            confidence_bucket(t, 85).to_multiset(),
        ));
        assert(by_confidence(s).to_multiset() =~= by_confidence(t).to_multiset().insert(x));
        assert(s.to_multiset() =~= t.to_multiset().insert(x));
        assert(by_confidence(s).len() == by_confidence(s).to_multiset().len());
        assert(s.len() == s.to_multiset().len());
    }
}

/// Sorting the entry points by confidence keeps every one of them, as often
/// as it occurs.
pub proof fn lemma_entrypoints_all_kept(fs: Seq<FileObject>, contents: Seq<Option<String>>)
    ensures
        by_confidence(entry_entries(fs, contents)).to_multiset() == entry_entries(fs, contents).to_multiset(),
        by_confidence(entry_entries(fs, contents)).len() == entry_entries(fs, contents).len(),
{
    lemma_entry_levels(fs, contents);
    lemma_levels_multiset(entry_entries(fs, contents));
}

/// The entry points with confidence `c`.
pub open spec fn has_confidence(c: u32) -> spec_fn(EntryEntry) -> bool {
    |e: EntryEntry| e.1.1 == c
}

proof fn lemma_confidence_bucket_is_filter(s: Seq<EntryEntry>, c: u32)
    ensures
        confidence_bucket(s, c) == s.filter(has_confidence(c)),
    decreases s.len(),
{
    reveal(Seq::filter);
    if s.len() > 0 {
        lemma_confidence_bucket_is_filter(s.drop_last(), c);
    }
}

proof fn lemma_confidence_bucket_filter(s: Seq<EntryEntry>, c: u32, d: u32)
    ensures
        confidence_bucket(s, c).filter(has_confidence(d)) == (if d == c {
            confidence_bucket(s, c)
        } else {
            Seq::<EntryEntry>::empty()
        }),
    decreases s.len(),
{
    reveal(Seq::filter);
    if s.len() > 0 {
        lemma_confidence_bucket_filter(s.drop_last(), c, d);
        let b = confidence_bucket(s, c);
        if s.last().1.1 == c {
            assert(b.drop_last() =~= confidence_bucket(s.drop_last(), c));
            assert(b.last() == s.last());
        } else {
            assert(b == confidence_bucket(s.drop_last(), c));
        }
    } else {
        assert(confidence_bucket(s, c).filter(has_confidence(d)) =~= Seq::<EntryEntry>::empty());
    }
}

proof fn lemma_confidence_bucket_outside(s: Seq<EntryEntry>, c: u32)
    requires
        !is_confidence_level(c),
        forall|i: int| 0 <= i < s.len() ==> is_confidence_level((#[trigger] s[i]).1.1),
    ensures
        confidence_bucket(s, c) == Seq::<EntryEntry>::empty(),
    decreases s.len(),
{
    if s.len() > 0 {
        assert forall|i: int| 0 <= i < s.drop_last().len() implies is_confidence_level(
            (#[trigger] s.drop_last()[i]).1.1,
        ) by {
            assert(s.drop_last()[i] == s[i]);
        }
        lemma_confidence_bucket_outside(s.drop_last(), c);
        assert(is_confidence_level(s[s.len() - 1].1.1));
    }
}

proof fn lemma_entry_entries_len(fs: Seq<FileObject>, contents: Seq<Option<String>>)
    ensures
        entry_entries(fs, contents).len() <= fs.len(),
    decreases fs.len(),
{
    if fs.len() > 0 {
        lemma_entry_entries_len(fs.drop_last(), contents);
    }
}

/// The entry-point report's order is stable: for every confidence, the entry
/// points of that confidence come in the order of their files; and there are
/// at most as many entry points as files.
pub proof fn lemma_entrypoints_stable(fs: Seq<FileObject>, contents: Seq<Option<String>>, c: u32)
    ensures
        by_confidence(entry_entries(fs, contents)).filter(has_confidence(c)) == entry_entries(fs, contents).filter(
            has_confidence(c),
        ),
        by_confidence(entry_entries(fs, contents)).len() <= fs.len(),
{
    reveal_with_fuel(levels_upto, 9);
    let s = entry_entries(fs, contents);
    lemma_entry_levels(fs, contents);
    lemma_levels_multiset(s);
    lemma_entry_entries_len(fs, contents);
    let p = has_confidence(c);
    let e = Seq::<EntryEntry>::empty();
    let b0 = confidence_bucket(s, 98);
    let b1 = confidence_bucket(s, 97);
    let b2 = confidence_bucket(s, 96);
    let b3 = confidence_bucket(s, 95);
    let b4 = confidence_bucket(s, 92);
    let b5 = confidence_bucket(s, 90);
    let b6 = confidence_bucket(s, 88);
    let b7 = confidence_bucket(s, 85);
    assert(by_confidence(s) == e + b0 + b1 + b2 + b3 + b4 + b5 + b6 + b7);
    lemma_confidence_bucket_filter(s, 98, c);
    lemma_confidence_bucket_filter(s, 97, c);
    lemma_confidence_bucket_filter(s, 96, c);
    lemma_confidence_bucket_filter(s, 95, c);
    lemma_confidence_bucket_filter(s, 92, c);
    lemma_confidence_bucket_filter(s, 90, c);
    lemma_confidence_bucket_filter(s, 88, c);
    lemma_confidence_bucket_filter(s, 85, c);
    lemma_confidence_bucket_is_filter(s, c);
    reveal(Seq::filter);
    Seq::filter_distributes_over_add(e + b0 + b1 + b2 + b3 + b4 + b5 + b6, b7, p);
    Seq::filter_distributes_over_add(e + b0 + b1 + b2 + b3 + b4 + b5, b6, p);
    Seq::filter_distributes_over_add(e + b0 + b1 + b2 + b3 + b4, b5, p);
    Seq::filter_distributes_over_add(e + b0 + b1 + b2 + b3, b4, p);
    Seq::filter_distributes_over_add(e + b0 + b1 + b2, b3, p);
    Seq::filter_distributes_over_add(e + b0 + b1, b2, p);
    Seq::filter_distributes_over_add(e + b0, b1, p);
    Seq::filter_distributes_over_add(e, b0, p);
    assert(e.filter(p) =~= e);
    if !is_confidence_level(c) {
        lemma_confidence_bucket_outside(s, c);
    }
    assert(by_confidence(s).filter(p) =~= s.filter(p));
}

/// A Python file whose name ends in `.py` (other than `main.py`, `app.py`
/// and `cli.py`, which are entry points by name) is an entry point exactly
/// when its text holds the `__main__` guard, written with double quotes or
/// with single quotes; it is then of kind `python_main_block` with
/// confidence 95.
pub proof fn lemma_python_main_guard(file: FileObject, c: Seq<char>)
    requires
        file.language@ == "Python"@,
        finishes(after_last(file.path@, '/'), ".py"@),
        after_last(file.path@, '/') != "main.py"@,
        after_last(file.path@, '/') != "app.py"@,
        after_last(file.path@, '/') != "cli.py"@,
    ensures
        contains_text(c, "if __name__ == \"__main__\""@) || contains_text(c, "if __name__ == '__main__'"@)
            ==> (entry_of(file, Some(c)) matches Some(d) && d.0 == "python_main_block"@ && d.1 == 95),
        !(contains_text(c, "if __name__ == \"__main__\""@) || contains_text(c, "if __name__ == '__main__'"@))
            ==> entry_of(file, Some(c)) is None,
{
    let n = after_last(file.path@, '/');
    lemma_name_suffix(file.path@, ".py"@);
    reveal_strlit(".py");
    reveal_strlit("main.rs");
    reveal_strlit("index.js");
    reveal_strlit("server.js");
    reveal_strlit("app.js");
    reveal_strlit("main.ts");
    reveal_strlit("index.ts");
    reveal_strlit("index.html");
    reveal_strlit("Python");
    reveal_strlit("Rust");
    reveal_strlit("Java");
    reveal_strlit("Go");
    assert(".py"@.len() == 3 && ".py"@[2] == 'y');
    assert(n.subrange(n.len() - 3, n.len() as int) == ".py"@);
    assert(n[n.len() - 1] == n.subrange(n.len() - 3, n.len() as int)[2]);
    assert(n[n.len() - 1] == 'y');
    assert(n != "main.rs"@) by { if n == "main.rs"@ { assert("main.rs"@[6] == 's'); } }
    assert(n != "index.js"@) by { if n == "index.js"@ { assert("index.js"@[7] == 's'); } }
    assert(n != "server.js"@) by { if n == "server.js"@ { assert("server.js"@[8] == 's'); } }
    assert(n != "app.js"@) by { if n == "app.js"@ { assert("app.js"@[5] == 's'); } }
    assert(n != "main.ts"@) by { if n == "main.ts"@ { assert("main.ts"@[6] == 's'); } }
    assert(n != "index.ts"@) by { if n == "index.ts"@ { assert("index.ts"@[7] == 's'); } }
    assert(n != "index.html"@) by { if n == "index.html"@ { assert("index.html"@[9] == 'l'); } }
    assert("Python"@ != "Rust"@) by { assert("Python"@.len() != "Rust"@.len()); }
    assert("Python"@ != "Java"@) by { assert("Python"@.len() != "Java"@.len()); }
    assert("Python"@ != "Go"@) by { assert("Python"@.len() != "Go"@.len()); }
}

/// Files named `main.rs`, `main.py`, `app.py`, `cli.py`, `index.js`,
/// `server.js`, `app.js`, `main.ts`, `index.ts` and `index.html` (the text
/// after the last `/`) are entry points by name alone, whatever their text
/// and language: Rust main 95, Python main 90, Node.js main 88, TypeScript
/// main 85 and web entry 92.
pub proof fn lemma_entry_names(file: FileObject, c: Option<Seq<char>>, d: Option<Seq<char>>)
    ensures
        after_last(file.path@, '/') == "main.rs"@ ==> (entry_of(file, c) matches Some(e) && e.0 == "rust_main"@
            && e.1 == 95),
        ({
            let n = after_last(file.path@, '/');
            n == "main.py"@ || n == "app.py"@ || n == "cli.py"@
        }) ==> (entry_of(file, c) matches Some(e) && e.0 == "python_main"@ && e.1 == 90),
        ({
            let n = after_last(file.path@, '/');
            n == "index.js"@ || n == "server.js"@ || n == "app.js"@
        }) ==> (entry_of(file, c) matches Some(e) && e.0 == "nodejs_main"@ && e.1 == 88),
        ({
            let n = after_last(file.path@, '/');
            n == "main.ts"@ || n == "index.ts"@
        }) ==> (entry_of(file, c) matches Some(e) && e.0 == "typescript_main"@ && e.1 == 85),
        after_last(file.path@, '/') == "index.html"@ ==> (entry_of(file, c) matches Some(e) && e.0
            == "web_entry"@ && e.1 == 92),
        ({
            let n = after_last(file.path@, '/');
            n == "main.rs"@ || n == "main.py"@ || n == "app.py"@ || n == "cli.py"@ || n == "index.js"@ || n
                == "server.js"@ || n == "app.js"@ || n == "main.ts"@ || n == "index.ts"@ || n == "index.html"@
        }) ==> entry_of(file, c) == entry_of(file, d),
{
    reveal_strlit("main.rs");
    reveal_strlit("main.py");
    reveal_strlit("app.py");
    reveal_strlit("cli.py");
    reveal_strlit("index.js");
    reveal_strlit("server.js");
    reveal_strlit("app.js");
    reveal_strlit("main.ts");
    reveal_strlit("index.ts");
    reveal_strlit("index.html");
    assert("main.rs"@.len() == 7 && "main.py"@.len() == 7 && "main.ts"@.len() == 7);
    assert("main.rs"@[5] != "main.py"@[5] && "main.rs"@[5] != "main.ts"@[5] && "main.py"@[5] != "main.ts"@[5]);
    assert("app.py"@.len() == 6 && "cli.py"@.len() == 6 && "app.js"@.len() == 6);
    assert("app.py"@[0] != "cli.py"@[0] && "app.py"@[4] != "app.js"@[4] && "cli.py"@[0] != "app.js"@[0]);
    assert("index.js"@.len() == 8 && "index.ts"@.len() == 8 && "index.js"@[6] != "index.ts"@[6]);
    assert("server.js"@.len() == 9 && "index.html"@.len() == 10);
}

/// The content rules: a Rust `.rs` file (not named `main.rs`) with
/// `fn main()` is a Rust entry point (98); a Java `.java` file with
/// `public static void main` is one (96); a Go `.go` file is one (97) only
/// when it has both `package main` and `func main()`.
pub proof fn lemma_entry_content_rules(file: FileObject, c: Seq<char>)
    ensures
        ({
            let n = after_last(file.path@, '/');
            &&& file.language@ == "Rust"@
            &&& finishes(n, ".rs"@)
            &&& n != "main.rs"@
            &&& contains_text(c, "fn main()"@)
        }) ==> (entry_of(file, Some(c)) matches Some(e) && e.0 == "rust_fn_main"@ && e.1 == 98),
        ({
            let n = after_last(file.path@, '/');
            &&& file.language@ == "Java"@
            &&& finishes(n, ".java"@)
            &&& contains_text(c, "public static void main"@)
        }) ==> (entry_of(file, Some(c)) matches Some(e) && e.0 == "java_main"@ && e.1 == 96),
        ({
            let n = after_last(file.path@, '/');
            &&& file.language@ == "Go"@
            &&& finishes(n, ".go"@)
        }) ==> ((entry_of(file, Some(c)) matches Some(e) && e.0 == "go_main"@ && e.1 == 97) <==> (contains_text(
            c,
            "package main"@,
        ) && contains_text(c, "func main()"@))),
{
    let n = after_last(file.path@, '/');
    reveal_strlit(".rs");
    reveal_strlit(".java");
    reveal_strlit(".go");
    reveal_strlit("main.rs");
    reveal_strlit("main.py");
    reveal_strlit("app.py");
    reveal_strlit("cli.py");
    reveal_strlit("index.js");
    reveal_strlit("server.js");
    reveal_strlit("app.js");
    reveal_strlit("main.ts");
    reveal_strlit("index.ts");
    reveal_strlit("index.html");
    reveal_strlit("Rust");
    reveal_strlit("Python");
    reveal_strlit("Java");
    reveal_strlit("Go");
    reveal_strlit("go_main");
    reveal_strlit("rust_fn_main");
    reveal_strlit("python_main_block");
    reveal_strlit("java_main");
    assert("Rust"@.len() == 4 && "Java"@.len() == 4 && "Rust"@[0] != "Java"@[0]);
    assert("Python"@.len() == 6 && "Go"@.len() == 2);
    assert("go_main"@.len() == 7 && "rust_fn_main"@.len() == 12 && "python_main_block"@.len() == 17
        && "java_main"@.len() == 9);
    if file.language@ == "Rust"@ && finishes(n, ".rs"@) && n != "main.rs"@ {
        lemma_name_suffix(file.path@, ".rs"@);
        assert(n.subrange(n.len() - 3, n.len() as int) == ".rs"@);
        assert(n[n.len() - 1] == n.subrange(n.len() - 3, n.len() as int)[2]);
        assert(n[n.len() - 2] == n.subrange(n.len() - 3, n.len() as int)[1]);
        assert(n[n.len() - 1] == 's' && n[n.len() - 2] == 'r');
        assert(n != "main.py"@) by { if n == "main.py"@ { assert("main.py"@[6] == 'y'); } }
        assert(n != "app.py"@) by { if n == "app.py"@ { assert("app.py"@[5] == 'y'); } }
        assert(n != "cli.py"@) by { if n == "cli.py"@ { assert("cli.py"@[5] == 'y'); } }
        assert(n != "index.js"@) by { if n == "index.js"@ { assert("index.js"@[6] == 'j'); } }
        assert(n != "server.js"@) by { if n == "server.js"@ { assert("server.js"@[7] == 'j'); } }
        assert(n != "app.js"@) by { if n == "app.js"@ { assert("app.js"@[4] == 'j'); } }
        assert(n != "main.ts"@) by { if n == "main.ts"@ { assert("main.ts"@[5] == 't'); } }
        assert(n != "index.ts"@) by { if n == "index.ts"@ { assert("index.ts"@[6] == 't'); } }
        assert(n != "index.html"@) by { if n == "index.html"@ { assert("index.html"@[9] == 'l'); } }
    }
    if file.language@ == "Java"@ && finishes(n, ".java"@) {
        lemma_name_suffix(file.path@, ".java"@);
        assert(n.subrange(n.len() - 5, n.len() as int) == ".java"@);
        assert(n[n.len() - 1] == n.subrange(n.len() - 5, n.len() as int)[4]);
        assert(n[n.len() - 1] == 'a');
        assert(n != "main.rs"@) by { if n == "main.rs"@ { assert("main.rs"@[6] == 's'); } }
        assert(n != "main.py"@) by { if n == "main.py"@ { assert("main.py"@[6] == 'y'); } }
        assert(n != "app.py"@) by { if n == "app.py"@ { assert("app.py"@[5] == 'y'); } }
        assert(n != "cli.py"@) by { if n == "cli.py"@ { assert("cli.py"@[5] == 'y'); } }
        assert(n != "index.js"@) by { if n == "index.js"@ { assert("index.js"@[7] == 's'); } }
        assert(n != "server.js"@) by { if n == "server.js"@ { assert("server.js"@[8] == 's'); } }
        assert(n != "app.js"@) by { if n == "app.js"@ { assert("app.js"@[5] == 's'); } }
        assert(n != "main.ts"@) by { if n == "main.ts"@ { assert("main.ts"@[6] == 's'); } }
        assert(n != "index.ts"@) by { if n == "index.ts"@ { assert("index.ts"@[7] == 's'); } }
        assert(n != "index.html"@) by { if n == "index.html"@ { assert("index.html"@[9] == 'l'); } }
    }
    if file.language@ == "Go"@ && finishes(n, ".go"@) {
        lemma_name_suffix(file.path@, ".go"@);
        assert(n.subrange(n.len() - 3, n.len() as int) == ".go"@);
        assert(n[n.len() - 1] == n.subrange(n.len() - 3, n.len() as int)[2]);
        assert(n[n.len() - 1] == 'o');
        assert(n != "main.rs"@) by { if n == "main.rs"@ { assert("main.rs"@[6] == 's'); } }
        assert(n != "main.py"@) by { if n == "main.py"@ { assert("main.py"@[6] == 'y'); } }
        assert(n != "app.py"@) by { if n == "app.py"@ { assert("app.py"@[5] == 'y'); } }
        assert(n != "cli.py"@) by { if n == "cli.py"@ { assert("cli.py"@[5] == 'y'); } }
        assert(n != "index.js"@) by { if n == "index.js"@ { assert("index.js"@[7] == 's'); } }
        assert(n != "server.js"@) by { if n == "server.js"@ { assert("server.js"@[8] == 's'); } }
        assert(n != "app.js"@) by { if n == "app.js"@ { assert("app.js"@[5] == 's'); } }
        assert(n != "main.ts"@) by { if n == "main.ts"@ { assert("main.ts"@[6] == 's'); } }
        assert(n != "index.ts"@) by { if n == "index.ts"@ { assert("index.ts"@[7] == 's'); } }
        assert(n != "index.html"@) by { if n == "index.html"@ { assert("index.html"@[9] == 'l'); } }
    }
}

} // verus!
