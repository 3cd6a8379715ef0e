//! Language and framework detection.

use vstd::prelude::*;
use crate::ir::schema::{FileObject, LanguageDetection};
use crate::text::{after_last, after_last_exec, chars_of, owned, str_same, views};
use crate::paths::{extension, extension_exec, file_name, file_name_exec};

verus! {

/// The language a well-known manifest file name announces, with its
/// confidence in hundredths.
pub open spec fn language_by_file_name(n: Seq<char>) -> Option<(Seq<char>, u32)> {
    if n == "Cargo.toml"@ {
        Some(("Rust"@, 98u32))
    } else if n == "package.json"@ {
        Some(("JavaScript"@, 95u32))
    } else if n == "requirements.txt"@ {
        Some(("Python"@, 95u32))
    } else if n == "pyproject.toml"@ {
        Some(("Python"@, 95u32))
    } else if n == "go.mod"@ {
        Some(("Go"@, 98u32))
    } else if n == "pom.xml"@ {
        Some(("Java"@, 95u32))
    } else if n == "Gemfile"@ {
        Some(("Ruby"@, 95u32))
    } else if n == "composer.json"@ {
        Some(("PHP"@, 95u32))
    } else {
        None
    }
}

/// The language a file extension announces, with its confidence in
/// hundredths; `("Unknown", 50)` for an extension not in the table.
pub open spec fn language_by_extension(e: Seq<char>) -> (Seq<char>, u32) {
    if e == "rs"@ {
        ("Rust"@, 98u32)
    } else if e == "py"@ {
        ("Python"@, 98u32)
    } else if e == "js"@ {
        ("JavaScript"@, 95u32)
    } else if e == "ts"@ {
        ("TypeScript"@, 95u32)
    } else if e == "jsx"@ {
        ("JavaScript React"@, 92u32)
    } else if e == "tsx"@ {
        ("TypeScript React"@, 92u32)
    } else if e == "go"@ {
        ("Go"@, 98u32)
    } else if e == "java"@ {
        ("Java"@, 98u32)
    } else if e == "rb"@ {
        ("Ruby"@, 98u32)
    } else if e == "php"@ {
        ("PHP"@, 98u32)
    } else if e == "c"@ || e == "h"@ {
        ("C"@, 98u32)
    } else if e == "cpp"@ || e == "hpp"@ || e == "cc"@ {
        ("C++"@, 98u32)
    } else if e == "cs"@ {
        ("C#"@, 98u32)
    } else if e == "swift"@ {
        ("Swift"@, 98u32)
    } else if e == "kt"@ {
        ("Kotlin"@, 98u32)
    } else if e == "scala"@ {
        ("Scala"@, 98u32)
    } else if e == "html"@ {
        ("HTML"@, 99u32)
    } else if e == "css"@ {
        ("CSS"@, 99u32)
    } else if e == "scss"@ || e == "sass"@ {
        ("SCSS"@, 98u32)
    } else if e == "json"@ {
        ("JSON"@, 99u32)
    } else if e == "xml"@ {
        ("XML"@, 99u32)
    } else if e == "yaml"@ || e == "yml"@ {
        ("YAML"@, 99u32)
    } else if e == "toml"@ {
        ("TOML"@, 99u32)
    } else if e == "md"@ {
        ("Markdown"@, 99u32)
    } else if e == "sh"@ || e == "bash"@ {
        ("Shell"@, 95u32)
    } else if e == "sql"@ {
        ("SQL"@, 98u32)
    } else if e == "graphql"@ {
        ("GraphQL"@, 98u32)
    } else if e == "vue"@ {
        ("Vue"@, 95u32)
    } else if e == "svelte"@ {
        ("Svelte"@, 95u32)
    } else if e == "ex"@ || e == "exs"@ {
        ("Elixir"@, 98u32)
    } else if e == "elm"@ {
        ("Elm"@, 98u32)
    } else if e == "hs"@ {
        ("Haskell"@, 98u32)
    } else if e == "clj"@ || e == "cljs"@ {
        ("Clojure"@, 98u32)
    } else if e == "erl"@ {
        ("Erlang"@, 98u32)
    } else if e == "lua"@ {
        ("Lua"@, 98u32)
    } else if e == "r"@ {
        ("R"@, 98u32)
    } else if e == "dart"@ {
        ("Dart"@, 98u32)
    } else if e == "fs"@ {
        ("F#"@, 98u32)
    } else if e == "vb"@ {
        ("Visual Basic"@, 98u32)
    } else if e == "pl"@ || e == "pm"@ {
        ("Perl"@, 98u32)
    } else {
        ("Unknown"@, 50u32)
    }
}

/// The language of the file at path `p` and the confidence of that guess:
/// the file name decides first, then the extension.
pub open spec fn language_of_path(p: Seq<char>) -> (Seq<char>, u32) {
    let n = match file_name(p) { Some(n) => n, None => Seq::empty() };
    let e = match extension(p) { Some(e) => e, None => Seq::empty() };
    match language_by_file_name(n) {
        Some(r) => r,
        None => language_by_extension(e),
    }
}

fn language_by_file_name_exec(n: &[char]) -> (r: Option<(String, u32)>)
    ensures
        match r {
            Some((l, c)) => language_by_file_name(n@) == Some((l@, c)),
            None => language_by_file_name(n@) is None,
        },
{
    if str_same(n, "Cargo.toml") {
        return Some((owned("Rust"), 98));
    }
    if str_same(n, "package.json") {
        return Some((owned("JavaScript"), 95));
    }
    if str_same(n, "requirements.txt") {
        return Some((owned("Python"), 95));
    }
    if str_same(n, "pyproject.toml") {
        return Some((owned("Python"), 95));
    }
    if str_same(n, "go.mod") {
        return Some((owned("Go"), 98));
    }
    if str_same(n, "pom.xml") {
        return Some((owned("Java"), 95));
    }
    if str_same(n, "Gemfile") {
        return Some((owned("Ruby"), 95));
    }
    if str_same(n, "composer.json") {
        return Some((owned("PHP"), 95));
    }
    None
}

fn language_by_extension_exec(e: &[char]) -> (r: (String, u32))
    ensures
        (r.0@, r.1) == language_by_extension(e@),
{
    if str_same(e, "rs") {
        return (owned("Rust"), 98);
    }
    if str_same(e, "py") {
        return (owned("Python"), 98);
    }
    if str_same(e, "js") {
        return (owned("JavaScript"), 95);
    }
    if str_same(e, "ts") {
        return (owned("TypeScript"), 95);
    }
    if str_same(e, "jsx") {
        return (owned("JavaScript React"), 92);
    }
    if str_same(e, "tsx") {
        return (owned("TypeScript React"), 92);
    }
    if str_same(e, "go") {
        return (owned("Go"), 98);
    }
    if str_same(e, "java") {
        return (owned("Java"), 98);
    }
    if str_same(e, "rb") {
        return (owned("Ruby"), 98);
    }
    if str_same(e, "php") {
        return (owned("PHP"), 98);
    }
    if str_same(e, "c") || str_same(e, "h") {
        return (owned("C"), 98);
    }
    if str_same(e, "cpp") || str_same(e, "hpp") || str_same(e, "cc") {
        return (owned("C++"), 98);
    }
    if str_same(e, "cs") {
        return (owned("C#"), 98);
    }
    if str_same(e, "swift") {
        return (owned("Swift"), 98);
    }
    if str_same(e, "kt") {
        return (owned("Kotlin"), 98);
    }
    if str_same(e, "scala") {
        return (owned("Scala"), 98);
    }
    if str_same(e, "html") {
        return (owned("HTML"), 99);
    }
    if str_same(e, "css") {
        return (owned("CSS"), 99);
    }
    if str_same(e, "scss") || str_same(e, "sass") {
        return (owned("SCSS"), 98);
    }
    if str_same(e, "json") {
        return (owned("JSON"), 99);
    }
    if str_same(e, "xml") {
        return (owned("XML"), 99);
    }
    if str_same(e, "yaml") || str_same(e, "yml") {
        return (owned("YAML"), 99);
    }
    if str_same(e, "toml") {
        return (owned("TOML"), 99);
    }
    if str_same(e, "md") {
        return (owned("Markdown"), 99);
    }
    if str_same(e, "sh") || str_same(e, "bash") {
        return (owned("Shell"), 95);
    }
    if str_same(e, "sql") {
        return (owned("SQL"), 98);
    }
    if str_same(e, "graphql") {
        return (owned("GraphQL"), 98);
    }
    if str_same(e, "vue") {
        return (owned("Vue"), 95);
    }
    if str_same(e, "svelte") {
        return (owned("Svelte"), 95);
    }
    if str_same(e, "ex") || str_same(e, "exs") {
        return (owned("Elixir"), 98);
    }
    if str_same(e, "elm") {
        return (owned("Elm"), 98);
    }
    if str_same(e, "hs") {
        return (owned("Haskell"), 98);
    }
    if str_same(e, "clj") || str_same(e, "cljs") {
        return (owned("Clojure"), 98);
    }
    if str_same(e, "erl") {
        return (owned("Erlang"), 98);
    }
    if str_same(e, "lua") {
        return (owned("Lua"), 98);
    }
    if str_same(e, "r") {
        return (owned("R"), 98);
    }
    if str_same(e, "dart") {
        return (owned("Dart"), 98);
    }
    if str_same(e, "fs") {
        return (owned("F#"), 98);
    }
    if str_same(e, "vb") {
        return (owned("Visual Basic"), 98);
    }
    if str_same(e, "pl") || str_same(e, "pm") {
        return (owned("Perl"), 98);
    }
    (owned("Unknown"), 50)
}

/// Guesses the language of the file at `path` from its name and extension;
/// returns the language and the confidence in hundredths.
pub fn detect_language_from_path(path: &str) -> (r: (String, u32))
    ensures
        (r.0@, r.1) == language_of_path(path@),
{
    let p = chars_of(path);
    let n = match file_name_exec(p.as_slice()) {
        Some(n) => n,
        None => Vec::new(),
    };
    let e = match extension_exec(p.as_slice()) {
        Some(e) => e,
        None => Vec::new(),
    };
    assert(n@ == (match file_name(path@) { Some(n) => n, None => Seq::empty() }));
    assert(e@ == (match extension(path@) { Some(e) => e, None => Seq::empty() }));
    match language_by_file_name_exec(n.as_slice()) {
        Some(r) => r,
        None => language_by_extension_exec(e.as_slice()),
    }
}

/// One detection per file, carrying the language the scan recorded, each with
/// confidence 95 hundredths.
pub fn detect_languages(files: &[FileObject]) -> (r: Vec<LanguageDetection>)
    ensures
        r@.len() == files@.len(),
        forall|i: int|
            0 <= i < files@.len() ==> {
                &&& #[trigger] r@[i].file@ == files@[i].path@
                &&& r@[i].language@ == files@[i].language@
                &&& r@[i].confidence == 95
            },
{
    let mut r: Vec<LanguageDetection> = Vec::new();
    let mut i: usize = 0;
    while i < files.len()
        invariant
            i <= files.len(),
            r@.len() == i,
            forall|j: int|
                0 <= j < i ==> {
                    &&& #[trigger] r@[j].file@ == files@[j].path@
                    &&& r@[j].language@ == files@[j].language@
                    &&& r@[j].confidence == 95
                },
        decreases files.len() - i,
    {
        r.push(LanguageDetection {
            file: files[i].path.clone(),
            language: files[i].language.clone(),
            confidence: 95,
        });
        i += 1;
    }
    r
}

/// Languages that count toward the dominant language.
pub open spec fn is_counted_language(l: Seq<char>) -> bool {
    l != "Unknown"@ && l != "JSON"@ && l != "Markdown"@
}

/// Number of files whose language is `l`.
pub open spec fn language_count(fs: Seq<FileObject>, l: Seq<char>) -> nat
    decreases fs.len(),
{
    if fs.len() == 0 {
        0
    } else {
        language_count(fs.drop_last(), l) + if fs.last().language@ == l { 1nat } else { 0nat }
    }
}

/// `r` is a most frequent counted language of `fs`, or `"Unknown"` when no
/// file has a counted language. Among equally frequent languages it is the
/// one that occurs first in `fs`.
pub open spec fn is_dominant_language(fs: Seq<FileObject>, r: Seq<char>) -> bool {
    if exists|i: int| 0 <= i < fs.len() && is_counted_language(#[trigger] fs[i].language@) {
        &&& is_counted_language(r)
        &&& exists|i: int| 0 <= i < fs.len() && #[trigger] fs[i].language@ == r
        &&& forall|i: int|
            0 <= i < fs.len() && is_counted_language(#[trigger] fs[i].language@) ==> language_count(
                fs,
                fs[i].language@,
            ) <= language_count(fs, r)
        &&& forall|j: int|
            0 <= j < fs.len() && is_counted_language(#[trigger] fs[j].language@) && language_count(
                fs,
                fs[j].language@,
            ) == language_count(fs, r) ==> exists|i: int| 0 <= i <= j && fs[i].language@ == r
    } else {
        r == "Unknown"@
    }
}

proof fn lemma_language_count_step(fs: Seq<FileObject>, i: int, l: Seq<char>)
    requires
        0 <= i < fs.len(),
    ensures
        language_count(fs.take(i + 1), l) == language_count(fs.take(i), l) + if fs[i].language@ == l { 1nat } else { 0nat },
{
    assert(fs.take(i + 1).drop_last() =~= fs.take(i));
}

proof fn lemma_language_count_le(fs: Seq<FileObject>, l: Seq<char>)
    ensures
        language_count(fs, l) <= fs.len(),
    decreases fs.len(),
{
    if fs.len() > 0 {
        lemma_language_count_le(fs.drop_last(), l);
    }
}

/// Position of the first entry of `list` equal to `x`.
pub fn position_of_chars(list: &Vec<Vec<char>>, x: &[char]) -> (r: Option<usize>)
    ensures
        match r {
            Some(k) => k < list@.len() && list@[k as int]@ == x@,
            None => forall|m: int| 0 <= m < list@.len() ==> list@[m]@ != x@,
        },
{
    let mut k: usize = 0;
    while k < list.len()
        invariant
            k <= list@.len(),
            forall|m: int| 0 <= m < k ==> list@[m]@ != x@,
        decreases list.len() - k,
    {
        if crate::text::same_exec(list[k].as_slice(), x) {
            return Some(k);
        }
        k += 1;
    }
    None
}

/// The most frequent language among the files, leaving out `Unknown`, `JSON`
/// and `Markdown`; `"Unknown"` when no file remains.
#[verifier::loop_isolation(false)]
pub fn get_dominant_language(files: &[FileObject]) -> (r: String)
    ensures
        is_dominant_language(files@, r@),
{
    let mut langs: Vec<Vec<char>> = Vec::new();
    let mut counts: Vec<usize> = Vec::new();
    let mut reps: Vec<usize> = Vec::new();
    let mut i: usize = 0;
    while i < files.len()
        invariant
            i <= files.len(),
            langs@.len() == counts@.len(),
            langs@.len() == reps@.len(),
            forall|k: int|
                0 <= k < langs@.len() ==> {
                    &&& #[trigger] reps@[k] < i
                    &&& files@[reps@[k] as int].language@ == langs@[k]@
                    &&& is_counted_language(langs@[k]@)
                    &&& counts@[k] == language_count(files@.take(i as int), langs@[k]@)
                },
            forall|k1: int, k2: int|
                0 <= k1 < langs@.len() && 0 <= k2 < langs@.len() && k1 != k2 ==> #[trigger] langs@[k1]@
                    != #[trigger] langs@[k2]@,
            forall|j: int|
                0 <= j < i && is_counted_language(#[trigger] files@[j].language@) ==> exists|k: int|
                    0 <= k < langs@.len() && langs@[k]@ == files@[j].language@,
            forall|k1: int, k2: int|
                0 <= k1 < k2 < langs@.len() ==> #[trigger] reps@[k1] < #[trigger] reps@[k2],
            forall|k: int, j: int|
                0 <= k < langs@.len() && 0 <= j < i && #[trigger] files@[j].language@ == #[trigger] langs@[k]@
                    ==> reps@[k] <= j,
        decreases files.len() - i,
    {
        let lang = chars_of(files[i].language.as_str());
        let counted = !(str_same(lang.as_slice(), "Unknown") || str_same(lang.as_slice(), "JSON")
            || str_same(lang.as_slice(), "Markdown"));
        proof {
            assert forall|l: Seq<char>| #[trigger] language_count(files@.take(i + 1), l)
                == language_count(files@.take(i as int), l) + if files@[i as int].language@ == l { 1nat } else { 0nat } by {
                lemma_language_count_step(files@, i as int, l);
            }
        }
        let ghost oc = counts@;
        let ghost ol = langs@;
        let ghost orp = reps@;
        if counted {
            let pos = position_of_chars(&langs, lang.as_slice());
            if let Some(k) = pos {
                proof {
                    lemma_language_count_le(files@.take(i as int), lang@);
                    assert(reps@[k as int] < i);
                }
                let c = counts[k];
                counts.set(k, c + 1);
                assert(langs@[k as int]@ == files@[i as int].language@);
            } else {
                proof {
                    lemma_language_count_le(files@.take(i as int), lang@);
                    assert(language_count(files@.take(i as int), lang@) == 0) by {
                        if language_count(files@.take(i as int), lang@) > 0 {
                            lemma_count_positive(files@.take(i as int), lang@);
                        }
                    }
                }
                langs.push(lang);
                counts.push(1);
                reps.push(i);
                assert(langs@[ol.len() as int]@ == files@[i as int].language@);
            }
        }
        proof {
            assert forall|k: int| 0 <= k < langs@.len() implies counts@[k] == language_count(
                files@.take(i + 1),
                langs@[k]@,
            ) && #[trigger] reps@[k] < i + 1 by {
                lemma_language_count_step(files@, i as int, langs@[k]@);
                if k < ol.len() {
                    assert(orp[k] < i);
                    assert(langs@[k] == ol[k]);
                    assert(reps@[k] == orp[k]);
                }
            }
            assert forall|j: int|
                0 <= j < i + 1 && is_counted_language(#[trigger] files@[j].language@) implies exists|k: int|
                    0 <= k < langs@.len() && langs@[k]@ == files@[j].language@ by {
                if j < i {
                    let k = choose|k: int| 0 <= k < ol.len() && ol[k]@ == files@[j].language@;
                    assert(langs@[k] == ol[k]);
                }
            }
        }
        i += 1;
    }
    assert(files@.take(files@.len() as int) =~= files@);
    if langs.len() == 0 {
        proof {
            assert forall|j: int| 0 <= j < files@.len() implies !is_counted_language(#[trigger] files@[j].language@) by {}
        }
        return owned("Unknown");
    }
    let mut best: usize = 0;
    let mut k: usize = 1;
    while k < langs.len()
        invariant
            1 <= k <= langs@.len(),
            langs@.len() == counts@.len(),
            best < k,
            forall|m: int| 0 <= m < k ==> counts@[m] <= counts@[best as int],
            forall|m: int| 0 <= m < k && counts@[m] == counts@[best as int] ==> best <= m,
        decreases langs.len() - k,
    {
        if counts[k] > counts[best] {
            best = k;
        }
        k += 1;
    }
    let rep = reps[best];
    let r = files[rep].language.clone();
    proof {
        assert(files@[rep as int].language@ == r@);
        assert forall|j: int|
            0 <= j < files@.len() && is_counted_language(#[trigger] files@[j].language@) implies language_count(
                files@,
                files@[j].language@,
            ) <= language_count(files@, r@) by {
            let m = choose|m: int| 0 <= m < langs@.len() && langs@[m]@ == files@[j].language@;
            assert(counts@[m] <= counts@[best as int]);
            assert(reps@[m] < files@.len());
            assert(reps@[best as int] < files@.len());
        }
        assert forall|j: int|
            0 <= j < files@.len() && is_counted_language(#[trigger] files@[j].language@) && language_count(
                files@,
                files@[j].language@,
            ) == language_count(files@, r@) implies exists|i: int| 0 <= i <= j && files@[i].language@ == r@ by {
            let m = choose|m: int| 0 <= m < langs@.len() && langs@[m]@ == files@[j].language@;
            assert(counts@[m] == counts@[best as int]);
            assert(best <= m);
            if best < m {
                assert(reps@[best as int] < reps@[m]);
            }
            assert(reps@[m] <= j);
            assert(files@[reps@[best as int] as int].language@ == r@);
        }
    }
    r
}

proof fn lemma_count_positive(fs: Seq<FileObject>, l: Seq<char>)
    requires
        language_count(fs, l) > 0,
    ensures
        exists|j: int| 0 <= j < fs.len() && #[trigger] fs[j].language@ == l,
    decreases fs.len(),
{
    if fs.last().language@ != l {
        lemma_count_positive(fs.drop_last(), l);
        let j = choose|j: int| 0 <= j < fs.drop_last().len() && #[trigger] fs.drop_last()[j].language@ == l;
        assert(fs[j].language@ == l);
    } else {
        assert(fs[fs.len() - 1].language@ == l);
    }
}

proof fn lemma_first_occurrence(fs: Seq<FileObject>, l: Seq<char>, j: int) -> (m: int)
    requires
        0 <= j < fs.len(),
        fs[j].language@ == l,
    ensures
        0 <= m <= j,
        fs[m].language@ == l,
        forall|k: int| 0 <= k < m ==> #[trigger] fs[k].language@ != l,
    decreases j,
{
    if exists|k: int| 0 <= k < j && #[trigger] fs[k].language@ == l {
        let k = choose|k: int| 0 <= k < j && #[trigger] fs[k].language@ == l;
        lemma_first_occurrence(fs, l, k)
    } else {
        j
    }
}

/// The dominant language is determined by the files: two languages that both
/// meet `is_dominant_language` are the same.
#[verifier::spinoff_prover]
#[verifier::rlimit(50)]
pub proof fn lemma_dominant_language_unique(fs: Seq<FileObject>, a: Seq<char>, b: Seq<char>)
    requires
        is_dominant_language(fs, a),
        is_dominant_language(fs, b),
    ensures
        a == b,
{
    if exists|i: int| 0 <= i < fs.len() && is_counted_language(#[trigger] fs[i].language@) {
        let ia = choose|i: int| 0 <= i < fs.len() && #[trigger] fs[i].language@ == a;
        let ib = choose|i: int| 0 <= i < fs.len() && #[trigger] fs[i].language@ == b;
        let fa = lemma_first_occurrence(fs, a, ia);
        let fb = lemma_first_occurrence(fs, b, ib);
        lemma_tie_before(fs, a, b, fb);
        lemma_tie_before(fs, b, a, fa);
        let i1 = choose|i: int| 0 <= i <= fb && fs[i].language@ == a;
        let i2 = choose|i: int| 0 <= i <= fa && fs[i].language@ == b;
        assert(fa <= i1);
        assert(fb <= i2);
        assert(fs[fa].language@ == fs[fb].language@);
    }
}

proof fn lemma_tie_before(fs: Seq<FileObject>, a: Seq<char>, b: Seq<char>, fb: int)
    requires
        is_dominant_language(fs, a),
        is_dominant_language(fs, b),
        exists|i: int| 0 <= i < fs.len() && is_counted_language(#[trigger] fs[i].language@),
        0 <= fb < fs.len(),
        fs[fb].language@ == b,
    ensures
        exists|i: int| 0 <= i <= fb && fs[i].language@ == a,
{
    let ia = choose|i: int| 0 <= i < fs.len() && #[trigger] fs[i].language@ == a;
    assert(is_counted_language(fs[ia].language@));
    assert(is_counted_language(fs[fb].language@));
    assert(language_count(fs, fs[ia].language@) <= language_count(fs, b));
    assert(language_count(fs, fs[fb].language@) <= language_count(fs, a));
    assert(language_count(fs, fs[fb].language@) == language_count(fs, a));
}

/// The build system or framework a well-known file name announces.
pub open spec fn framework_by_file_name(n: Seq<char>) -> Option<Seq<char>> {
    if n == "Cargo.toml"@ {
        Some("Cargo"@)
    } else if n == "package.json"@ {
        Some("Node.js"@)
    } else if n == "requirements.txt"@ || n == "pyproject.toml"@ {
        Some("Python"@)
    } else if n == "pom.xml"@ {
        Some("Maven"@)
    } else if n == "build.gradle"@ {
        Some("Gradle"@)
    } else if n == "Gemfile"@ {
        Some("Ruby on Rails"@)
    } else {
        None
    }
}

/// The frameworks the files announce, each once, in the order of the first
/// file that announces it.
pub open spec fn framework_list(fs: Seq<FileObject>) -> Seq<Seq<char>>
    decreases fs.len(),
{
    if fs.len() == 0 {
        Seq::empty()
    } else {
        let acc = framework_list(fs.drop_last());
        match framework_by_file_name(after_last(fs.last().path@, '/')) {
            Some(f) => if acc.contains(f) { acc } else { acc.push(f) },
            None => acc,
        }
    }
}

/// The file announces framework `x` by its name.
pub open spec fn announces(f: FileObject, x: Seq<char>) -> bool {
    framework_by_file_name(after_last(f.path@, '/')) == Some(x)
}

/// The index of the first file that announces `x`, or the number of files
/// when none does.
pub open spec fn first_announcer(fs: Seq<FileObject>, x: Seq<char>) -> int
    decreases fs.len(),
{
    if fs.len() == 0 {
        0
    } else {
        let a = first_announcer(fs.drop_last(), x);
        if a < fs.len() - 1 {
            a
        } else if announces(fs.last(), x) {
            fs.len() - 1
        } else {
            fs.len() as int
        }
    }
}

proof fn lemma_first_announcer(fs: Seq<FileObject>, x: Seq<char>)
    ensures
        0 <= first_announcer(fs, x) <= fs.len(),
        first_announcer(fs, x) < fs.len() <==> exists|p: int| 0 <= p < fs.len() && announces(fs[p], x),
        first_announcer(fs, x) < fs.len() ==> announces(fs[first_announcer(fs, x)], x),
    decreases fs.len(),
{
    if fs.len() > 0 {
        let f = fs.drop_last();
        lemma_first_announcer(f, x);
        if exists|p: int| 0 <= p < fs.len() && announces(fs[p], x) {
            let p = choose|p: int| 0 <= p < fs.len() && announces(fs[p], x);
            if p < f.len() {
                assert(f[p] == fs[p]);
            }
        }
        if first_announcer(f, x) < f.len() {
            let k = first_announcer(f, x);
            assert(f[k] == fs[k]);
        }
        if exists|p: int| 0 <= p < f.len() && announces(f[p], x) {
            let p = choose|p: int| 0 <= p < f.len() && announces(f[p], x);
            assert(f[p] == fs[p]);
        }
    }
}

/// The framework list names each framework once, exactly those that some
/// file announces, in the order of the first file that announces each.
pub proof fn lemma_frameworks_listed(fs: Seq<FileObject>)
    ensures
        framework_list(fs).no_duplicates(),
        forall|x: Seq<char>|
            #[trigger] framework_list(fs).contains(x) <==> exists|p: int| 0 <= p < fs.len() && announces(fs[p], x),
        forall|i: int, j: int|
            0 <= i < j < framework_list(fs).len() ==> first_announcer(fs, #[trigger] framework_list(fs)[i])
                < first_announcer(fs, #[trigger] framework_list(fs)[j]),
    decreases fs.len(),
{
    if fs.len() > 0 {
        let f = fs.drop_last();
        let n = f.len() as int;
        lemma_frameworks_listed(f);
        let acc = framework_list(f);
        let r = framework_list(fs);
        assert(fs.last() == fs[n]);
        assert forall|p: int| 0 <= p < n implies #[trigger] f[p] == fs[p] by {}
        assert forall|x: Seq<char>| #[trigger] r.contains(x) <==> exists|p: int| 0 <= p < fs.len() && announces(fs[p], x) by {
            if r.contains(x) {
                let k = choose|k: int| 0 <= k < r.len() && r[k] == x;
                if k < acc.len() && r[k] == acc[k] {
                    assert(acc.contains(x));
                    let p = choose|p: int| 0 <= p < f.len() && announces(f[p], x);
                    assert(announces(fs[p], x));
                } else {
                    assert(announces(fs[n], x));
                }
            }
            if exists|p: int| 0 <= p < fs.len() && announces(fs[p], x) {
                let p = choose|p: int| 0 <= p < fs.len() && announces(fs[p], x);
                if p < n {
                    assert(announces(f[p], x));
                    assert(acc.contains(x));
                    let k = choose|k: int| 0 <= k < acc.len() && acc[k] == x;
                    assert(r[k] == x);
                } else if acc.contains(x) {
                    let k = choose|k: int| 0 <= k < acc.len() && acc[k] == x;
                    assert(r[k] == x);
                } else {
                    assert(r[r.len() - 1] == x);
                }
            }
        }
        assert forall|i: int, j: int| 0 <= i < j < r.len() implies first_announcer(fs, #[trigger] r[i])
            < first_announcer(fs, #[trigger] r[j]) by {
            assert(r[i] == acc[i]);
            assert(acc.contains(acc[i]));
            lemma_first_announcer(f, acc[i]);
            if j < acc.len() {
                assert(r[j] == acc[j]);
                assert(acc.contains(acc[j]));
                lemma_first_announcer(f, acc[j]);
                assert(first_announcer(f, acc[i]) < first_announcer(f, acc[j]));
            } else {
                lemma_first_announcer(f, r[j]);
                assert(!acc.contains(r[j]));
            }
        }
        assert(r.no_duplicates()) by {
            assert forall|i: int, j: int| 0 <= i < r.len() && 0 <= j < r.len() && i != j implies r[i] != r[j] by {
                if i < acc.len() && j < acc.len() {
                    assert(r[i] == acc[i] && r[j] == acc[j]);
                } else if i < acc.len() {
                    assert(r[i] == acc[i]);
                    assert(acc.contains(acc[i]));
                } else {
                    assert(r[j] == acc[j]);
                    assert(acc.contains(acc[j]));
                }
            }
        }
    }
}

fn framework_by_file_name_exec(n: &[char]) -> (r: Option<String>)
    ensures
        match r {
            Some(f) => framework_by_file_name(n@) == Some(f@),
            None => framework_by_file_name(n@) is None,
        },
{
    if str_same(n, "Cargo.toml") {
        Some(owned("Cargo"))
    } else if str_same(n, "package.json") {
        Some(owned("Node.js"))
    } else if str_same(n, "requirements.txt") || str_same(n, "pyproject.toml") {
        Some(owned("Python"))
    } else if str_same(n, "pom.xml") {
        Some(owned("Maven"))
    } else if str_same(n, "build.gradle") {
        Some(owned("Gradle"))
    } else if str_same(n, "Gemfile") {
        Some(owned("Ruby on Rails"))
    } else {
        None
    }
}

/// The frameworks the manifest file names of `files` announce, without
/// repetition, in order of first appearance. The project path is not used.
pub fn detect_frameworks(files: &[FileObject], base_path: &str) -> (r: Vec<String>)
    ensures
        views(r@) == framework_list(files@),
{
    let mut r: Vec<String> = Vec::new();
    let mut i: usize = 0;
    while i < files.len()
        invariant
            i <= files.len(),
            views(r@) == framework_list(files@.take(i as int)),
        decreases files.len() - i,
    {
        proof {
            assert(files@.take(i + 1).drop_last() =~= files@.take(i as int));
            assert(files@.take(i + 1).last() == files@[i as int]);
        }
        let p = chars_of(files[i].path.as_str());
        let name = after_last_exec(p.as_slice(), '/');
        match framework_by_file_name_exec(name.as_slice()) {
            Some(f) => {
                if !crate::text::holds_string(&r, &f) {
                    let ghost old_r = r@;
                    r.push(f);
                    assert(views(r@) =~= views(old_r).push(f@));
                }
            },
            None => {},
        }
        i += 1;
    }
    assert(files@.take(files@.len() as int) =~= files@);
    r
}

} // verus!
