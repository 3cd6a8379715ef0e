//! Dependencies declared in Cargo, npm, pip and Go manifests.

use vstd::prelude::*;
use crate::ir::schema::{DependencyInfo, DependencyObject, FileObject};
use crate::risk::owned_opt_view;
use crate::risk::secrets::opt_view;
use crate::text::{
    after_last, after_last_exec, begins, chars_of, contains_text, finishes, first_index, lines,
    lines_exec, owned, split_once_char, split_once_char_exec, split_text, str_begins, str_contains,
    str_finishes, str_same, string_of, text_before, text_piece_after, trim, trim_exec, words,
    words_exec,
};

verus! {

/// A dependency before it becomes a record: name and version.
pub type NameVersion = (Seq<char>, Seq<char>);

/// The record carries name `d.0`, version `d.1` and kind `kind`.
pub open spec fn dep_is(r: DependencyInfo, d: NameVersion, kind: Seq<char>) -> bool {
    r.name@ == d.0 && r.version@ == d.1 && r.kind@ == kind
}

// ---------------------------------------------------------------------------
// Cargo.toml
// ---------------------------------------------------------------------------

/// The version text of a `name = value` entry: the inside of a quoted value,
/// the first quoted text of an inline table that mentions `version`, or the
/// trimmed value itself.
pub open spec fn version_of(value: Seq<char>) -> Seq<char> {
    let v = trim(value);
    if begins(v, seq!['"']) && finishes(v, seq!['"']) {
        v.subrange(1, v.len() - 1)
    } else if contains_text(v, "version"@) {
        match first_index(v, '"') {
            Some(s) => match first_index(v.skip(s + 1), '"') {
                Some(e) => v.subrange(s + 1, s + 1 + e),
                None => v,
            },
            None => v,
        }
    } else {
        v
    }
}

/// A value on which the version extraction is defined: not a lone `"`.
pub open spec fn version_defined(value: Seq<char>) -> bool {
    trim(value) != seq!['"']
}

proof fn lemma_first_index_facts(s: Seq<char>, c: char)
    ensures
        match first_index(s, c) {
            Some(i) => 0 <= i < s.len() && s[i] == c,
            None => true,
        },
    decreases s.len(),
{
    if s.len() > 0 && s[0] != c {
        lemma_first_index_facts(s.drop_first(), c);
    }
}

/// The version text of a dependency value (see `version_of`).
pub fn extract_version(value: &str) -> (r: String)
    requires
        version_defined(value@),
    ensures
        r@ == version_of(value@),
{
    let vc = chars_of(value);
    let v = trim_exec(vc.as_slice());
    let dq = ['"'];
    assert(dq@ =~= seq!['"']);
    if crate::text::begins_exec(v.as_slice(), &dq) && crate::text::finishes_exec(v.as_slice(), &dq) {
        assert(v@.len() >= 2) by {
            if v@.len() == 1 {
                assert(v@ =~= seq!['"']);
            }
        }
        let inner = crate::text::slice_copy(v.as_slice(), 1, v.len() - 1);
        return string_of(inner.as_slice());
    }
    if str_contains(v.as_slice(), "version") {
        if let Some(s) = crate::text::find_char(v.as_slice(), '"') {
            proof {
                crate::text::lemma_first_index_is(v@, '"', s as int);
            }
            assert(v@.len() == v.len());
            let rest = crate::text::slice_copy(v.as_slice(), s + 1, v.len());
            assert(rest@ =~= v@.skip(s + 1));
            if let Some(e) = crate::text::find_char(rest.as_slice(), '"') {
                proof {
                    crate::text::lemma_first_index_is(rest@, '"', e as int);
                }
                let inner = crate::text::slice_copy(v.as_slice(), s + 1, s + 1 + e);
                return string_of(inner.as_slice());
            } else {
                proof {
                    crate::text::lemma_first_index_is(rest@, '"', rest@.len() as int);
                }
            }
        } else {
            proof {
                crate::text::lemma_first_index_is(v@, '"', v@.len() as int);
            }
        }
    }
    string_of(v.as_slice())
}

/// `[dependencies]` entries of the lines `ls`, read in order; `in_deps` tells
/// whether the lines are inside that table.
pub open spec fn cargo_entries(ls: Seq<Seq<char>>, in_deps: bool) -> Seq<NameVersion>
    decreases ls.len(),
{
    if ls.len() == 0 {
        Seq::empty()
    } else {
        let t = trim(ls[0]);
        let rest = ls.drop_first();
        if t == "[dependencies]"@ {
            cargo_entries(rest, true)
        } else if begins(t, seq!['[']) && finishes(t, seq![']']) {
            cargo_entries(rest, false)
        } else if in_deps && contains_text(t, seq!['=']) {
            let parts = split_once_char(t, '=');
            seq![(trim(parts[0]), version_of(parts[1]))] + cargo_entries(rest, true)
        } else {
            cargo_entries(rest, in_deps)
        }
    }
}

/// Every `[dependencies]` entry of the lines has a value whose version can
/// be read.
pub open spec fn cargo_readable(ls: Seq<Seq<char>>, in_deps: bool) -> bool
    decreases ls.len(),
{
    if ls.len() == 0 {
        true
    } else {
        let t = trim(ls[0]);
        let rest = ls.drop_first();
        if t == "[dependencies]"@ {
            cargo_readable(rest, true)
        } else if begins(t, seq!['[']) && finishes(t, seq![']']) {
            cargo_readable(rest, false)
        } else if in_deps && contains_text(t, seq!['=']) {
            version_defined(split_once_char(t, '=')[1]) && cargo_readable(rest, true)
        } else {
            cargo_readable(rest, in_deps)
        }
    }
}

/// The text of a Cargo manifest can be read without failure.
pub open spec fn cargo_manifest_readable(content: Seq<char>) -> bool {
    cargo_readable(lines(content), false)
}

/// The runtime dependencies of a Cargo manifest's `[dependencies]` table.
pub fn parse_cargo_toml(content: &str) -> (r: (String, Vec<DependencyInfo>))
    requires
        cargo_manifest_readable(content@),
    ensures
        r.0@ == "cargo"@,
        r.1@.len() == cargo_entries(lines(content@), false).len(),
        forall|i: int|
            0 <= i < r.1@.len() ==> dep_is(#[trigger] r.1@[i], cargo_entries(lines(content@), false)[i], "runtime"@),
{
    let cs = chars_of(content);
    let ls = lines_exec(cs.as_slice());
    let ghost all = lines(content@);
    let mut deps: Vec<DependencyInfo> = Vec::new();
    let mut in_deps = false;
    let mut i: usize = 0;
    assert(all.skip(0) =~= all);
    while i < ls.len()
        invariant
            i <= ls@.len(),
            ls@.len() == all.len(),
            all == lines(content@),
            forall|k: int| 0 <= k < ls@.len() ==> #[trigger] ls@[k]@ == all[k],
            cargo_readable(all.skip(i as int), in_deps),
            deps@.len() + cargo_entries(all.skip(i as int), in_deps).len() == cargo_entries(all, false).len(),
            forall|k: int|
                0 <= k < deps@.len() ==> dep_is(#[trigger] deps@[k], cargo_entries(all, false)[k], "runtime"@),
            forall|k: int|
                0 <= k < cargo_entries(all.skip(i as int), in_deps).len() ==> cargo_entries(all, false)[deps@.len() + k]
                    == #[trigger] cargo_entries(all.skip(i as int), in_deps)[k],
        decreases ls.len() - i,
    {
        let ghost rest = all.skip(i + 1);
        assert(all.skip(i as int).drop_first() =~= rest);
        assert(all.skip(i as int)[0] == ls@[i as int]@);
        let t = trim_exec(ls[i].as_slice());
        let t = t.as_slice();
        let ghost prev_state = in_deps;
        if str_same(t, "[dependencies]") {
            in_deps = true;
        } else if str_begins(t, "[") && str_finishes(t, "]") {
            assert("["@ =~= seq!['[']) by {
                reveal_strlit("[");
            }
            assert("]"@ =~= seq![']']) by {
                reveal_strlit("]");
            }
            in_deps = false;
        } else {
            assert("["@ =~= seq!['[']) by {
                reveal_strlit("[");
            }
            assert("]"@ =~= seq![']']) by {
                reveal_strlit("]");
            }
            assert("="@ =~= seq!['=']) by {
                reveal_strlit("=");
            }
            if in_deps && str_contains(t, "=") {
                let parts = split_once_char_exec(t, '=');
                proof {
                    crate::text::lemma_contains_first_index(t@, '=');
                }
                let name_chars = trim_exec(parts[0].as_slice());
                let name = string_of(name_chars.as_slice());
                let value = string_of(parts[1].as_slice());
                let version = extract_version(value.as_str());
                let ghost before = deps@;
                deps.push(DependencyInfo { name, version, kind: owned("runtime") });
                proof {
                    let e = cargo_entries(all.skip(i as int), prev_state);
                    assert(e == seq![(trim(parts@[0]@), version_of(parts@[1]@))] + cargo_entries(rest, true));
                    assert(e[0] == (trim(parts@[0]@), version_of(parts@[1]@)));
                    assert(cargo_entries(all, false)[before.len() as int] == e[0]);
                    assert forall|k: int| 0 <= k < cargo_entries(rest, true).len() implies cargo_entries(all, false)[deps@.len() + k]
                        == #[trigger] cargo_entries(rest, true)[k] by {
                        assert(e[k + 1] == cargo_entries(rest, true)[k]);
                    }
                }
            }
        }
        i += 1;
    }
    (owned("cargo"), deps)
}

// ---------------------------------------------------------------------------
// requirements.txt
// ---------------------------------------------------------------------------

/// The dependency a requirement line `t` (already trimmed, not empty, not a
/// comment) declares: the name before `==`, `>=` or `<=`, and the version
/// after `==` or `*`.
pub open spec fn requirement_of(t: Seq<char>) -> NameVersion {
    let name = if contains_text(t, "=="@) {
        trim(split_text(t, "=="@)[0])
    } else if contains_text(t, ">="@) {
        trim(split_text(t, ">="@)[0])
    } else if contains_text(t, "<="@) {
        trim(split_text(t, "<="@)[0])
    } else {
        t
    };
    let version = if contains_text(t, "=="@) {
        trim(split_text(t, "=="@)[1])
    } else {
        "*"@
    };
    (name, version)
}

/// The requirements of the lines `ls`, skipping blank lines and comments.
pub open spec fn requirement_entries(ls: Seq<Seq<char>>) -> Seq<NameVersion>
    decreases ls.len(),
{
    if ls.len() == 0 {
        Seq::empty()
    } else {
        let t = trim(ls[0]);
        if t.len() == 0 || begins(t, seq!['#']) {
            requirement_entries(ls.drop_first())
        } else {
            seq![requirement_of(t)] + requirement_entries(ls.drop_first())
        }
    }
}

/// Whether a Cargo manifest text can be read without failure (see
/// `cargo_manifest_readable`).
pub fn is_cargo_manifest_readable(content: &str) -> (r: bool)
    ensures
        r == cargo_manifest_readable(content@),
{
    let cs = chars_of(content);
    let ls = lines_exec(cs.as_slice());
    let ghost all = lines(content@);
    let mut in_deps = false;
    let mut i: usize = 0;
    assert(all.skip(0) =~= all);
    while i < ls.len()
        invariant
            i <= ls@.len(),
            ls@.len() == all.len(),
            all == lines(content@),
            forall|k: int| 0 <= k < ls@.len() ==> #[trigger] ls@[k]@ == all[k],
            cargo_readable(all, false) == cargo_readable(all.skip(i as int), in_deps),
        decreases ls.len() - i,
    {
        assert(all.skip(i as int).drop_first() =~= all.skip(i + 1));
        assert(all.skip(i as int)[0] == ls@[i as int]@);
        let t = trim_exec(ls[i].as_slice());
        let t = t.as_slice();
        assert("["@ =~= seq!['[']) by {
            reveal_strlit("[");
        }
        assert("]"@ =~= seq![']']) by {
            reveal_strlit("]");
        }
        assert("="@ =~= seq!['=']) by {
            reveal_strlit("=");
        }
        if str_same(t, "[dependencies]") {
            in_deps = true;
        } else if str_begins(t, "[") && str_finishes(t, "]") {
            in_deps = false;
        } else if in_deps && str_contains(t, "=") {
            let parts = split_once_char_exec(t, '=');
            proof {
                crate::text::lemma_contains_first_index(t@, '=');
            }
            let dq = ['"'];
            let v = trim_exec(parts[1].as_slice());
            if crate::text::same_exec(v.as_slice(), &dq) {
                assert(dq@ =~= seq!['"']);
                return false;
            }
            assert(dq@ =~= seq!['"']);
        }
        i += 1;
    }
    true
}

/// Whether every file of the list can be read as a manifest without failure
/// (see `manifests_readable`); `contents` is as for `extract_dependencies`.
pub fn are_manifests_readable(files: &[FileObject], contents: &[Option<String>]) -> (r: bool)
    requires
        contents@.len() == files@.len(),
    ensures
        r == manifests_readable(files@, contents@),
{
    let mut i: usize = 0;
    while i < files.len()
        invariant
            i <= files.len(),
            contents@.len() == files@.len(),
            forall|k: int| 0 <= k < i ==> manifest_readable(#[trigger] files@[k], owned_opt_view(contents@[k])),
        decreases files.len() - i,
    {
        if let Some(c) = &contents[i] {
            let pc = chars_of(files[i].path.as_str());
            let nc = after_last_exec(pc.as_slice(), '/');
            if str_same(nc.as_slice(), "Cargo.toml") && !is_cargo_manifest_readable(c.as_str()) {
                return false;
            }
        }
        i += 1;
    }
    true
}

/// The runtime dependencies of a pip requirements file.
pub fn parse_requirements_txt(content: &str) -> (r: (String, Vec<DependencyInfo>))
    ensures
        r.0@ == "pip"@,
        r.1@.len() == requirement_entries(lines(content@)).len(),
        forall|i: int|
            0 <= i < r.1@.len() ==> dep_is(#[trigger] r.1@[i], requirement_entries(lines(content@))[i], "runtime"@),
{
    let cs = chars_of(content);
    let ls = lines_exec(cs.as_slice());
    let ghost all = lines(content@);
    let mut deps: Vec<DependencyInfo> = Vec::new();
    let mut i: usize = 0;
    assert(all.skip(0) =~= all);
    let eq = chars_of("==");
    let ge = chars_of(">=");
    let le = chars_of("<=");
    proof {
        reveal_strlit("==");
        reveal_strlit(">=");
        reveal_strlit("<=");
        reveal_strlit("#");
    }
    while i < ls.len()
        invariant
            i <= ls@.len(),
            ls@.len() == all.len(),
            all == lines(content@),
            eq@ == "=="@,
            ge@ == ">="@,
            le@ == "<="@,
            eq@.len() > 0 && ge@.len() > 0 && le@.len() > 0,
            "#"@ == seq!['#'],
            forall|k: int| 0 <= k < ls@.len() ==> #[trigger] ls@[k]@ == all[k],
            deps@.len() + requirement_entries(all.skip(i as int)).len() == requirement_entries(all).len(),
            forall|k: int|
                0 <= k < deps@.len() ==> dep_is(#[trigger] deps@[k], requirement_entries(all)[k], "runtime"@),
            forall|k: int|
                0 <= k < requirement_entries(all.skip(i as int)).len() ==> requirement_entries(all)[deps@.len() + k]
                    == #[trigger] requirement_entries(all.skip(i as int))[k],
        decreases ls.len() - i,
    {
        let ghost rest = all.skip(i + 1);
        assert(all.skip(i as int).drop_first() =~= rest);
        assert(all.skip(i as int)[0] == ls@[i as int]@);
        let tv = trim_exec(ls[i].as_slice());
        let t = tv.as_slice();
        if !(t.len() == 0 || str_begins(t, "#")) {
            let has_eq = crate::text::contains_exec(t, eq.as_slice());
            let name_chars = if has_eq {
                let p = text_before(t, eq.as_slice());
                trim_exec(p.as_slice())
            } else if crate::text::contains_exec(t, ge.as_slice()) {
                let p = text_before(t, ge.as_slice());
                trim_exec(p.as_slice())
            } else if crate::text::contains_exec(t, le.as_slice()) {
                let p = text_before(t, le.as_slice());
                trim_exec(p.as_slice())
            } else {
                crate::text::slice_copy(t, 0, t.len())
            };
            assert(t@.subrange(0, t@.len() as int) =~= t@);
            let version = if has_eq {
                proof {
                    crate::text::lemma_split_text_two(t@, eq@);
                }
                match text_piece_after(t, eq.as_slice()) {
                    Some(v) => {
                        let vt = trim_exec(v.as_slice());
                        string_of(vt.as_slice())
                    },
                    None => owned("*"),
                }
            } else {
                owned("*")
            };
            let ghost before = deps@;
            deps.push(DependencyInfo { name: string_of(name_chars.as_slice()), version, kind: owned("runtime") });
            proof {
                let e = requirement_entries(all.skip(i as int));
                assert(e == seq![requirement_of(t@)] + requirement_entries(rest));
                assert(e[0] == requirement_of(t@));
                assert forall|k: int| 0 <= k < requirement_entries(rest).len() implies requirement_entries(all)[deps@.len() + k]
                    == #[trigger] requirement_entries(rest)[k] by {
                    assert(e[k + 1] == requirement_entries(rest)[k]);
                }
            }
        }
        i += 1;
    }
    (owned("pip"), deps)
}

// ---------------------------------------------------------------------------
// go.mod
// ---------------------------------------------------------------------------

/// The module and version a require line declares, when it has both.
pub open spec fn require_of(t: Seq<char>) -> Option<NameVersion> {
    let line = if begins(t, "require "@) {
        trim(t.skip(8))
    } else {
        t
    };
    let parts = words(line);
    if parts.len() >= 2 {
        Some((parts[0], parts[1]))
    } else {
        None
    }
}

/// The requirements of the lines `ls` of a go.mod; `in_require` tells
/// whether the lines are inside a `require (` block.
pub open spec fn go_entries(ls: Seq<Seq<char>>, in_require: bool) -> Seq<NameVersion>
    decreases ls.len(),
{
    if ls.len() == 0 {
        Seq::empty()
    } else {
        let t = trim(ls[0]);
        let rest = ls.drop_first();
        if begins(t, "require ("@) {
            go_entries(rest, true)
        } else if t == ")"@ {
            go_entries(rest, false)
        } else if in_require || begins(t, "require "@) {
            match require_of(t) {
                Some(d) => seq![d] + go_entries(rest, in_require),
                None => go_entries(rest, in_require),
            }
        } else {
            go_entries(rest, in_require)
        }
    }
}

/// The runtime requirements of a go.mod file.
pub fn parse_go_mod(content: &str) -> (r: (String, Vec<DependencyInfo>))
    ensures
        r.0@ == "go"@,
        r.1@.len() == go_entries(lines(content@), false).len(),
        forall|i: int|
            0 <= i < r.1@.len() ==> dep_is(#[trigger] r.1@[i], go_entries(lines(content@), false)[i], "runtime"@),
{
    let cs = chars_of(content);
    let ls = lines_exec(cs.as_slice());
    let ghost all = lines(content@);
    let mut deps: Vec<DependencyInfo> = Vec::new();
    let mut in_require = false;
    let mut i: usize = 0;
    assert(all.skip(0) =~= all);
    proof {
        reveal_strlit("require ");
    }
    while i < ls.len()
        invariant
            i <= ls@.len(),
            ls@.len() == all.len(),
            all == lines(content@),
            "require "@.len() == 8,
            forall|k: int| 0 <= k < ls@.len() ==> #[trigger] ls@[k]@ == all[k],
            deps@.len() + go_entries(all.skip(i as int), in_require).len() == go_entries(all, false).len(),
            forall|k: int|
                0 <= k < deps@.len() ==> dep_is(#[trigger] deps@[k], go_entries(all, false)[k], "runtime"@),
            forall|k: int|
                0 <= k < go_entries(all.skip(i as int), in_require).len() ==> go_entries(all, false)[deps@.len() + k]
                    == #[trigger] go_entries(all.skip(i as int), in_require)[k],
        decreases ls.len() - i,
    {
        let ghost rest = all.skip(i + 1);
        assert(all.skip(i as int).drop_first() =~= rest);
        assert(all.skip(i as int)[0] == ls@[i as int]@);
        let tv = trim_exec(ls[i].as_slice());
        let t = tv.as_slice();
        if str_begins(t, "require (") {
            in_require = true;
        } else if str_same(t, ")") {
            in_require = false;
        } else {
            let starts = str_begins(t, "require ");
            if in_require || starts {
                let line = if starts {
                    let tail = crate::text::slice_copy(t, 8, t.len());
                    assert(tail@ =~= t@.skip(8));
                    trim_exec(tail.as_slice())
                } else {
                    crate::text::slice_copy(t, 0, t.len())
                };
                assert(t@.subrange(0, t@.len() as int) =~= t@);
                let parts = words_exec(line.as_slice());
                if parts.len() >= 2 {
                    let ghost before = deps@;
                    deps.push(
                        DependencyInfo {
                            name: string_of(parts[0].as_slice()),
                            version: string_of(parts[1].as_slice()),
                            kind: owned("runtime"),
                        },
                    );
                    proof {
                        let e = go_entries(all.skip(i as int), in_require);
                        assert(require_of(t@) == Some((parts@[0]@, parts@[1]@)));
                        assert(e == seq![(parts@[0]@, parts@[1]@)] + go_entries(rest, in_require));
                        assert(e[0] == (parts@[0]@, parts@[1]@));
                        assert(go_entries(all, false)[before.len() as int] == e[0]);
                        assert forall|k: int| 0 <= k < go_entries(rest, in_require).len() implies go_entries(all, false)[deps@.len() + k]
                            == #[trigger] go_entries(rest, in_require)[k] by {
                            assert(e[k + 1] == go_entries(rest, in_require)[k]);
                        }
                    }
                }
            }
        }
        i += 1;
    }
    (owned("go"), deps)
}

// ---------------------------------------------------------------------------
// package.json
// ---------------------------------------------------------------------------

/// What `serde_json` reads from a JSON text `content` for the member `key`
/// of the top-level object: `None` when the text is not JSON; `Some(None)`
/// when the member is missing or not an object; otherwise the member's
/// entries in the order `serde_json::Map` iterates them, each value given as
/// its text when it is a JSON string.
pub uninterp spec fn json_member_entries(content: Seq<char>, key: Seq<char>) -> Option<Option<Seq<(Seq<char>, Option<Seq<char>>)>>>;

/// The views of JSON members as the reader returns them.
pub open spec fn member_views(v: Seq<(String, Option<String>)>) -> Seq<(Seq<char>, Option<Seq<char>>)> {
    v.map_values(|e: (String, Option<String>)| (e.0@, owned_opt_view(e.1)))
}

/// The view of what the JSON reader returns.
pub open spec fn json_entries_view(r: Option<Option<Vec<(String, Option<String>)>>>) -> Option<Option<Seq<(Seq<char>, Option<Seq<char>>)>>> {
    match r {
        None => None,
        Some(None) => Some(None),
        Some(Some(v)) => Some(Some(member_views(v@))),
    }
}

/// Calls `serde_json::from_str` into a `serde_json::Value`, then
/// `Value::get(key)`, `Value::as_object`, and for each entry of the map
/// `Value::as_str`. Claimed: the result is `json_member_entries(content, key)`,
/// a function of the two texts alone; nothing more is stated of it.
#[verifier::external_body]
fn json_string_members(content: &str, key: &str) -> (r: Option<Option<Vec<(String, Option<String>)>>>)
    ensures
        json_entries_view(r) == json_member_entries(content@, key@),
{
    let json: serde_json::Value = match serde_json::from_str(content) {
        Ok(v) => v,
        Err(_) => return None,
    };
    Some(json.get(key).and_then(|v| v.as_object()).map(
        |m| m.iter().map(|(k, v)| (k.clone(), v.as_str().map(|s| s.to_string()))).collect(),
    ))
}

/// A dependency with its kind: name, version, kind.
pub type Dependency = (Seq<char>, Seq<char>, Seq<char>);

/// The record carries the dependency `d`.
pub open spec fn dependency_is(r: DependencyInfo, d: Dependency) -> bool {
    r.name@ == d.0 && r.version@ == d.1 && r.kind@ == d.2
}

/// JSON members as dependencies of kind `kind`; a value that is not a JSON
/// string gives the version `*`.
pub open spec fn json_dependencies(es: Seq<(Seq<char>, Option<Seq<char>>)>, kind: Seq<char>) -> Seq<Dependency> {
    es.map_values(
        |e: (Seq<char>, Option<Seq<char>>)|
            (e.0, match e.1 {
                Some(v) => v,
                None => "*"@,
            }, kind),
    )
}

/// The members of an optional JSON object, or none.
pub open spec fn members_or_none(m: Option<Option<Seq<(Seq<char>, Option<Seq<char>>)>>>) -> Seq<(Seq<char>, Option<Seq<char>>)> {
    match m {
        Some(Some(es)) => es,
        _ => Seq::empty(),
    }
}

/// The dependencies of a package.json: `dependencies` as runtime and
/// `devDependencies` as dev; none when the text is not JSON.
pub open spec fn package_entries(content: Seq<char>) -> Option<Seq<Dependency>> {
    match json_member_entries(content, "dependencies"@) {
        None => None,
        Some(d) => Some(
            json_dependencies(
                match d {
                    Some(es) => es,
                    None => Seq::empty(),
                },
                "runtime"@,
            ) + json_dependencies(members_or_none(json_member_entries(content, "devDependencies"@)), "dev"@),
        ),
    }
}

fn push_json_members(deps: &mut Vec<DependencyInfo>, members: &Vec<(String, Option<String>)>, kind: &str)
    ensures
        final(deps)@.len() == old(deps)@.len() + members@.len(),
        forall|k: int| 0 <= k < old(deps)@.len() ==> #[trigger] final(deps)@[k] == old(deps)@[k],
        forall|k: int|
            0 <= k < members@.len() ==> dependency_is(
                #[trigger] final(deps)@[old(deps)@.len() + k],
                json_dependencies(member_views(members@), kind@)[k],
            ),
{
    let ghost start = deps@;
    let mut i: usize = 0;
    while i < members.len()
        invariant
            i <= members@.len(),
            deps@.len() == start.len() + i,
            forall|k: int| 0 <= k < start.len() ==> #[trigger] deps@[k] == start[k],
            forall|k: int|
                0 <= k < i ==> dependency_is(
                    #[trigger] deps@[start.len() + k],
                    json_dependencies(
                        members@.map_values(|e: (String, Option<String>)| (e.0@, owned_opt_view(e.1))),
                        kind@,
                    )[k],
                ),
        decreases members.len() - i,
    {
        let version = match &members[i].1 {
            Some(v) => v.clone(),
            None => owned("*"),
        };
        deps.push(DependencyInfo { name: members[i].0.clone(), version, kind: owned(kind) });
        i += 1;
    }
}

/// The dependencies of a package.json text (see `package_entries`).
pub fn parse_package_json(content: &str) -> (r: Option<(String, Vec<DependencyInfo>)>)
    ensures
        match package_entries(content@) {
            Some(ds) => r matches Some(p) && p.0@ == "npm"@ && p.1@.len() == ds.len() && forall|i: int|
                0 <= i < ds.len() ==> dependency_is(#[trigger] p.1@[i], ds[i]),
            None => r is None,
        },
{
    let runtime = json_string_members(content, "dependencies");
    let runtime = match runtime {
        None => return None,
        Some(m) => m,
    };
    let mut deps: Vec<DependencyInfo> = Vec::new();
    let empty: Vec<(String, Option<String>)> = Vec::new();
    match &runtime {
        Some(members) => push_json_members(&mut deps, members, "runtime"),
        None => push_json_members(&mut deps, &empty, "runtime"),
    }
    let ghost mid = deps@;
    let dev = json_string_members(content, "devDependencies");
    match &dev {
        Some(Some(members)) => push_json_members(&mut deps, members, "dev"),
        _ => push_json_members(&mut deps, &empty, "dev"),
    }
    proof {
        let ds = package_entries(content@).unwrap();
        let a = json_dependencies(
            match json_member_entries(content@, "dependencies"@).unwrap() {
                Some(es) => es,
                None => Seq::empty(),
            },
            "runtime"@,
        );
        let b = json_dependencies(members_or_none(json_member_entries(content@, "devDependencies"@)), "dev"@);
        assert(ds == a + b);
        assert(a.len() == mid.len());
        assert forall|i: int| 0 <= i < ds.len() implies dependency_is(#[trigger] deps@[i], ds[i]) by {
            if i < a.len() {
                assert(deps@[i] == mid[i]);
                assert(mid[0 + i] == mid[i]);
                assert(ds[i] == a[i]);
            } else {
                assert(deps@[mid.len() + (i - a.len())] == deps@[i]);
                assert(ds[i] == b[i - a.len()]);
            }
        }
    }
    Some((owned("npm"), deps))
}

// ---------------------------------------------------------------------------
// Manifests of the project
// ---------------------------------------------------------------------------

/// The manager and dependencies a manifest file declares, from its name
/// (the text after the last `/`) and its text; none for other files and
/// for manifests that could not be read.
pub open spec fn manifest_of(file: FileObject, content: Option<Seq<char>>) -> Option<(Seq<char>, Seq<Dependency>)> {
    let n = after_last(file.path@, '/');
    match content {
        None => None,
        Some(c) => if n == "Cargo.toml"@ {
            Some(("cargo"@, cargo_entries(lines(c), false).map_values(|d: NameVersion| (d.0, d.1, "runtime"@))))
        } else if n == "package.json"@ {
            match package_entries(c) {
                Some(ds) => Some(("npm"@, ds)),
                None => None,
            }
        } else if n == "requirements.txt"@ {
            Some(("pip"@, requirement_entries(lines(c)).map_values(|d: NameVersion| (d.0, d.1, "runtime"@))))
        } else if n == "go.mod"@ {
            Some(("go"@, go_entries(lines(c), false).map_values(|d: NameVersion| (d.0, d.1, "runtime"@))))
        } else {
            None
        },
    }
}

/// A manifest that can be read without failure: only Cargo manifests have a
/// condition (see `cargo_manifest_readable`).
pub open spec fn manifest_readable(file: FileObject, content: Option<Seq<char>>) -> bool {
    match content {
        Some(c) => after_last(file.path@, '/') == "Cargo.toml"@ ==> cargo_manifest_readable(c),
        None => true,
    }
}

/// The record holds the manifest facts `m` of the file at `source`.
pub open spec fn manifest_is(o: DependencyObject, source: Seq<char>, m: (Seq<char>, Seq<Dependency>)) -> bool {
    &&& o.source@ == source
    &&& o.manager@ == m.0
    &&& o.dependencies@.len() == m.1.len()
    &&& forall|i: int| 0 <= i < m.1.len() ==> dependency_is(#[trigger] o.dependencies@[i], m.1[i])
}

/// The dependencies of one manifest file (see `manifest_of`); `content` is
/// the file's text when it could be read.
pub fn parse_dependency_file(file: &FileObject, content: Option<&str>) -> (r: Option<DependencyObject>)
    requires
        manifest_readable(*file, opt_view(content)),
    ensures
        match manifest_of(*file, opt_view(content)) {
            Some(m) => r is Some && manifest_is(r->0, file.path@, m),
            None => r is None,
        },
{
    let pc = chars_of(file.path.as_str());
    let nc = after_last_exec(pc.as_slice(), '/');
    let n = nc.as_slice();
    let content = match content {
        Some(c) => c,
        None => return None,
    };
    let (manager, deps) = if str_same(n, "Cargo.toml") {
        parse_cargo_toml(content)
    } else if str_same(n, "package.json") {
        match parse_package_json(content) {
            Some(r) => r,
            None => return None,
        }
    } else if str_same(n, "requirements.txt") {
        parse_requirements_txt(content)
    } else if str_same(n, "go.mod") {
        parse_go_mod(content)
    } else {
        return None;
    };
    Some(DependencyObject { source: file.path.clone(), manager, dependencies: deps })
}

/// The manifests among the files, in file order.
pub open spec fn manifest_entries(fs: Seq<FileObject>, contents: Seq<Option<String>>) -> Seq<(Seq<char>, (Seq<char>, Seq<Dependency>))>
    decreases fs.len(),
{
    if fs.len() == 0 {
        Seq::empty()
    } else {
        let acc = manifest_entries(fs.drop_last(), contents);
        match manifest_of(fs.last(), owned_opt_view(contents[fs.len() - 1])) {
            Some(m) => acc.push((fs.last().path@, m)),
            None => acc,
        }
    }
}

/// Every file of the list can be read as a manifest without failure.
pub open spec fn manifests_readable(fs: Seq<FileObject>, contents: Seq<Option<String>>) -> bool {
    forall|i: int| 0 <= i < fs.len() ==> manifest_readable(#[trigger] fs[i], owned_opt_view(contents[i]))
}

/// The declared dependencies of every manifest among the files
/// (`contents[i]` is the text of `files[i]` when it could be read).
pub fn extract_dependencies(files: &[FileObject], contents: &[Option<String>]) -> (r: Vec<DependencyObject>)
    requires
        contents@.len() == files@.len(),
        manifests_readable(files@, contents@),
    ensures
        r@.len() == manifest_entries(files@, contents@).len(),
        forall|i: int|
            0 <= i < r@.len() ==> manifest_is(
                #[trigger] r@[i],
                manifest_entries(files@, contents@)[i].0,
                manifest_entries(files@, contents@)[i].1,
            ),
{
    let mut out: Vec<DependencyObject> = Vec::new();
    let mut i: usize = 0;
    while i < files.len()
        invariant
            i <= files.len(),
            contents@.len() == files@.len(),
            manifests_readable(files@, contents@),
            out@.len() == manifest_entries(files@.take(i as int), contents@).len(),
            forall|j: int|
                0 <= j < out@.len() ==> manifest_is(
                    #[trigger] out@[j],
                    manifest_entries(files@.take(i as int), contents@)[j].0,
                    manifest_entries(files@.take(i as int), contents@)[j].1,
                ),
        decreases files.len() - i,
    {
        proof {
            assert(files@.take(i + 1).drop_last() =~= files@.take(i as int));
            assert(files@.take(i + 1).last() == files@[i as int]);
        }
        let content: Option<&str> = match &contents[i] {
            Some(s) => Some(s.as_str()),
            None => None,
        };
        assert(opt_view(content) == owned_opt_view(contents@[i as int]));
        if let Some(dep) = parse_dependency_file(&files[i], content) {
            out.push(dep);
        }
        i += 1;
    }
    assert(files@.take(files@.len() as int) =~= files@);
    out
}

/// A manifest is known by its file name alone (the text after the last
/// `/`): two files of the same name and the same text declare the same
/// manager and dependencies, wherever they stand in the project.
pub proof fn lemma_manifest_by_name(f: FileObject, g: FileObject, content: Option<Seq<char>>)
    requires
        after_last(f.path@, '/') == after_last(g.path@, '/'),
    ensures
        manifest_of(f, content) == manifest_of(g, content),
{
}

/// The four manifest names and their managers: `Cargo.toml` is read by
/// cargo, `package.json` by npm (when its text is JSON), `requirements.txt`
/// by pip and `go.mod` by go; a readable file of any other name declares
/// nothing, and nor does a file whose text could not be read.
pub proof fn lemma_manifest_names(f: FileObject, c: Seq<char>)
    ensures
        after_last(f.path@, '/') == "Cargo.toml"@ ==> (manifest_of(f, Some(c)) matches Some(m) && m.0 == "cargo"@),
        after_last(f.path@, '/') == "package.json"@ && package_entries(c) is Some ==> (manifest_of(f, Some(c)) matches Some(
            m,
        ) && m.0 == "npm"@ && m.1 == package_entries(c).unwrap()),
        after_last(f.path@, '/') == "requirements.txt"@ ==> (manifest_of(f, Some(c)) matches Some(m) && m.0 == "pip"@),
        after_last(f.path@, '/') == "go.mod"@ ==> (manifest_of(f, Some(c)) matches Some(m) && m.0 == "go"@),
        after_last(f.path@, '/') != "Cargo.toml"@ && after_last(f.path@, '/') != "package.json"@ && after_last(
            f.path@,
            '/',
        ) != "requirements.txt"@ && after_last(f.path@, '/') != "go.mod"@ ==> manifest_of(f, Some(c)) is None,
        manifest_of(f, None) is None,
{
    reveal_strlit("Cargo.toml");
    reveal_strlit("package.json");
    reveal_strlit("requirements.txt");
    reveal_strlit("go.mod");
    assert("Cargo.toml"@.len() == 10);
    assert("package.json"@.len() == 12);
    assert("requirements.txt"@.len() == 16);
    assert("go.mod"@.len() == 6);
}

} // verus!
