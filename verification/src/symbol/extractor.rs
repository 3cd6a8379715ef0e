//! Symbol extraction: declarations, functions, methods and imports found by
//! regular expressions over the text of a source file.
//!
//! Every extractor runs its patterns in a fixed order; the first pattern that
//! the regex engine refuses ends the extraction with its error message.

use vstd::prelude::*;
use vstd::string::StringExecFns;
use crate::map::schema::{
    opt_text, parameter_views, symbol_views, Parameter, ParameterView, Symbol, SymbolKind,
    SymbolView, Visibility,
};
use crate::matching::{
    byte_prefix, byte_suffix, captures_all, group, group_text, group_text_exec,
    groups_pos, has_group, has_group_exec, lemma_lines_len, line_at, line_at_exec, match_end,
    match_end_exec, match_start, match_start_exec, matches_fit, matches_pos, regex_captures,
    split_at_byte, Span,
};
use crate::symbol::signature::{
    brace_block, extract_python_fn_signature, extract_rust_fn_signature, find_brace_block,
    params_text, params_window_ok, parse_python_fn_params, parse_rust_fn_params_return,
    python_params, python_stops, rust_params, rust_return, rust_stops, signature_cut_ok,
    signature_text,
};
use crate::paths::{extension, extension_exec};
use crate::symbol::signature::{params_window_ok_exec, signature_cut_ok_exec};
use crate::text::{
    begins, chars_of, decimal, decimal_exec, finishes, lines, lines_exec, lowercase, owned,
    slice_copy, split_char, str_begins, str_finishes, str_same, string_of, to_lowercase_string,
};

verus! {

// ---------------------------------------------------------------------------
// Patterns
// ---------------------------------------------------------------------------

pub const RUST_STRUCT: &'static str = r"(?m)^(pub\s+)?struct\s+(\w+)";

pub const RUST_ENUM: &'static str = r"(?m)^(pub\s+)?enum\s+(\w+)";

pub const RUST_TRAIT: &'static str = r"(?m)^(pub\s+)?trait\s+(\w+)";

pub const RUST_FN: &'static str = r"(?m)^(pub\s+)?(async\s+)?(fn)\s+(\w+)";

pub const RUST_IMPL: &'static str = r"(?m)^impl(\s+<[^>]+>)?\s+(\w+)";

pub const RUST_METHOD: &'static str = r"(?m)(pub\s+)?(async\s+)?(fn)\s+(\w+)";

pub const RUST_USE: &'static str = r"(?m)^use\s+([^;]+);";

pub const PY_CLASS: &'static str = r"(?m)^class\s+(\w+)(?:\(([^)]*)\))?";

pub const PY_FN: &'static str = r"(?m)^(async\s+)?def\s+(\w+)\s*\(";

pub const PY_IMPORT: &'static str = r"(?m)^import\s+([^\n]+)|^from\s+(\S+)\s+import\s+([^\n]+)";

pub const JS_CLASS: &'static str = r"(?m)(export\s+)?(default\s+)?class\s+(\w+)";

pub const JS_FN: &'static str = r"(?m)(export\s+)?(async\s+)?function\s+(\w+)";

pub const JS_ARROW: &'static str = r"(?m)(export\s+)?(const|let|var)\s+(\w+)\s*=\s*(async\s+)?\([^)]*\)\s*=>";

pub const JS_IMPORT: &'static str = r#"(?m)^import\s+.*?from\s+['"]([^'"]+)['"]"#;

pub const TS_INTERFACE: &'static str = r"(?m)(export\s+)?interface\s+(\w+)";

pub const TS_TYPE: &'static str = r"(?m)(export\s+)?type\s+(\w+)";

pub const GO_STRUCT: &'static str = r"(?m)^type\s+(\w+)\s+struct";

pub const GO_INTERFACE: &'static str = r"(?m)^type\s+(\w+)\s+interface";

pub const GO_FN: &'static str = r"(?m)^func\s+(?:\([^)]+\)\s+)?(\w+)";

pub const JAVA_CLASS: &'static str = r"(?m)(public\s+)?(abstract\s+)?class\s+(\w+)";

pub const JAVA_INTERFACE: &'static str = r"(?m)(public\s+)?interface\s+(\w+)";

pub const JAVA_METHOD: &'static str = r"(?m)(public|private|protected)?\s*(static\s+)?(\w+)\s+(\w+)\s*\(";

pub const ANY_FN: &'static str = r"(?m)(function|def|func|fn)\s+(\w+)";

// ---------------------------------------------------------------------------
// Building symbols
// ---------------------------------------------------------------------------

/// A symbol on one line, with no columns, docstring or type parameters.
pub open spec fn symbol_view_of(
    id: Seq<char>,
    name: Seq<char>,
    kind: SymbolKind,
    file_id: Seq<char>,
    file_path: Seq<char>,
    line: nat,
    signature: Seq<char>,
    parent_id: Option<Seq<char>>,
    visibility: Visibility,
    is_async: bool,
    is_static: bool,
    parameters: Seq<ParameterView>,
    return_type: Option<Seq<char>>,
) -> SymbolView {
    SymbolView {
        id,
        name,
        kind,
        file_id,
        file_path,
        start_line: line,
        end_line: line + 1,
        start_col: 0,
        end_col: 0,
        signature,
        docstring: None,
        parent_id,
        visibility,
        is_async,
        is_static,
        parameters,
        return_type,
        type_parameters: Seq::empty(),
    }
}

/// A symbol without parent, parameters or return type.
pub open spec fn plain_symbol(
    id: Seq<char>,
    name: Seq<char>,
    kind: SymbolKind,
    file_id: Seq<char>,
    file_path: Seq<char>,
    line: nat,
    signature: Seq<char>,
    visibility: Visibility,
    is_async: bool,
    is_static: bool,
) -> SymbolView {
    symbol_view_of(
        id,
        name,
        kind,
        file_id,
        file_path,
        line,
        signature,
        None,
        visibility,
        is_async,
        is_static,
        Seq::empty(),
        None,
    )
}

/// Makes a symbol.
fn new_symbol(
    id: String,
    name: String,
    kind: SymbolKind,
    file_id: &str,
    file_path: &str,
    start_line: usize,
    signature: String,
    parent_id: Option<String>,
    visibility: Visibility,
    is_async: bool,
    is_static: bool,
    parameters: Vec<Parameter>,
    return_type: Option<String>,
) -> (r: Symbol)
    requires
        start_line < usize::MAX,
    ensures
        r@ == symbol_view_of(
            id@,
            name@,
            kind,
            file_id@,
            file_path@,
            start_line as nat,
            signature@,
            opt_text(parent_id),
            visibility,
            is_async,
            is_static,
            parameter_views(parameters@),
            opt_text(return_type),
        ),
{
    let r = Symbol {
        id,
        name,
        kind,
        file_id: owned(file_id),
        file_path: owned(file_path),
        start_line,
        end_line: start_line + 1,
        start_col: 0,
        end_col: 0,
        signature,
        docstring: None,
        parent_id,
        visibility,
        is_async,
        is_static,
        parameters,
        return_type,
        type_parameters: Vec::new(),
    };
    assert(r.type_parameters@.map_values(|t: String| t@) =~= Seq::<Seq<char>>::empty());
    r
}

/// `a + b + c`.
pub fn concat3(a: &str, b: &str, c: &str) -> (r: String)
    ensures
        r@ == a@ + b@ + c@,
{
    let mut r = owned(a);
    r.append(b);
    r.append(c);
    r
}

/// How the visibility of a declaration is read from its match.
#[derive(Clone, Copy)]
pub enum VisRule {
    /// Public when the group took part, else private.
    IfGroup(usize),
    /// Public when either group took part, else private.
    IfEither(usize, usize),
    /// Public when the group took part, else internal.
    IfGroupElseInternal(usize),
    /// Always the given visibility.
    Always(Visibility),
}

/// The visibility that `rule` reads from the match `m`.
pub open spec fn rule_visibility(rule: VisRule, m: Seq<Option<(int, int)>>) -> Visibility {
    match rule {
        VisRule::IfGroup(g) => if has_group(m, g as int) {
            Visibility::Public
        } else {
            Visibility::Private
        },
        VisRule::IfEither(g, h) => if has_group(m, g as int) || has_group(m, h as int) {
            Visibility::Public
        } else {
            Visibility::Private
        },
        VisRule::IfGroupElseInternal(g) => if has_group(m, g as int) {
            Visibility::Public
        } else {
            Visibility::Internal
        },
        VisRule::Always(v) => v,
    }
}

fn rule_visibility_exec(rule: VisRule, m: &Vec<Option<Span>>) -> (r: Visibility)
    ensures
        r == rule_visibility(rule, groups_pos(*m)),
{
    match rule {
        VisRule::IfGroup(g) => if has_group_exec(m, g) {
            Visibility::Public
        } else {
            Visibility::Private
        },
        VisRule::IfEither(g, h) => if has_group_exec(m, g) || has_group_exec(m, h) {
            Visibility::Public
        } else {
            Visibility::Private
        },
        VisRule::IfGroupElseInternal(g) => if has_group_exec(m, g) {
            Visibility::Public
        } else {
            Visibility::Internal
        },
        VisRule::Always(v) => v,
    }
}

/// Whether the group `g` (when given) marks the declaration `async`.
pub open spec fn async_flag(g: Option<usize>, m: Seq<Option<(int, int)>>) -> bool {
    match g {
        Some(k) => has_group(m, k as int),
        None => false,
    }
}

/// A declaration read from the match `m`: its name is group `name_group`, its
/// id is the file id, `tag` and the name, its signature the whole match.
pub open spec fn decl_at(
    c: Seq<char>,
    fid: Seq<char>,
    fpath: Seq<char>,
    m: Seq<Option<(int, int)>>,
    tag: Seq<char>,
    kind: SymbolKind,
    name_group: int,
    vis: VisRule,
    async_group: Option<usize>,
) -> SymbolView {
    let name = group_text(c, m, name_group);
    plain_symbol(
        fid + tag + name,
        name,
        kind,
        fid,
        fpath,
        line_at(c, match_start(m)),
        group_text(c, m, 0),
        rule_visibility(vis, m),
        async_flag(async_group, m),
        false,
    )
}

/// The declarations read from all matches.
pub open spec fn decls(
    c: Seq<char>,
    fid: Seq<char>,
    fpath: Seq<char>,
    ms: Seq<Seq<Option<(int, int)>>>,
    tag: Seq<char>,
    kind: SymbolKind,
    name_group: int,
    vis: VisRule,
    async_group: Option<usize>,
) -> Seq<SymbolView> {
    ms.map_values(
        |m: Seq<Option<(int, int)>>| decl_at(c, fid, fpath, m, tag, kind, name_group, vis, async_group),
    )
}

/// The line of the match `m`.
fn match_line(content: &str, m: &Vec<Option<Span>>) -> (r: usize)
    requires
        content@.len() < usize::MAX,
        m@.len() >= 1,
        m@[0] is Some,
        forall|j: int| 0 <= j < m@.len() ==> crate::matching::span_fits(content@, #[trigger] m@[j]),
    ensures
        r == line_at(content@, match_start(groups_pos(*m))),
        r < usize::MAX,
{
    let start = match_start_exec(m);
    assert(crate::matching::span_fits(content@, m@[0]));
    line_at_exec(content, start)
}

/// Appends the declarations read from the matches `ms`.
pub fn push_decls(
    content: &str,
    file_id: &str,
    file_path: &str,
    ms: &Vec<Vec<Option<Span>>>,
    tag: &str,
    kind: SymbolKind,
    name_group: usize,
    vis: VisRule,
    async_group: Option<usize>,
    out: &mut Vec<Symbol>,
)
    requires
        content@.len() < usize::MAX,
        matches_fit(content@, ms@),
    ensures
        symbol_views(final(out)@) == symbol_views(old(out)@) + decls(
            content@,
            file_id@,
            file_path@,
            matches_pos(ms@),
            tag@,
            kind,
            name_group as int,
            vis,
            async_group,
        ),
{
    let ghost start_views = symbol_views(out@);
    let ghost mp = matches_pos(ms@);
    let mut i: usize = 0;
    while i < ms.len()
        invariant
            i <= ms@.len(),
            mp == matches_pos(ms@),
            content@.len() < usize::MAX,
            matches_fit(content@, ms@),
            symbol_views(out@) == start_views + decls(
                content@,
                file_id@,
                file_path@,
                mp.take(i as int),
                tag@,
                kind,
                name_group as int,
                vis,
                async_group,
            ),
        decreases ms.len() - i,
    {
        let m = &ms[i];
        assert(m@.len() >= 1 && m@[0] is Some);
        let name = group_text_exec(content, m, name_group);
        let signature = group_text_exec(content, m, 0);
        let line = match_line(content, m);
        let visibility = rule_visibility_exec(vis, m);
        let is_async = match async_group {
            Some(g) => has_group_exec(m, g),
            None => false,
        };
        let id = concat3(file_id, tag, name.as_str());
        let sym = new_symbol(
            id,
            name,
            kind,
            file_id,
            file_path,
            line,
            signature,
            None,
            visibility,
            is_async,
            false,
            Vec::new(),
            None,
        );
        let ghost before = out@;
        out.push(sym);
        proof {
            assert(mp[i as int] == groups_pos(ms@[i as int]));
            assert(parameter_views(Seq::<Parameter>::empty()) =~= Seq::<ParameterView>::empty());
            assert(symbol_views(out@) =~= symbol_views(before).push(sym@));
            assert(mp.take(i + 1) =~= mp.take(i as int).push(mp[i as int]));
            assert(decls(
                content@,
                file_id@,
                file_path@,
                mp.take(i + 1),
                tag@,
                kind,
                name_group as int,
                vis,
                async_group,
            ) =~= decls(
                content@,
                file_id@,
                file_path@,
                mp.take(i as int),
                tag@,
                kind,
                name_group as int,
                vis,
                async_group,
            ).push(
                decl_at(
                    content@,
                    file_id@,
                    file_path@,
                    mp[i as int],
                    tag@,
                    kind,
                    name_group as int,
                    vis,
                    async_group,
                ),
            ));
        }
        i += 1;
    }
    assert(mp.take(ms@.len() as int) =~= mp);
}

/// An import read from the match `m`: its name is group `ga`, or group `gb`
/// when `ga` did not take part; its id is the file id, `tag` and its line.
pub open spec fn import_at(
    c: Seq<char>,
    fid: Seq<char>,
    fpath: Seq<char>,
    m: Seq<Option<(int, int)>>,
    tag: Seq<char>,
    ga: int,
    gb: int,
) -> SymbolView {
    let line = line_at(c, match_start(m));
    let name = if has_group(m, ga) {
        group_text(c, m, ga)
    } else {
        group_text(c, m, gb)
    };
    plain_symbol(
        fid + tag + decimal(line),
        name,
        SymbolKind::Import,
        fid,
        fpath,
        line,
        group_text(c, m, 0),
        Visibility::Private,
        false,
        false,
    )
}

/// The imports read from all matches.
pub open spec fn imports(
    c: Seq<char>,
    fid: Seq<char>,
    fpath: Seq<char>,
    ms: Seq<Seq<Option<(int, int)>>>,
    tag: Seq<char>,
    ga: int,
    gb: int,
) -> Seq<SymbolView> {
    ms.map_values(|m: Seq<Option<(int, int)>>| import_at(c, fid, fpath, m, tag, ga, gb))
}

/// Appends the imports read from the matches `ms`.
pub fn push_imports(
    content: &str,
    file_id: &str,
    file_path: &str,
    ms: &Vec<Vec<Option<Span>>>,
    tag: &str,
    ga: usize,
    gb: usize,
    out: &mut Vec<Symbol>,
)
    requires
        content@.len() < usize::MAX,
        matches_fit(content@, ms@),
    ensures
        symbol_views(final(out)@) == symbol_views(old(out)@) + imports(
            content@,
            file_id@,
            file_path@,
            matches_pos(ms@),
            tag@,
            ga as int,
            gb as int,
        ),
{
    let ghost start_views = symbol_views(out@);
    let ghost mp = matches_pos(ms@);
    let mut i: usize = 0;
    while i < ms.len()
        invariant
            i <= ms@.len(),
            mp == matches_pos(ms@),
            content@.len() < usize::MAX,
            matches_fit(content@, ms@),
            symbol_views(out@) == start_views + imports(
                content@,
                file_id@,
                file_path@,
                mp.take(i as int),
                tag@,
                ga as int,
                gb as int,
            ),
        decreases ms.len() - i,
    {
        let m = &ms[i];
        assert(m@.len() >= 1 && m@[0] is Some);
        let line = match_line(content, m);
        let name = if has_group_exec(m, ga) {
            group_text_exec(content, m, ga)
        } else {
            group_text_exec(content, m, gb)
        };
        let signature = group_text_exec(content, m, 0);
        let digits = decimal_exec(line as u64);
        let num = string_of(digits.as_slice());
        let id = concat3(file_id, tag, num.as_str());
        let sym = new_symbol(
            id,
            name,
            SymbolKind::Import,
            file_id,
            file_path,
            line,
            signature,
            None,
            Visibility::Private,
            false,
            false,
            Vec::new(),
            None,
        );
        let ghost before = out@;
        out.push(sym);
        proof {
            assert(mp[i as int] == groups_pos(ms@[i as int]));
            assert(parameter_views(Seq::<Parameter>::empty()) =~= Seq::<ParameterView>::empty());
            assert(symbol_views(out@) =~= symbol_views(before).push(sym@));
            assert(mp.take(i + 1) =~= mp.take(i as int).push(mp[i as int]));
            assert(imports(content@, file_id@, file_path@, mp.take(i + 1), tag@, ga as int, gb as int)
                =~= imports(
                content@,
                file_id@,
                file_path@,
                mp.take(i as int),
                tag@,
                ga as int,
                gb as int,
            ).push(import_at(content@, file_id@, file_path@, mp[i as int], tag@, ga as int, gb as int)));
        }
        i += 1;
    }
    assert(mp.take(ms@.len() as int) =~= mp);
}

// ---------------------------------------------------------------------------
// Rust
// ---------------------------------------------------------------------------

/// The signature that starts where `m` starts, up to one of `stops`, can be
/// cut out and its parameter list taken apart.
pub open spec fn sig_ok(c: Seq<char>, m: Seq<Option<(int, int)>>, stops: Seq<char>) -> bool {
    &&& signature_cut_ok(c, match_start(m), stops)
    &&& params_window_ok(signature_text(c, match_start(m), stops))
}

/// The signature of the Rust function matched by `m` can be cut out and parsed.
pub open spec fn rust_fn_ok(c: Seq<char>, m: Seq<Option<(int, int)>>) -> bool {
    sig_ok(c, m, rust_stops())
}

/// The Rust function matched by `m`.
pub open spec fn rust_fn_at(
    c: Seq<char>,
    fid: Seq<char>,
    fpath: Seq<char>,
    m: Seq<Option<(int, int)>>,
) -> SymbolView {
    let name = group_text(c, m, 4);
    let sig = signature_text(c, match_start(m), rust_stops());
    symbol_view_of(
        fid + "_fn_"@ + name,
        name,
        SymbolKind::Function,
        fid,
        fpath,
        line_at(c, match_start(m)),
        sig,
        None,
        rule_visibility(VisRule::IfGroup(1), m),
        has_group(m, 2),
        false,
        rust_params(split_char(params_text(sig), ',')),
        rust_return(sig),
    )
}

/// The Rust functions matched by `ms`.
pub open spec fn rust_fns(
    c: Seq<char>,
    fid: Seq<char>,
    fpath: Seq<char>,
    ms: Seq<Seq<Option<(int, int)>>>,
) -> Seq<SymbolView> {
    ms.map_values(|m: Seq<Option<(int, int)>>| rust_fn_at(c, fid, fpath, m))
}

/// Every Rust function matched by `ms` has a signature that can be parsed.
pub open spec fn rust_fns_ok(c: Seq<char>, ms: Seq<Seq<Option<(int, int)>>>) -> bool {
    forall|i: int| 0 <= i < ms.len() ==> rust_fn_ok(c, #[trigger] ms[i])
}

/// Appends the Rust functions matched by `ms`, with their parameters and
/// return types.
pub fn push_rust_fns(
    content: &str,
    file_id: &str,
    file_path: &str,
    ms: &Vec<Vec<Option<Span>>>,
    out: &mut Vec<Symbol>,
)
    requires
        content@.len() < usize::MAX,
        matches_fit(content@, ms@),
        rust_fns_ok(content@, matches_pos(ms@)),
    ensures
        symbol_views(final(out)@) == symbol_views(old(out)@) + rust_fns(
            content@,
            file_id@,
            file_path@,
            matches_pos(ms@),
        ),
{
    let ghost start_views = symbol_views(out@);
    let ghost mp = matches_pos(ms@);
    let mut i: usize = 0;
    while i < ms.len()
        invariant
            i <= ms@.len(),
            mp == matches_pos(ms@),
            content@.len() < usize::MAX,
            matches_fit(content@, ms@),
            rust_fns_ok(content@, mp),
            symbol_views(out@) == start_views + rust_fns(
                content@,
                file_id@,
                file_path@,
                mp.take(i as int),
            ),
        decreases ms.len() - i,
    {
        let m = &ms[i];
        assert(m@.len() >= 1 && m@[0] is Some);
        assert(mp[i as int] == groups_pos(ms@[i as int]));
        assert(rust_fn_ok(content@, mp[i as int]));
        let line = match_line(content, m);
        let name = group_text_exec(content, m, 4);
        let visibility = rule_visibility_exec(VisRule::IfGroup(1), m);
        let is_async = has_group_exec(m, 2);
        let start = match_start_exec(m);
        assert(crate::matching::span_fits(content@, m@[0]));
        let signature = extract_rust_fn_signature(content, start);
        let (params, return_type) = parse_rust_fn_params_return(signature.as_str());
        let id = concat3(file_id, "_fn_", name.as_str());
        let sym = new_symbol(
            id,
            name,
            SymbolKind::Function,
            file_id,
            file_path,
            line,
            signature,
            None,
            visibility,
            is_async,
            false,
            params,
            return_type,
        );
        let ghost before = out@;
        out.push(sym);
        proof {
            assert(symbol_views(out@) =~= symbol_views(before).push(sym@));
            assert(mp.take(i + 1) =~= mp.take(i as int).push(mp[i as int]));
            assert(rust_fns(content@, file_id@, file_path@, mp.take(i + 1)) =~= rust_fns(
                content@,
                file_id@,
                file_path@,
                mp.take(i as int),
            ).push(rust_fn_at(content@, file_id@, file_path@, mp[i as int])));
        }
        i += 1;
    }
    assert(mp.take(ms@.len() as int) =~= mp);
}

/// The id of the first struct or trait named `name` in `syms`.
pub open spec fn parent_of(syms: Seq<SymbolView>, name: Seq<char>) -> Option<Seq<char>>
    decreases syms.len(),
{
    if syms.len() == 0 {
        None
    } else if syms[0].name == name && (syms[0].kind == SymbolKind::Struct || syms[0].kind
        == SymbolKind::Trait) {
        Some(syms[0].id)
    } else {
        parent_of(syms.drop_first(), name)
    }
}

/// Finds the id of the first struct or trait named `name`.
fn find_parent(symbols: &Vec<Symbol>, name: &String) -> (r: Option<String>)
    ensures
        opt_text(r) == parent_of(symbol_views(symbols@), name@),
{
    let ghost views = symbol_views(symbols@);
    assert(views.skip(0) =~= views);
    let mut k: usize = 0;
    while k < symbols.len()
        invariant
            k <= symbols@.len(),
            views == symbol_views(symbols@),
            parent_of(views, name@) == parent_of(views.skip(k as int), name@),
        decreases symbols.len() - k,
    {
        let s = &symbols[k];
        proof {
            assert(views.skip(k as int)[0] == s@);
            assert(views.skip(k as int).drop_first() =~= views.skip(k + 1));
        }
        if s.name == *name && matches!(s.kind, SymbolKind::Struct | SymbolKind::Trait) {
            return Some(s.id.clone());
        }
        k += 1;
    }
    assert(views.skip(k as int).len() == 0);
    None
}

/// A method of the impl block of `impl_name`, matched by `m` in its body; the
/// line is that of the start of the body (not the line of the method itself).
pub open spec fn method_at(
    body: Seq<char>,
    fid: Seq<char>,
    fpath: Seq<char>,
    impl_name: Seq<char>,
    line: nat,
    syms: Seq<SymbolView>,
    m: Seq<Option<(int, int)>>,
) -> SymbolView {
    let name = group_text(body, m, 4);
    let sig = signature_text(body, match_start(m), rust_stops());
    symbol_view_of(
        fid + "_method_"@ + impl_name + "_"@ + name,
        name,
        SymbolKind::Method,
        fid,
        fpath,
        line,
        sig,
        parent_of(syms, impl_name),
        rule_visibility(VisRule::IfGroup(1), m),
        has_group(m, 2),
        name == "new"@,
        rust_params(split_char(params_text(sig), ',')),
        rust_return(sig),
    )
}

/// `syms` followed by the methods matched by `ms`, each looking for its
/// parent among the symbols before it.
pub open spec fn methods_fold(
    body: Seq<char>,
    fid: Seq<char>,
    fpath: Seq<char>,
    impl_name: Seq<char>,
    line: nat,
    syms: Seq<SymbolView>,
    ms: Seq<Seq<Option<(int, int)>>>,
) -> Seq<SymbolView>
    decreases ms.len(),
{
    if ms.len() == 0 {
        syms
    } else {
        let front = methods_fold(body, fid, fpath, impl_name, line, syms, ms.drop_last());
        front.push(method_at(body, fid, fpath, impl_name, line, front, ms.last()))
    }
}

/// The text after the impl header matched by `im`.
pub open spec fn impl_rest(c: Seq<char>, im: Seq<Option<(int, int)>>) -> Seq<char> {
    byte_suffix(c, match_end(im))
}

/// The body of the impl block matched by `im`: the text of its first brace block.
pub open spec fn impl_body(c: Seq<char>, im: Seq<Option<(int, int)>>) -> Option<Seq<char>> {
    match brace_block(impl_rest(c, im)) {
        Some(p) => Some(impl_rest(c, im).subrange(p.0, p.1)),
        None => None,
    }
}

/// The line on which the body of the impl block matched by `im` starts.
pub open spec fn impl_line(c: Seq<char>, im: Seq<Option<(int, int)>>) -> nat {
    match brace_block(impl_rest(c, im)) {
        Some(p) => lines(byte_prefix(c, match_end(im)) + impl_rest(c, im).take(p.0)).len(),
        None => 0,
    }
}

/// `syms` followed by the methods of the impl block matched by `im`.
pub open spec fn impl_methods_at(
    c: Seq<char>,
    fid: Seq<char>,
    fpath: Seq<char>,
    syms: Seq<SymbolView>,
    im: Seq<Option<(int, int)>>,
) -> Seq<SymbolView> {
    match impl_body(c, im) {
        Some(body) => match regex_captures(RUST_METHOD@, body) {
            Ok(ms) => methods_fold(body, fid, fpath, group_text(c, im, 2), impl_line(c, im), syms, ms),
            Err(_) => syms,
        },
        None => syms,
    }
}

/// `syms` followed by the methods of all impl blocks matched by `ims`.
pub open spec fn impls_fold(
    c: Seq<char>,
    fid: Seq<char>,
    fpath: Seq<char>,
    syms: Seq<SymbolView>,
    ims: Seq<Seq<Option<(int, int)>>>,
) -> Seq<SymbolView>
    decreases ims.len(),
{
    if ims.len() == 0 {
        syms
    } else {
        impl_methods_at(c, fid, fpath, impls_fold(c, fid, fpath, syms, ims.drop_last()), ims.last())
    }
}

/// The methods of the impl block matched by `im` have signatures that can be parsed.
pub open spec fn impl_ok(c: Seq<char>, im: Seq<Option<(int, int)>>) -> bool {
    match impl_body(c, im) {
        Some(body) => match regex_captures(RUST_METHOD@, body) {
            Ok(ms) => rust_fns_ok(body, ms),
            Err(_) => true,
        },
        None => true,
    }
}

/// Every impl block matched by `ims` is fine.
pub open spec fn impls_ok(c: Seq<char>, ims: Seq<Seq<Option<(int, int)>>>) -> bool {
    forall|i: int| 0 <= i < ims.len() ==> impl_ok(c, #[trigger] ims[i])
}

/// Appends the methods matched by `ms` in the body of the impl block of
/// `impl_name`.
fn push_methods(
    body: &str,
    file_id: &str,
    file_path: &str,
    impl_name: &String,
    line: usize,
    ms: &Vec<Vec<Option<Span>>>,
    symbols: &mut Vec<Symbol>,
)
    requires
        line < usize::MAX,
        matches_fit(body@, ms@),
        rust_fns_ok(body@, matches_pos(ms@)),
    ensures
        symbol_views(final(symbols)@) == methods_fold(
            body@,
            file_id@,
            file_path@,
            impl_name@,
            line as nat,
            symbol_views(old(symbols)@),
            matches_pos(ms@),
        ),
{
    let ghost start_views = symbol_views(symbols@);
    let ghost mp = matches_pos(ms@);
    let mut i: usize = 0;
    while i < ms.len()
        invariant
            i <= ms@.len(),
            mp == matches_pos(ms@),
            line < usize::MAX,
            matches_fit(body@, ms@),
            rust_fns_ok(body@, mp),
            symbol_views(symbols@) == methods_fold(
                body@,
                file_id@,
                file_path@,
                impl_name@,
                line as nat,
                start_views,
                mp.take(i as int),
            ),
        decreases ms.len() - i,
    {
        let m = &ms[i];
        assert(m@.len() >= 1 && m@[0] is Some);
        assert(mp[i as int] == groups_pos(ms@[i as int]));
        assert(rust_fn_ok(body@, mp[i as int]));
        let name = group_text_exec(body, m, 4);
        let visibility = rule_visibility_exec(VisRule::IfGroup(1), m);
        let is_async = has_group_exec(m, 2);
        let start = match_start_exec(m);
        assert(crate::matching::span_fits(body@, m@[0]));
        let signature = extract_rust_fn_signature(body, start);
        let (params, return_type) = parse_rust_fn_params_return(signature.as_str());
        let parent_id = find_parent(symbols, impl_name);
        let mut id = concat3(file_id, "_method_", impl_name.as_str());
        id.append("_");
        id.append(name.as_str());
        let name_chars = chars_of(name.as_str());
        let is_static = str_same(name_chars.as_slice(), "new");
        let sym = new_symbol(
            id,
            name,
            SymbolKind::Method,
            file_id,
            file_path,
            line,
            signature,
            parent_id,
            visibility,
            is_async,
            is_static,
            params,
            return_type,
        );
        let ghost before = symbols@;
        symbols.push(sym);
        proof {
            assert(symbol_views(symbols@) =~= symbol_views(before).push(sym@));
            assert(mp.take(i + 1).drop_last() =~= mp.take(i as int));
        }
        i += 1;
    }
    assert(mp.take(ms@.len() as int) =~= mp);
}

// ---------------------------------------------------------------------------
// Other shapes of symbols
// ---------------------------------------------------------------------------

/// Symbols whose shape the declaration and import forms above do not cover.
#[derive(Clone, Copy)]
pub enum Form {
    /// A Python class, with a signature `class Name(Parents)`.
    PythonClass,
    /// A Python function, with its signature and parameters.
    PythonFunction,
    /// A Go function, a method when it has a receiver.
    GoFunction,
    /// A Java method, with its return type.
    JavaMethod,
}

/// The Python function matched by `m` has a signature that can be parsed.
pub open spec fn py_fn_ok(c: Seq<char>, m: Seq<Option<(int, int)>>) -> bool {
    sig_ok(c, m, python_stops())
}

/// A Python `def` at byte offset `b` is a method when the text before it ends
/// in a newline and four spaces or a tab.
pub open spec fn py_is_method(c: Seq<char>, b: int) -> bool {
    finishes(byte_prefix(c, b), "\n    "@) || finishes(byte_prefix(c, b), "\n\t"@)
}

/// The symbol of the match `m` can be built.
pub open spec fn form_ok(c: Seq<char>, m: Seq<Option<(int, int)>>, form: Form) -> bool {
    match form {
        Form::PythonFunction => py_fn_ok(c, m),
        _ => true,
    }
}

/// Words that, in the place of a Java return type, show a false match.
pub open spec fn java_skips(rt: Seq<char>) -> bool {
    rt == "class"@ || rt == "interface"@ || rt == "enum"@
}

/// The match `m` gives a symbol.
pub open spec fn form_keeps(c: Seq<char>, m: Seq<Option<(int, int)>>, form: Form) -> bool {
    match form {
        Form::JavaMethod => !java_skips(group_text(c, m, 3)),
        _ => true,
    }
}

/// The visibility of a Java method, from its modifier.
pub open spec fn java_visibility(c: Seq<char>, m: Seq<Option<(int, int)>>) -> Visibility {
    if has_group(m, 1) {
        let t = group_text(c, m, 1);
        if t == "public"@ {
            Visibility::Public
        } else if t == "private"@ {
            Visibility::Private
        } else if t == "protected"@ {
            Visibility::Protected
        } else {
            Visibility::Internal
        }
    } else {
        Visibility::Internal
    }
}

/// The symbol of the match `m`.
pub open spec fn form_symbol(
    c: Seq<char>,
    fid: Seq<char>,
    fpath: Seq<char>,
    m: Seq<Option<(int, int)>>,
    form: Form,
) -> SymbolView {
    let line = line_at(c, match_start(m));
    match form {
        Form::PythonClass => {
            let name = group_text(c, m, 1);
            plain_symbol(
                fid + "_class_"@ + name,
                name,
                SymbolKind::Class,
                fid,
                fpath,
                line,
                "class "@ + name + "("@ + group_text(c, m, 2) + ")"@,
                Visibility::Public,
                false,
                false,
            )
        },
        Form::PythonFunction => {
            let name = group_text(c, m, 2);
            let sig = signature_text(c, match_start(m), python_stops());
            symbol_view_of(
                fid + "_fn_"@ + name,
                name,
                if py_is_method(c, match_start(m)) {
                    SymbolKind::Method
                } else {
                    SymbolKind::Function
                },
                fid,
                fpath,
                line,
                sig,
                None,
                Visibility::Public,
                has_group(m, 1),
                begins(name, "__"@) && finishes(name, "__"@),
                python_params(split_char(params_text(sig), ',')),
                None,
            )
        },
        Form::GoFunction => {
            let name = group_text(c, m, 1);
            plain_symbol(
                fid + "_fn_"@ + name,
                name,
                if begins(group_text(c, m, 0), "func ("@) {
                    SymbolKind::Method
                } else {
                    SymbolKind::Function
                },
                fid,
                fpath,
                line,
                group_text(c, m, 0),
                Visibility::Public,
                false,
                false,
            )
        },
        Form::JavaMethod => {
            let name = group_text(c, m, 4);
            symbol_view_of(
                fid + "_method_"@ + name,
                name,
                SymbolKind::Method,
                fid,
                fpath,
                line,
                group_text(c, m, 0),
                None,
                java_visibility(c, m),
                false,
                has_group(m, 2),
                Seq::empty(),
                Some(group_text(c, m, 3)),
            )
        },
    }
}

/// The symbols of the matches `ms` that give one.
pub open spec fn forms(
    c: Seq<char>,
    fid: Seq<char>,
    fpath: Seq<char>,
    ms: Seq<Seq<Option<(int, int)>>>,
    form: Form,
) -> Seq<SymbolView>
    decreases ms.len(),
{
    if ms.len() == 0 {
        Seq::empty()
    } else {
        let front = forms(c, fid, fpath, ms.drop_last(), form);
        if form_keeps(c, ms.last(), form) {
            front.push(form_symbol(c, fid, fpath, ms.last(), form))
        } else {
            front
        }
    }
}

/// Every symbol of the matches `ms` can be built.
pub open spec fn forms_ok(c: Seq<char>, ms: Seq<Seq<Option<(int, int)>>>, form: Form) -> bool {
    forall|i: int| 0 <= i < ms.len() ==> form_ok(c, #[trigger] ms[i], form)
}

/// Builds the symbol of the match `m`, or nothing where the form skips it.
fn form_symbol_exec(
    content: &str,
    file_id: &str,
    file_path: &str,
    m: &Vec<Option<Span>>,
    form: Form,
) -> (r: Option<Symbol>)
    requires
        content@.len() < usize::MAX,
        m@.len() >= 1,
        m@[0] is Some,
        forall|j: int| 0 <= j < m@.len() ==> crate::matching::span_fits(content@, #[trigger] m@[j]),
        form_ok(content@, groups_pos(*m), form),
    ensures
        match r {
            Some(sym) => form_keeps(content@, groups_pos(*m), form) && sym@ == form_symbol(
                content@,
                file_id@,
                file_path@,
                groups_pos(*m),
                form,
            ),
            None => !form_keeps(content@, groups_pos(*m), form),
        },
{
    let line = match_line(content, m);
    proof {
        assert(parameter_views(Seq::<Parameter>::empty()) =~= Seq::<ParameterView>::empty());
    }
    match form {
        Form::PythonClass => {
            let name = group_text_exec(content, m, 1);
            let parents = group_text_exec(content, m, 2);
            let mut signature = concat3("class ", name.as_str(), "(");
            signature.append(parents.as_str());
            signature.append(")");
            let id = concat3(file_id, "_class_", name.as_str());
            Some(
                new_symbol(
                    id,
                    name,
                    SymbolKind::Class,
                    file_id,
                    file_path,
                    line,
                    signature,
                    None,
                    Visibility::Public,
                    false,
                    false,
                    Vec::new(),
                    None,
                ),
            )
        },
        Form::PythonFunction => {
            let name = group_text_exec(content, m, 2);
            let is_async = has_group_exec(m, 1);
            let start = match_start_exec(m);
            assert(crate::matching::span_fits(content@, m@[0]));
            let signature = extract_python_fn_signature(content, start);
            let params = parse_python_fn_params(signature.as_str());
            let (pre, _rest) = split_at_byte(content, start);
            let pc = chars_of(pre);
            let is_method = str_finishes(pc.as_slice(), "\n    ") || str_finishes(
                pc.as_slice(),
                "\n\t",
            );
            let nc = chars_of(name.as_str());
            let is_static = str_begins(nc.as_slice(), "__") && str_finishes(nc.as_slice(), "__");
            let id = concat3(file_id, "_fn_", name.as_str());
            let kind = if is_method {
                SymbolKind::Method
            } else {
                SymbolKind::Function
            };
            Some(
                new_symbol(
                    id,
                    name,
                    kind,
                    file_id,
                    file_path,
                    line,
                    signature,
                    None,
                    Visibility::Public,
                    is_async,
                    is_static,
                    params,
                    None,
                ),
            )
        },
        Form::GoFunction => {
            let name = group_text_exec(content, m, 1);
            let whole = group_text_exec(content, m, 0);
            let wc = chars_of(whole.as_str());
            let kind = if str_begins(wc.as_slice(), "func (") {
                SymbolKind::Method
            } else {
                SymbolKind::Function
            };
            let id = concat3(file_id, "_fn_", name.as_str());
            Some(
                new_symbol(
                    id,
                    name,
                    kind,
                    file_id,
                    file_path,
                    line,
                    whole,
                    None,
                    Visibility::Public,
                    false,
                    false,
                    Vec::new(),
                    None,
                ),
            )
        },
        Form::JavaMethod => {
            let rt = group_text_exec(content, m, 3);
            let rc = chars_of(rt.as_str());
            if str_same(rc.as_slice(), "class") || str_same(rc.as_slice(), "interface") || str_same(
                rc.as_slice(),
                "enum",
            ) {
                return None;
            }
            let visibility = if has_group_exec(m, 1) {
                let t = group_text_exec(content, m, 1);
                let tc = chars_of(t.as_str());
                if str_same(tc.as_slice(), "public") {
                    Visibility::Public
                } else if str_same(tc.as_slice(), "private") {
                    Visibility::Private
                } else if str_same(tc.as_slice(), "protected") {
                    Visibility::Protected
                } else {
                    Visibility::Internal
                }
            } else {
                Visibility::Internal
            };
            let is_static = has_group_exec(m, 2);
            let name = group_text_exec(content, m, 4);
            let signature = group_text_exec(content, m, 0);
            let id = concat3(file_id, "_method_", name.as_str());
            Some(
                new_symbol(
                    id,
                    name,
                    SymbolKind::Method,
                    file_id,
                    file_path,
                    line,
                    signature,
                    None,
                    visibility,
                    false,
                    is_static,
                    Vec::new(),
                    Some(rt),
                ),
            )
        },
    }
}

/// Appends the symbols of the matches `ms` that give one.
pub fn push_forms(
    content: &str,
    file_id: &str,
    file_path: &str,
    ms: &Vec<Vec<Option<Span>>>,
    form: Form,
    out: &mut Vec<Symbol>,
)
    requires
        content@.len() < usize::MAX,
        matches_fit(content@, ms@),
        forms_ok(content@, matches_pos(ms@), form),
    ensures
        symbol_views(final(out)@) == symbol_views(old(out)@) + forms(
            content@,
            file_id@,
            file_path@,
            matches_pos(ms@),
            form,
        ),
{
    let ghost start_views = symbol_views(out@);
    let ghost mp = matches_pos(ms@);
    let mut i: usize = 0;
    while i < ms.len()
        invariant
            i <= ms@.len(),
            mp == matches_pos(ms@),
            content@.len() < usize::MAX,
            matches_fit(content@, ms@),
            forms_ok(content@, mp, form),
            symbol_views(out@) == start_views + forms(
                content@,
                file_id@,
                file_path@,
                mp.take(i as int),
                form,
            ),
        decreases ms.len() - i,
    {
        let m = &ms[i];
        assert(m@.len() >= 1 && m@[0] is Some);
        assert(mp[i as int] == groups_pos(ms@[i as int]));
        assert(form_ok(content@, mp[i as int], form));
        let ghost before = out@;
        match form_symbol_exec(content, file_id, file_path, m, form) {
            Some(sym) => {
                out.push(sym);
                assert(symbol_views(out@) =~= symbol_views(before).push(sym@));
            },
            None => {},
        }
        proof {
            assert(mp.take(i + 1).drop_last() =~= mp.take(i as int));
        }
        i += 1;
    }
    assert(mp.take(ms@.len() as int) =~= mp);
}

/// What an extraction reports: the symbols, or the message of the error of
/// the first pattern that was refused.
pub open spec fn symbols_result(r: Result<Vec<Symbol>, String>) -> Result<Seq<SymbolView>, Seq<char>> {
    match r {
        Ok(v) => Ok(symbol_views(v@)),
        Err(e) => Err(e@),
    }
}

/// Rust extraction never cuts a signature in the middle of a character and
/// never meets an unparsable parameter list, and line numbers fit.
pub open spec fn rust_ready(c: Seq<char>) -> bool {
    &&& c.len() < usize::MAX
    &&& (regex_captures(RUST_FN@, c) matches Ok(ms) ==> rust_fns_ok(c, ms))
    &&& (regex_captures(RUST_IMPL@, c) matches Ok(ims) ==> impls_ok(c, ims))
}

/// The symbols of a Rust file: structs, enums, traits, functions, the methods
/// of impl blocks, then `use` imports.
pub open spec fn rust_symbols(c: Seq<char>, fid: Seq<char>, fpath: Seq<char>) -> Result<
    Seq<SymbolView>,
    Seq<char>,
> {
    match regex_captures(RUST_STRUCT@, c) {
        Err(e) => Err(e),
        Ok(structs) => match regex_captures(RUST_ENUM@, c) {
            Err(e) => Err(e),
            Ok(enums) => match regex_captures(RUST_TRAIT@, c) {
                Err(e) => Err(e),
                Ok(traits) => match regex_captures(RUST_FN@, c) {
                    Err(e) => Err(e),
                    Ok(fns) => match regex_captures(RUST_IMPL@, c) {
                        Err(e) => Err(e),
                        Ok(ims) => match regex_captures(RUST_USE@, c) {
                            Err(e) => Err(e),
                            Ok(uses) => {
                                let vis = VisRule::IfGroup(1);
                                let items = decls(
                                    c,
                                    fid,
                                    fpath,
                                    structs,
                                    "_struct_"@,
                                    SymbolKind::Struct,
                                    2,
                                    vis,
                                    None,
                                ) + decls(c, fid, fpath, enums, "_enum_"@, SymbolKind::Enum, 2, vis, None)
                                    + decls(
                                    c,
                                    fid,
                                    fpath,
                                    traits,
                                    "_trait_"@,
                                    SymbolKind::Trait,
                                    2,
                                    vis,
                                    None,
                                ) + rust_fns(c, fid, fpath, fns);
                                Ok(
                                    impls_fold(c, fid, fpath, items, ims) + imports(
                                        c,
                                        fid,
                                        fpath,
                                        uses,
                                        "_use_"@,
                                        1,
                                        1,
                                    ),
                                )
                            },
                        },
                    },
                },
            },
        },
    }
}

/// Python extraction never cuts a signature in the middle of a character and
/// never meets an unparsable parameter list, and line numbers fit.
pub open spec fn python_ready(c: Seq<char>) -> bool {
    &&& c.len() < usize::MAX
    &&& (regex_captures(PY_FN@, c) matches Ok(ms) ==> forms_ok(c, ms, Form::PythonFunction))
}

/// The symbols of a Python file: classes, functions, then imports.
pub open spec fn python_symbols(c: Seq<char>, fid: Seq<char>, fpath: Seq<char>) -> Result<
    Seq<SymbolView>,
    Seq<char>,
> {
    match regex_captures(PY_CLASS@, c) {
        Err(e) => Err(e),
        Ok(classes) => match regex_captures(PY_FN@, c) {
            Err(e) => Err(e),
            Ok(fns) => match regex_captures(PY_IMPORT@, c) {
                Err(e) => Err(e),
                Ok(ims) => Ok(
                    forms(c, fid, fpath, classes, Form::PythonClass) + forms(
                        c,
                        fid,
                        fpath,
                        fns,
                        Form::PythonFunction,
                    ) + imports(c, fid, fpath, ims, "_import_"@, 1, 2),
                ),
            },
        },
    }
}

/// The symbols of a JavaScript file: classes, functions, arrow functions bound
/// to names, then imports.
pub open spec fn javascript_symbols(c: Seq<char>, fid: Seq<char>, fpath: Seq<char>) -> Result<
    Seq<SymbolView>,
    Seq<char>,
> {
    match regex_captures(JS_CLASS@, c) {
        Err(e) => Err(e),
        Ok(classes) => match regex_captures(JS_FN@, c) {
            Err(e) => Err(e),
            Ok(fns) => match regex_captures(JS_ARROW@, c) {
                Err(e) => Err(e),
                Ok(arrows) => match regex_captures(JS_IMPORT@, c) {
                    Err(e) => Err(e),
                    Ok(ims) => Ok(
                        decls(
                            c,
                            fid,
                            fpath,
                            classes,
                            "_class_"@,
                            SymbolKind::Class,
                            3,
                            VisRule::IfEither(1, 2),
                            None,
                        ) + decls(
                            c,
                            fid,
                            fpath,
                            fns,
                            "_fn_"@,
                            SymbolKind::Function,
                            3,
                            VisRule::IfGroup(1),
                            Some(2),
                        ) + decls(
                            c,
                            fid,
                            fpath,
                            arrows,
                            "_arrow_"@,
                            SymbolKind::Function,
                            3,
                            VisRule::IfGroup(1),
                            Some(4),
                        ) + imports(c, fid, fpath, ims, "_import_"@, 1, 1),
                    ),
                },
            },
        },
    }
}

/// The symbols of a TypeScript file: those of JavaScript, then interfaces and
/// type aliases.
pub open spec fn typescript_symbols(c: Seq<char>, fid: Seq<char>, fpath: Seq<char>) -> Result<
    Seq<SymbolView>,
    Seq<char>,
> {
    match javascript_symbols(c, fid, fpath) {
        Err(e) => Err(e),
        Ok(js) => match regex_captures(TS_INTERFACE@, c) {
            Err(e) => Err(e),
            Ok(ifaces) => match regex_captures(TS_TYPE@, c) {
                Err(e) => Err(e),
                Ok(types) => Ok(
                    js + decls(
                        c,
                        fid,
                        fpath,
                        ifaces,
                        "_interface_"@,
                        SymbolKind::Interface,
                        2,
                        VisRule::IfGroup(1),
                        None,
                    ) + decls(
                        c,
                        fid,
                        fpath,
                        types,
                        "_type_"@,
                        SymbolKind::TypeAlias,
                        2,
                        VisRule::IfGroup(1),
                        None,
                    ),
                ),
            },
        },
    }
}

/// The symbols of a Go file: structs, interfaces, then functions and methods.
pub open spec fn go_symbols(c: Seq<char>, fid: Seq<char>, fpath: Seq<char>) -> Result<
    Seq<SymbolView>,
    Seq<char>,
> {
    let public = VisRule::Always(Visibility::Public);
    match regex_captures(GO_STRUCT@, c) {
        Err(e) => Err(e),
        Ok(structs) => match regex_captures(GO_INTERFACE@, c) {
            Err(e) => Err(e),
            Ok(ifaces) => match regex_captures(GO_FN@, c) {
                Err(e) => Err(e),
                Ok(fns) => Ok(
                    decls(c, fid, fpath, structs, "_struct_"@, SymbolKind::Struct, 1, public, None)
                        + decls(
                        c,
                        fid,
                        fpath,
                        ifaces,
                        "_interface_"@,
                        SymbolKind::Interface,
                        1,
                        public,
                        None,
                    ) + forms(c, fid, fpath, fns, Form::GoFunction),
                ),
            },
        },
    }
}

/// The symbols of a Java file: classes, interfaces, then methods.
pub open spec fn java_symbols(c: Seq<char>, fid: Seq<char>, fpath: Seq<char>) -> Result<
    Seq<SymbolView>,
    Seq<char>,
> {
    match regex_captures(JAVA_CLASS@, c) {
        Err(e) => Err(e),
        Ok(classes) => match regex_captures(JAVA_INTERFACE@, c) {
            Err(e) => Err(e),
            Ok(ifaces) => match regex_captures(JAVA_METHOD@, c) {
                Err(e) => Err(e),
                Ok(methods) => Ok(
                    decls(
                        c,
                        fid,
                        fpath,
                        classes,
                        "_class_"@,
                        SymbolKind::Class,
                        3,
                        VisRule::IfGroupElseInternal(1),
                        None,
                    ) + decls(
                        c,
                        fid,
                        fpath,
                        ifaces,
                        "_interface_"@,
                        SymbolKind::Interface,
                        2,
                        VisRule::IfGroupElseInternal(1),
                        None,
                    ) + forms(c, fid, fpath, methods, Form::JavaMethod),
                ),
            },
        },
    }
}

/// The symbols of a file in another language: whatever follows `function`,
/// `def`, `func` or `fn`.
pub open spec fn generic_symbols(c: Seq<char>, fid: Seq<char>, fpath: Seq<char>) -> Result<
    Seq<SymbolView>,
    Seq<char>,
> {
    match regex_captures(ANY_FN@, c) {
        Err(e) => Err(e),
        Ok(fns) => Ok(
            decls(
                c,
                fid,
                fpath,
                fns,
                "_fn_"@,
                SymbolKind::Function,
                2,
                VisRule::Always(Visibility::Public),
                None,
            ),
        ),
    }
}

/// Every match of `ms` starts a signature, up to one of `stops`, that can be
/// cut out and taken apart.
pub open spec fn sigs_ok(c: Seq<char>, ms: Seq<Seq<Option<(int, int)>>>, stops: Seq<char>) -> bool {
    forall|i: int| 0 <= i < ms.len() ==> sig_ok(c, #[trigger] ms[i], stops)
}

/// Whether every match of `ms` starts a signature that can be taken apart.
fn sigs_ok_exec(content: &str, ms: &Vec<Vec<Option<Span>>>, stops: &[char]) -> (r: bool)
    requires
        matches_fit(content@, ms@),
    ensures
        r == sigs_ok(content@, matches_pos(ms@), stops@),
{
    let ghost mp = matches_pos(ms@);
    let mut i: usize = 0;
    while i < ms.len()
        invariant
            i <= ms@.len(),
            mp == matches_pos(ms@),
            matches_fit(content@, ms@),
            forall|k: int| 0 <= k < i ==> sig_ok(content@, #[trigger] mp[k], stops@),
        decreases ms.len() - i,
    {
        let m = &ms[i];
        assert(m@.len() >= 1 && m@[0] is Some);
        assert(mp[i as int] == groups_pos(ms@[i as int]));
        let start = match_start_exec(m);
        assert(crate::matching::span_fits(content@, m@[0]));
        if !signature_cut_ok_exec(content, start, stops) {
            assert(!sig_ok(content@, mp[i as int], stops@));
            return false;
        }
        let sig = crate::symbol::signature::cut_signature(content, start, stops);
        if !params_window_ok_exec(sig.as_str()) {
            assert(!sig_ok(content@, mp[i as int], stops@));
            return false;
        }
        i += 1;
    }
    true
}

/// Whether the methods of every impl block matched by `impls` have
/// signatures that can be taken apart.
fn impls_ok_exec(content: &str, impls: &Vec<Vec<Option<Span>>>) -> (r: bool)
    requires
        matches_fit(content@, impls@),
    ensures
        r == impls_ok(content@, matches_pos(impls@)),
{
    let cs = chars_of(content);
    let ghost mp = matches_pos(impls@);
    let stops = vec!['{', ';'];
    assert(stops@ =~= rust_stops());
    let mut i: usize = 0;
    while i < impls.len()
        invariant
            i <= impls@.len(),
            mp == matches_pos(impls@),
            cs@ == content@,
            stops@ == rust_stops(),
            matches_fit(content@, impls@),
            forall|k: int| 0 <= k < i ==> impl_ok(content@, #[trigger] mp[k]),
        decreases impls.len() - i,
    {
        let im = &impls[i];
        assert(im@.len() >= 1 && im@[0] is Some);
        assert(mp[i as int] == groups_pos(impls@[i as int]));
        let impl_end = match_end_exec(im);
        assert(crate::matching::span_fits(content@, im@[0]));
        let (pre, rest) = split_at_byte(content, impl_end);
        let pre_chars = chars_of(pre);
        let p = pre_chars.len();
        assert(cs@.skip(p as int) =~= rest@);
        match find_brace_block(cs.as_slice(), p) {
            None => {},
            Some((a, b)) => {
                let body_chars = slice_copy(cs.as_slice(), a, b);
                assert(body_chars@ =~= rest@.subrange(a - p, b - p));
                let body = string_of(body_chars.as_slice());
                match captures_all(RUST_METHOD, body.as_str()) {
                    Err(_) => {},
                    Ok(ms) => {
                        if !sigs_ok_exec(body.as_str(), &ms, stops.as_slice()) {
                            assert(!impl_ok(content@, mp[i as int]));
                            return false;
                        }
                    },
                }
            },
        }
        assert(impl_ok(content@, mp[i as int]));
        i += 1;
    }
    true
}

/// Whether the text has fewer characters than the largest `usize`.
fn fits_lines(content: &str) -> (r: bool)
    ensures
        r == (content@.len() < usize::MAX),
{
    let cs = chars_of(content);
    cs.len() < usize::MAX
}

/// Whether Rust extraction can run on `content` without failing.
pub fn rust_ready_exec(content: &str) -> (r: bool)
    ensures
        r == rust_ready(content@),
{
    if !fits_lines(content) {
        return false;
    }
    let stops = vec!['{', ';'];
    assert(stops@ =~= rust_stops());
    match captures_all(RUST_FN, content) {
        Ok(ms) => {
            if !sigs_ok_exec(content, &ms, stops.as_slice()) {
                return false;
            }
        },
        Err(_) => {},
    }
    match captures_all(RUST_IMPL, content) {
        Ok(ims) => impls_ok_exec(content, &ims),
        Err(_) => true,
    }
}

/// Whether Python extraction can run on `content` without failing.
pub fn python_ready_exec(content: &str) -> (r: bool)
    ensures
        r == python_ready(content@),
{
    if !fits_lines(content) {
        return false;
    }
    let stops = vec![':'];
    assert(stops@ =~= python_stops());
    match captures_all(PY_FN, content) {
        Ok(ms) => {
            let ok = sigs_ok_exec(content, &ms, stops.as_slice());
            assert(ok == forms_ok(content@, matches_pos(ms@), Form::PythonFunction));
            ok
        },
        Err(_) => true,
    }
}

/// A path with every `/` turned into `_`.
pub open spec fn slash_free(p: Seq<char>) -> Seq<char> {
    p.map_values(|c: char| if c == '/' { '_' } else { c })
}

/// The id of the file at `path`.
pub open spec fn file_id_of(path: Seq<char>) -> Seq<char> {
    "file_"@ + slash_free(path)
}

/// The extension of `path`, or the empty text.
pub open spec fn ext_text(path: Seq<char>) -> Seq<char> {
    match extension(path) {
        Some(e) => e,
        None => Seq::empty(),
    }
}

/// The symbols of the file at `path` with text `c`, by its lowercased extension.
pub open spec fn file_symbols(path: Seq<char>, c: Seq<char>) -> Result<Seq<SymbolView>, Seq<char>> {
    let ext = lowercase(ext_text(path));
    let fid = file_id_of(path);
    if ext == "rs"@ {
        rust_symbols(c, fid, path)
    } else if ext == "py"@ {
        python_symbols(c, fid, path)
    } else if ext == "js"@ || ext == "mjs"@ {
        javascript_symbols(c, fid, path)
    } else if ext == "ts"@ || ext == "tsx"@ {
        typescript_symbols(c, fid, path)
    } else if ext == "go"@ {
        go_symbols(c, fid, path)
    } else if ext == "java"@ {
        java_symbols(c, fid, path)
    } else {
        generic_symbols(c, fid, path)
    }
}

/// The extraction of the file at `path` with text `c` runs without failing.
pub open spec fn file_ready(path: Seq<char>, c: Seq<char>) -> bool {
    let ext = lowercase(ext_text(path));
    &&& c.len() < usize::MAX
    &&& (ext == "rs"@ ==> rust_ready(c))
    &&& (ext == "py"@ ==> python_ready(c))
}

/// `path` with every `/` turned into `_`.
fn slash_free_exec(path: &str) -> (r: String)
    ensures
        r@ == slash_free(path@),
{
    let cs = chars_of(path);
    let mut out: Vec<char> = Vec::new();
    let mut i: usize = 0;
    while i < cs.len()
        invariant
            i <= cs@.len(),
            cs@ == path@,
            out@ == slash_free(cs@.take(i as int)),
        decreases cs.len() - i,
    {
        let c = cs[i];
        out.push(if c == '/' { '_' } else { c });
        assert(cs@.take(i + 1) =~= cs@.take(i as int).push(c));
        assert(out@ =~= slash_free(cs@.take(i + 1)));
        i += 1;
    }
    assert(cs@.take(cs@.len() as int) =~= cs@);
    string_of(out.as_slice())
}

/// The lowercased extension of `path`.
fn lower_ext(path: &str) -> (r: Vec<char>)
    ensures
        r@ == lowercase(ext_text(path@)),
{
    let pc = chars_of(path);
    let ext = match extension_exec(pc.as_slice()) {
        Some(e) => string_of(e.as_slice()),
        None => String::new(),
    };
    let lower = to_lowercase_string(ext.as_str());
    chars_of(lower.as_str())
}

// ---------------------------------------------------------------------------
// Laws of extraction
// ---------------------------------------------------------------------------

/// Every symbol of `ss` belongs to the file `fid` at `fpath` and spans one line.
pub open spec fn all_in_file(ss: Seq<SymbolView>, fid: Seq<char>, fpath: Seq<char>) -> bool {
    forall|i: int|
        0 <= i < ss.len() ==> (#[trigger] ss[i]).file_id == fid && ss[i].file_path == fpath
            && ss[i].end_line == ss[i].start_line + 1
}

proof fn lemma_concat_in_file(a: Seq<SymbolView>, b: Seq<SymbolView>, fid: Seq<char>, fpath: Seq<char>)
    requires
        all_in_file(a, fid, fpath),
        all_in_file(b, fid, fpath),
    ensures
        all_in_file(a + b, fid, fpath),
{
    assert forall|i: int| 0 <= i < (a + b).len() implies (#[trigger] (a + b)[i]).file_id == fid
        && (a + b)[i].file_path == fpath && (a + b)[i].end_line == (a + b)[i].start_line + 1 by {
        if i < a.len() {
            assert((a + b)[i] == a[i]);
        } else {
            assert((a + b)[i] == b[i - a.len()]);
        }
    }
}

proof fn lemma_forms_in_file(
    c: Seq<char>,
    fid: Seq<char>,
    fpath: Seq<char>,
    ms: Seq<Seq<Option<(int, int)>>>,
    form: Form,
)
    ensures
        all_in_file(forms(c, fid, fpath, ms, form), fid, fpath),
    decreases ms.len(),
{
    if ms.len() > 0 {
        lemma_forms_in_file(c, fid, fpath, ms.drop_last(), form);
    }
}

proof fn lemma_methods_in_file(
    body: Seq<char>,
    fid: Seq<char>,
    fpath: Seq<char>,
    name: Seq<char>,
    line: nat,
    syms: Seq<SymbolView>,
    ms: Seq<Seq<Option<(int, int)>>>,
)
    requires
        all_in_file(syms, fid, fpath),
    ensures
        all_in_file(methods_fold(body, fid, fpath, name, line, syms, ms), fid, fpath),
    decreases ms.len(),
{
    if ms.len() > 0 {
        lemma_methods_in_file(body, fid, fpath, name, line, syms, ms.drop_last());
    }
}

proof fn lemma_impls_in_file(
    c: Seq<char>,
    fid: Seq<char>,
    fpath: Seq<char>,
    syms: Seq<SymbolView>,
    ims: Seq<Seq<Option<(int, int)>>>,
)
    requires
        all_in_file(syms, fid, fpath),
    ensures
        all_in_file(impls_fold(c, fid, fpath, syms, ims), fid, fpath),
    decreases ims.len(),
{
    if ims.len() > 0 {
        lemma_impls_in_file(c, fid, fpath, syms, ims.drop_last());
        let front = impls_fold(c, fid, fpath, syms, ims.drop_last());
        let im = ims.last();
        match impl_body(c, im) {
            Some(body) => match regex_captures(RUST_METHOD@, body) {
                Ok(ms) => lemma_methods_in_file(
                    body,
                    fid,
                    fpath,
                    group_text(c, im, 2),
                    impl_line(c, im),
                    front,
                    ms,
                ),
                Err(_) => {},
            },
            None => {},
        }
    }
}

/// Every symbol that names a parent comes after a struct or trait with that id.
pub open spec fn parents_before(ss: Seq<SymbolView>) -> bool {
    forall|i: int|
        0 <= i < ss.len() && (#[trigger] ss[i]).parent_id is Some ==> exists|j: int|
            0 <= j < i && ss[j].id == ss[i].parent_id->0 && (ss[j].kind == SymbolKind::Struct || ss[j].kind
                == SymbolKind::Trait)
}

/// No symbol of the list names a parent.
pub open spec fn no_parents(ss: Seq<SymbolView>) -> bool {
    forall|i: int| 0 <= i < ss.len() ==> (#[trigger] ss[i]).parent_id is None
}

proof fn lemma_parent_found(syms: Seq<SymbolView>, name: Seq<char>)
    ensures
        parent_of(syms, name) matches Some(p) ==> exists|j: int|
            0 <= j < syms.len() && syms[j].id == p && (syms[j].kind == SymbolKind::Struct || syms[j].kind
                == SymbolKind::Trait),
    decreases syms.len(),
{
    if syms.len() > 0 && !(syms[0].name == name && (syms[0].kind == SymbolKind::Struct || syms[0].kind
        == SymbolKind::Trait)) {
        lemma_parent_found(syms.drop_first(), name);
        if let Some(p) = parent_of(syms, name) {
            let j = choose|j: int|
                0 <= j < syms.drop_first().len() && syms.drop_first()[j].id == p && (syms.drop_first()[j].kind
                    == SymbolKind::Struct || syms.drop_first()[j].kind == SymbolKind::Trait);
            assert(syms[j + 1] == syms.drop_first()[j]);
        }
    }
}

proof fn lemma_push_parents(front: Seq<SymbolView>, x: SymbolView)
    requires
        parents_before(front),
        x.parent_id matches Some(p) ==> exists|j: int|
            0 <= j < front.len() && front[j].id == p && (front[j].kind == SymbolKind::Struct || front[j].kind
                == SymbolKind::Trait),
    ensures
        parents_before(front.push(x)),
{
    let s = front.push(x);
    assert forall|i: int| 0 <= i < s.len() && (#[trigger] s[i]).parent_id is Some implies exists|j: int|
        0 <= j < i && s[j].id == s[i].parent_id->0 && (s[j].kind == SymbolKind::Struct || s[j].kind
            == SymbolKind::Trait) by {
        if i < front.len() {
            assert(s[i] == front[i]);
            let j = choose|j: int|
                0 <= j < i && front[j].id == front[i].parent_id->0 && (front[j].kind == SymbolKind::Struct
                    || front[j].kind == SymbolKind::Trait);
            assert(s[j] == front[j]);
        } else {
            let j = choose|j: int|
                0 <= j < front.len() && front[j].id == x.parent_id->0 && (front[j].kind == SymbolKind::Struct
                    || front[j].kind == SymbolKind::Trait);
            assert(s[j] == front[j]);
        }
    }
}

proof fn lemma_methods_parents(
    body: Seq<char>,
    fid: Seq<char>,
    fpath: Seq<char>,
    name: Seq<char>,
    line: nat,
    syms: Seq<SymbolView>,
    ms: Seq<Seq<Option<(int, int)>>>,
)
    requires
        parents_before(syms),
    ensures
        parents_before(methods_fold(body, fid, fpath, name, line, syms, ms)),
    decreases ms.len(),
{
    if ms.len() > 0 {
        lemma_methods_parents(body, fid, fpath, name, line, syms, ms.drop_last());
        let front = methods_fold(body, fid, fpath, name, line, syms, ms.drop_last());
        lemma_parent_found(front, name);
        lemma_push_parents(front, method_at(body, fid, fpath, name, line, front, ms.last()));
    }
}

proof fn lemma_impls_parents(
    c: Seq<char>,
    fid: Seq<char>,
    fpath: Seq<char>,
    syms: Seq<SymbolView>,
    ims: Seq<Seq<Option<(int, int)>>>,
)
    requires
        parents_before(syms),
    ensures
        parents_before(impls_fold(c, fid, fpath, syms, ims)),
    decreases ims.len(),
{
    if ims.len() > 0 {
        lemma_impls_parents(c, fid, fpath, syms, ims.drop_last());
        let front = impls_fold(c, fid, fpath, syms, ims.drop_last());
        let im = ims.last();
        match impl_body(c, im) {
            Some(body) => match regex_captures(RUST_METHOD@, body) {
                Ok(ms) => lemma_methods_parents(body, fid, fpath, group_text(c, im, 2), impl_line(c, im), front, ms),
                Err(_) => {},
            },
            None => {},
        }
    }
}

proof fn lemma_concat_parents(a: Seq<SymbolView>, b: Seq<SymbolView>)
    requires
        parents_before(a),
        no_parents(b),
    ensures
        parents_before(a + b),
{
    assert forall|i: int| 0 <= i < (a + b).len() && (#[trigger] (a + b)[i]).parent_id is Some implies exists|j: int|
        0 <= j < i && (a + b)[j].id == (a + b)[i].parent_id->0 && ((a + b)[j].kind == SymbolKind::Struct || (a
            + b)[j].kind == SymbolKind::Trait) by {
        if i < a.len() {
            assert((a + b)[i] == a[i]);
            let j = choose|j: int|
                0 <= j < i && a[j].id == a[i].parent_id->0 && (a[j].kind == SymbolKind::Struct || a[j].kind
                    == SymbolKind::Trait);
            assert((a + b)[j] == a[j]);
        } else {
            assert((a + b)[i] == b[i - a.len()]);
        }
    }
}

proof fn lemma_rust_methods_follow_owners(c: Seq<char>, fid: Seq<char>, fpath: Seq<char>)
    ensures
        rust_symbols(c, fid, fpath) matches Ok(ss) ==> parents_before(ss),
{
    if let Ok(ss) = rust_symbols(c, fid, fpath) {
        let structs = regex_captures(RUST_STRUCT@, c)->Ok_0;
        let enums = regex_captures(RUST_ENUM@, c)->Ok_0;
        let traits = regex_captures(RUST_TRAIT@, c)->Ok_0;
        let fns = regex_captures(RUST_FN@, c)->Ok_0;
        let ims = regex_captures(RUST_IMPL@, c)->Ok_0;
        let uses = regex_captures(RUST_USE@, c)->Ok_0;
        let vis = VisRule::IfGroup(1);
        let items = decls(c, fid, fpath, structs, "_struct_"@, SymbolKind::Struct, 2, vis, None) + decls(
            c,
            fid,
            fpath,
            enums,
            "_enum_"@,
            SymbolKind::Enum,
            2,
            vis,
            None,
        ) + decls(c, fid, fpath, traits, "_trait_"@, SymbolKind::Trait, 2, vis, None) + rust_fns(c, fid, fpath, fns);
        assert(no_parents(items));
        lemma_impls_parents(c, fid, fpath, items, ims);
        let tail = imports(c, fid, fpath, uses, "_use_"@, 1, 1);
        assert(no_parents(tail));
        lemma_concat_parents(impls_fold(c, fid, fpath, items, ims), tail);
    }
}

proof fn lemma_forms_no_parents(
    c: Seq<char>,
    fid: Seq<char>,
    fpath: Seq<char>,
    ms: Seq<Seq<Option<(int, int)>>>,
    form: Form,
)
    ensures
        no_parents(forms(c, fid, fpath, ms, form)),
    decreases ms.len(),
{
    if ms.len() > 0 {
        lemma_forms_no_parents(c, fid, fpath, ms.drop_last(), form);
        let front = forms(c, fid, fpath, ms.drop_last(), form);
        let all = forms(c, fid, fpath, ms, form);
        assert forall|i: int| 0 <= i < all.len() implies (#[trigger] all[i]).parent_id is None by {
            if i < front.len() {
                assert(all[i] == front[i]);
            }
        }
    }
}

proof fn lemma_concat_no_parents(a: Seq<SymbolView>, b: Seq<SymbolView>)
    requires
        no_parents(a),
        no_parents(b),
    ensures
        no_parents(a + b),
{
    assert forall|i: int| 0 <= i < (a + b).len() implies (#[trigger] (a + b)[i]).parent_id is None by {
        if i < a.len() {
            assert((a + b)[i] == a[i]);
        } else {
            assert((a + b)[i] == b[i - a.len()]);
        }
    }
}

proof fn lemma_js_no_parents(c: Seq<char>, fid: Seq<char>, fpath: Seq<char>)
    ensures
        javascript_symbols(c, fid, fpath) matches Ok(ss) ==> no_parents(ss),
{
    if let Ok(ss) = javascript_symbols(c, fid, fpath) {
        let classes = regex_captures(JS_CLASS@, c)->Ok_0;
        let fns = regex_captures(JS_FN@, c)->Ok_0;
        let arrows = regex_captures(JS_ARROW@, c)->Ok_0;
        let ims = regex_captures(JS_IMPORT@, c)->Ok_0;
        let a = decls(c, fid, fpath, classes, "_class_"@, SymbolKind::Class, 3, VisRule::IfEither(1, 2), None);
        let b = decls(c, fid, fpath, fns, "_fn_"@, SymbolKind::Function, 3, VisRule::IfGroup(1), Some(2));
        let d = decls(c, fid, fpath, arrows, "_arrow_"@, SymbolKind::Function, 3, VisRule::IfGroup(1), Some(4));
        let e = imports(c, fid, fpath, ims, "_import_"@, 1, 1);
        assert(no_parents(a) && no_parents(b) && no_parents(d) && no_parents(e));
        lemma_concat_no_parents(a, b);
        lemma_concat_no_parents(a + b, d);
        lemma_concat_no_parents(a + b + d, e);
    }
}

proof fn lemma_other_languages_no_parents(path: Seq<char>, c: Seq<char>)
    requires
        lowercase(ext_text(path)) != "rs"@,
    ensures
        file_symbols(path, c) matches Ok(ss) ==> no_parents(ss),
{
    let fid = file_id_of(path);
    let ext = lowercase(ext_text(path));
    if ext == "py"@ {
        if let Ok(ss) = python_symbols(c, fid, path) {
            let classes = regex_captures(PY_CLASS@, c)->Ok_0;
            let fns = regex_captures(PY_FN@, c)->Ok_0;
            let ims = regex_captures(PY_IMPORT@, c)->Ok_0;
            lemma_forms_no_parents(c, fid, path, classes, Form::PythonClass);
            lemma_forms_no_parents(c, fid, path, fns, Form::PythonFunction);
            let a = forms(c, fid, path, classes, Form::PythonClass);
            let b = forms(c, fid, path, fns, Form::PythonFunction);
            let e = imports(c, fid, path, ims, "_import_"@, 1, 2);
            assert(no_parents(e));
            lemma_concat_no_parents(a, b);
            lemma_concat_no_parents(a + b, e);
        }
    } else if ext == "js"@ || ext == "mjs"@ {
        lemma_js_no_parents(c, fid, path);
    } else if ext == "ts"@ || ext == "tsx"@ {
        lemma_js_no_parents(c, fid, path);
        if let Ok(ss) = typescript_symbols(c, fid, path) {
            let js = javascript_symbols(c, fid, path)->Ok_0;
            let ifaces = regex_captures(TS_INTERFACE@, c)->Ok_0;
            let types = regex_captures(TS_TYPE@, c)->Ok_0;
            let a = decls(c, fid, path, ifaces, "_interface_"@, SymbolKind::Interface, 2, VisRule::IfGroup(1), None);
            let b = decls(c, fid, path, types, "_type_"@, SymbolKind::TypeAlias, 2, VisRule::IfGroup(1), None);
            assert(no_parents(a) && no_parents(b));
            lemma_concat_no_parents(js, a);
            lemma_concat_no_parents(js + a, b);
        }
    } else if ext == "go"@ {
        if let Ok(ss) = go_symbols(c, fid, path) {
            let public = VisRule::Always(Visibility::Public);
            let structs = regex_captures(GO_STRUCT@, c)->Ok_0;
            let ifaces = regex_captures(GO_INTERFACE@, c)->Ok_0;
            let fns = regex_captures(GO_FN@, c)->Ok_0;
            let a = decls(c, fid, path, structs, "_struct_"@, SymbolKind::Struct, 1, public, None);
            let b = decls(c, fid, path, ifaces, "_interface_"@, SymbolKind::Interface, 1, public, None);
            assert(no_parents(a) && no_parents(b));
            lemma_forms_no_parents(c, fid, path, fns, Form::GoFunction);
            lemma_concat_no_parents(a, b);
            lemma_concat_no_parents(a + b, forms(c, fid, path, fns, Form::GoFunction));
        }
    } else if ext == "java"@ {
        if let Ok(ss) = java_symbols(c, fid, path) {
            let classes = regex_captures(JAVA_CLASS@, c)->Ok_0;
            let ifaces = regex_captures(JAVA_INTERFACE@, c)->Ok_0;
            let methods = regex_captures(JAVA_METHOD@, c)->Ok_0;
            let a = decls(c, fid, path, classes, "_class_"@, SymbolKind::Class, 3, VisRule::IfGroupElseInternal(1), None);
            let b = decls(c, fid, path, ifaces, "_interface_"@, SymbolKind::Interface, 2, VisRule::IfGroupElseInternal(1), None);
            assert(no_parents(a) && no_parents(b));
            lemma_forms_no_parents(c, fid, path, methods, Form::JavaMethod);
            lemma_concat_no_parents(a, b);
            lemma_concat_no_parents(a + b, forms(c, fid, path, methods, Form::JavaMethod));
        }
    } else {
        if let Ok(ss) = generic_symbols(c, fid, path) {
            let fns = regex_captures(ANY_FN@, c)->Ok_0;
            assert(no_parents(decls(c, fid, path, fns, "_fn_"@, SymbolKind::Function, 2, VisRule::Always(Visibility::Public), None)));
        }
    }
}

/// Every extracted symbol that names an owner comes after the struct or trait
/// with that id, so methods nest inside their owning type; only Rust methods
/// name an owner.
pub proof fn lemma_methods_follow_owners(path: Seq<char>, c: Seq<char>)
    ensures
        file_symbols(path, c) matches Ok(ss) ==> parents_before(ss),
        lowercase(ext_text(path)) != "rs"@ ==> (file_symbols(path, c) matches Ok(ss) ==> no_parents(ss)),
{
    if lowercase(ext_text(path)) == "rs"@ {
        lemma_rust_methods_follow_owners(c, file_id_of(path), path);
    } else {
        lemma_other_languages_no_parents(path, c);
    }
}

/// Every symbol extracted from a file belongs to that file: it carries the
/// file's id and path, and it spans one line.
pub proof fn lemma_symbols_in_file(path: Seq<char>, c: Seq<char>)
    ensures
        file_symbols(path, c) matches Ok(ss) ==> all_in_file(ss, file_id_of(path), path),
{
    let fid = file_id_of(path);
    let ext = lowercase(ext_text(path));
    let none = Seq::<SymbolView>::empty();
    assert(all_in_file(none, fid, path));
    if ext == "rs"@ {
        match rust_symbols(c, fid, path) {
            Ok(ss) => {
                let structs = regex_captures(RUST_STRUCT@, c)->Ok_0;
                let enums = regex_captures(RUST_ENUM@, c)->Ok_0;
                let traits = regex_captures(RUST_TRAIT@, c)->Ok_0;
                let fns = regex_captures(RUST_FN@, c)->Ok_0;
                let ims = regex_captures(RUST_IMPL@, c)->Ok_0;
                let uses = regex_captures(RUST_USE@, c)->Ok_0;
                let vis = VisRule::IfGroup(1);
                let a = decls(c, fid, path, structs, "_struct_"@, SymbolKind::Struct, 2, vis, None);
                let b = decls(c, fid, path, enums, "_enum_"@, SymbolKind::Enum, 2, vis, None);
                let d = decls(c, fid, path, traits, "_trait_"@, SymbolKind::Trait, 2, vis, None);
                let e = rust_fns(c, fid, path, fns);
                lemma_concat_in_file(a, b, fid, path);
                lemma_concat_in_file(a + b, d, fid, path);
                lemma_concat_in_file(a + b + d, e, fid, path);
                lemma_impls_in_file(c, fid, path, a + b + d + e, ims);
                lemma_concat_in_file(
                    impls_fold(c, fid, path, a + b + d + e, ims),
                    imports(c, fid, path, uses, "_use_"@, 1, 1),
                    fid,
                    path,
                );
            },
            Err(_) => {},
        }
    } else if ext == "py"@ {
        match python_symbols(c, fid, path) {
            Ok(ss) => {
                let classes = regex_captures(PY_CLASS@, c)->Ok_0;
                let fns = regex_captures(PY_FN@, c)->Ok_0;
                let ims = regex_captures(PY_IMPORT@, c)->Ok_0;
                lemma_forms_in_file(c, fid, path, classes, Form::PythonClass);
                lemma_forms_in_file(c, fid, path, fns, Form::PythonFunction);
                let a = forms(c, fid, path, classes, Form::PythonClass);
                let b = forms(c, fid, path, fns, Form::PythonFunction);
                lemma_concat_in_file(a, b, fid, path);
                lemma_concat_in_file(a + b, imports(c, fid, path, ims, "_import_"@, 1, 2), fid, path);
            },
            Err(_) => {},
        }
    } else if ext == "js"@ || ext == "mjs"@ {
        lemma_js_in_file(c, fid, path);
    } else if ext == "ts"@ || ext == "tsx"@ {
        lemma_js_in_file(c, fid, path);
        match typescript_symbols(c, fid, path) {
            Ok(ss) => {
                let js = javascript_symbols(c, fid, path)->Ok_0;
                let ifaces = regex_captures(TS_INTERFACE@, c)->Ok_0;
                let types = regex_captures(TS_TYPE@, c)->Ok_0;
                let a = decls(
                    c,
                    fid,
                    path,
                    ifaces,
                    "_interface_"@,
                    SymbolKind::Interface,
                    2,
                    VisRule::IfGroup(1),
                    None,
                );
                let b = decls(
                    c,
                    fid,
                    path,
                    types,
                    "_type_"@,
                    SymbolKind::TypeAlias,
                    2,
                    VisRule::IfGroup(1),
                    None,
                );
                lemma_concat_in_file(js, a, fid, path);
                lemma_concat_in_file(js + a, b, fid, path);
            },
            Err(_) => {},
        }
    } else if ext == "go"@ {
        match go_symbols(c, fid, path) {
            Ok(ss) => {
                let public = VisRule::Always(Visibility::Public);
                let structs = regex_captures(GO_STRUCT@, c)->Ok_0;
                let ifaces = regex_captures(GO_INTERFACE@, c)->Ok_0;
                let fns = regex_captures(GO_FN@, c)->Ok_0;
                let a = decls(c, fid, path, structs, "_struct_"@, SymbolKind::Struct, 1, public, None);
                let b = decls(
                    c,
                    fid,
                    path,
                    ifaces,
                    "_interface_"@,
                    SymbolKind::Interface,
                    1,
                    public,
                    None,
                );
                lemma_forms_in_file(c, fid, path, fns, Form::GoFunction);
                lemma_concat_in_file(a, b, fid, path);
                lemma_concat_in_file(a + b, forms(c, fid, path, fns, Form::GoFunction), fid, path);
            },
            Err(_) => {},
        }
    } else if ext == "java"@ {
        match java_symbols(c, fid, path) {
            Ok(ss) => {
                let classes = regex_captures(JAVA_CLASS@, c)->Ok_0;
                let ifaces = regex_captures(JAVA_INTERFACE@, c)->Ok_0;
                let methods = regex_captures(JAVA_METHOD@, c)->Ok_0;
                let a = decls(
                    c,
                    fid,
                    path,
                    classes,
                    "_class_"@,
                    SymbolKind::Class,
                    3,
                    VisRule::IfGroupElseInternal(1),
                    None,
                );
                let b = decls(
                    c,
                    fid,
                    path,
                    ifaces,
                    "_interface_"@,
                    SymbolKind::Interface,
                    2,
                    VisRule::IfGroupElseInternal(1),
                    None,
                );
                lemma_forms_in_file(c, fid, path, methods, Form::JavaMethod);
                lemma_concat_in_file(a, b, fid, path);
                lemma_concat_in_file(a + b, forms(c, fid, path, methods, Form::JavaMethod), fid, path);
            },
            Err(_) => {},
        }
    }
}

proof fn lemma_js_in_file(c: Seq<char>, fid: Seq<char>, path: Seq<char>)
    ensures
        javascript_symbols(c, fid, path) matches Ok(ss) ==> all_in_file(ss, fid, path),
{
    match javascript_symbols(c, fid, path) {
        Ok(ss) => {
            let classes = regex_captures(JS_CLASS@, c)->Ok_0;
            let fns = regex_captures(JS_FN@, c)->Ok_0;
            let arrows = regex_captures(JS_ARROW@, c)->Ok_0;
            let ims = regex_captures(JS_IMPORT@, c)->Ok_0;
            let a = decls(
                c,
                fid,
                path,
                classes,
                "_class_"@,
                SymbolKind::Class,
                3,
                VisRule::IfEither(1, 2),
                None,
            );
            let b = decls(
                c,
                fid,
                path,
                fns,
                "_fn_"@,
                SymbolKind::Function,
                3,
                VisRule::IfGroup(1),
                Some(2),
            );
            let d = decls(
                c,
                fid,
                path,
                arrows,
                "_arrow_"@,
                SymbolKind::Function,
                3,
                VisRule::IfGroup(1),
                Some(4),
            );
            lemma_concat_in_file(a, b, fid, path);
            lemma_concat_in_file(a + b, d, fid, path);
            lemma_concat_in_file(a + b + d, imports(c, fid, path, ims, "_import_"@, 1, 1), fid, path);
        },
        Err(_) => {},
    }
}

/// Extracts symbols from source text by language.
pub struct SymbolExtractor {}

impl SymbolExtractor {
    /// A new extractor.
    pub fn new() -> (r: Self) {
        SymbolExtractor {  }
    }

    /// Appends the methods of the impl blocks matched by `impls`, each with
    /// the id of the first struct or trait of its name as parent.
    pub fn extract_rust_impl_methods(
        &self,
        content: &str,
        file_id: &str,
        file_path: &str,
        impls: &Vec<Vec<Option<Span>>>,
        symbols: &mut Vec<Symbol>,
    )
        requires
            content@.len() < usize::MAX,
            matches_fit(content@, impls@),
            impls_ok(content@, matches_pos(impls@)),
        ensures
            symbol_views(final(symbols)@) == impls_fold(
                content@,
                file_id@,
                file_path@,
                symbol_views(old(symbols)@),
                matches_pos(impls@),
            ),
    {
        let cs = chars_of(content);
        let ghost start_views = symbol_views(symbols@);
        let ghost mp = matches_pos(impls@);
        let mut i: usize = 0;
        while i < impls.len()
            invariant
                i <= impls@.len(),
                mp == matches_pos(impls@),
                cs@ == content@,
                content@.len() < usize::MAX,
                matches_fit(content@, impls@),
                impls_ok(content@, mp),
                symbol_views(symbols@) == impls_fold(
                    content@,
                    file_id@,
                    file_path@,
                    start_views,
                    mp.take(i as int),
                ),
            decreases impls.len() - i,
        {
            let im = &impls[i];
            assert(im@.len() >= 1 && im@[0] is Some);
            assert(mp[i as int] == groups_pos(impls@[i as int]));
            assert(impl_ok(content@, mp[i as int]));
            let impl_name = group_text_exec(content, im, 2);
            let impl_end = match_end_exec(im);
            assert(crate::matching::span_fits(content@, im@[0]));
            let (pre, rest) = split_at_byte(content, impl_end);
            let pre_chars = chars_of(pre);
            let p = pre_chars.len();
            assert(cs@.skip(p as int) =~= rest@);
            match find_brace_block(cs.as_slice(), p) {
                None => {},
                Some((a, b)) => {
                    let body_chars = slice_copy(cs.as_slice(), a, b);
                    assert(body_chars@ =~= rest@.subrange(a - p, b - p));
                    let body = string_of(body_chars.as_slice());
                    match captures_all(RUST_METHOD, body.as_str()) {
                        Err(_) => {},
                        Ok(ms) => {
                            let prefix = slice_copy(cs.as_slice(), 0, a);
                            assert(prefix@ =~= pre@ + rest@.take(a - p));
                            let ls = lines_exec(prefix.as_slice());
                            proof {
                                lemma_lines_len(prefix@);
                            }
                            let line = ls.len();
                            push_methods(
                                body.as_str(),
                                file_id,
                                file_path,
                                &impl_name,
                                line,
                                &ms,
                                symbols,
                            );
                        },
                    }
                },
            }
            proof {
                assert(mp.take(i + 1).drop_last() =~= mp.take(i as int));
            }
            i += 1;
        }
        assert(mp.take(impls@.len() as int) =~= mp);
    }

    /// The symbols of a Rust file.
    pub fn extract_rust_symbols(&self, content: &str, file_id: &str, file_path: &str) -> (r: Result<
        Vec<Symbol>,
        String,
    >)
        requires
            rust_ready(content@),
        ensures
            symbols_result(r) == rust_symbols(content@, file_id@, file_path@),
    {
        let mut symbols: Vec<Symbol> = Vec::new();
        let vis = VisRule::IfGroup(1);
        let structs = match captures_all(RUST_STRUCT, content) {
            Ok(v) => v,
            Err(e) => return Err(e),
        };
        push_decls(
            content,
            file_id,
            file_path,
            &structs,
            "_struct_",
            SymbolKind::Struct,
            2,
            vis,
            None,
            &mut symbols,
        );
        let enums = match captures_all(RUST_ENUM, content) {
            Ok(v) => v,
            Err(e) => return Err(e),
        };
        push_decls(content, file_id, file_path, &enums, "_enum_", SymbolKind::Enum, 2, vis, None, &mut symbols);
        let traits = match captures_all(RUST_TRAIT, content) {
            Ok(v) => v,
            Err(e) => return Err(e),
        };
        push_decls(
            content,
            file_id,
            file_path,
            &traits,
            "_trait_",
            SymbolKind::Trait,
            2,
            vis,
            None,
            &mut symbols,
        );
        let fns = match captures_all(RUST_FN, content) {
            Ok(v) => v,
            Err(e) => return Err(e),
        };
        push_rust_fns(content, file_id, file_path, &fns, &mut symbols);
        let impls = match captures_all(RUST_IMPL, content) {
            Ok(v) => v,
            Err(e) => return Err(e),
        };
        self.extract_rust_impl_methods(content, file_id, file_path, &impls, &mut symbols);
        let uses = match captures_all(RUST_USE, content) {
            Ok(v) => v,
            Err(e) => return Err(e),
        };
        push_imports(content, file_id, file_path, &uses, "_use_", 1, 1, &mut symbols);
        proof {
            assert(symbol_views(Seq::<Symbol>::empty()) =~= Seq::<SymbolView>::empty());
        }
        Ok(symbols)
    }

    /// The symbols of the file at `path` whose text is `content`, by the
    /// lowercased extension of the path.
    pub fn extract_from_file(&self, path: &str, content: &str) -> (r: Result<Vec<Symbol>, String>)
        requires
            file_ready(path@, content@),
        ensures
            symbols_result(r) == file_symbols(path@, content@),
    {
        let ext = lower_ext(path);
        let slashless = slash_free_exec(path);
        let mut file_id = owned("file_");
        file_id.append(slashless.as_str());
        let e = ext.as_slice();
        if str_same(e, "rs") {
            self.extract_rust_symbols(content, file_id.as_str(), path)
        } else if str_same(e, "py") {
            self.extract_python_symbols(content, file_id.as_str(), path)
        } else if str_same(e, "js") || str_same(e, "mjs") {
            self.extract_javascript_symbols(content, file_id.as_str(), path)
        } else if str_same(e, "ts") || str_same(e, "tsx") {
            self.extract_typescript_symbols(content, file_id.as_str(), path)
        } else if str_same(e, "go") {
            self.extract_go_symbols(content, file_id.as_str(), path)
        } else if str_same(e, "java") {
            self.extract_java_symbols(content, file_id.as_str(), path)
        } else {
            let ext_string = string_of(e);
            self.extract_regex_symbols(content, ext_string.as_str(), file_id.as_str(), path)
        }
    }

    /// Whether `extract_from_file` runs on this file without failing.
    pub fn can_extract(&self, path: &str, content: &str) -> (r: bool)
        ensures
            r == file_ready(path@, content@),
    {
        if !fits_lines(content) {
            return false;
        }
        let ext = lower_ext(path);
        let e = ext.as_slice();
        proof {
            reveal_strlit("rs");
            reveal_strlit("py");
            assert("rs"@ != "py"@) by {
                assert("rs"@[0] != "py"@[0]);
            }
        }
        if str_same(e, "rs") {
            rust_ready_exec(content)
        } else if str_same(e, "py") {
            python_ready_exec(content)
        } else {
            true
        }
    }

    /// The symbols of a file, or nothing where a signature would have to be
    /// cut inside a character or a parameter list could not be taken apart.
    pub fn extract_from_file_checked(&self, path: &str, content: &str) -> (r: Option<
        Result<Vec<Symbol>, String>,
    >)
        ensures
            match r {
                Some(res) => file_ready(path@, content@) && symbols_result(res) == file_symbols(
                    path@,
                    content@,
                ),
                None => !file_ready(path@, content@),
            },
    {
        if self.can_extract(path, content) {
            Some(self.extract_from_file(path, content))
        } else {
            None
        }
    }

    /// The symbols of a Python file.
    pub fn extract_python_symbols(&self, content: &str, file_id: &str, file_path: &str) -> (r: Result<
        Vec<Symbol>,
        String,
    >)
        requires
            python_ready(content@),
        ensures
            symbols_result(r) == python_symbols(content@, file_id@, file_path@),
    {
        let mut symbols: Vec<Symbol> = Vec::new();
        let classes = match captures_all(PY_CLASS, content) {
            Ok(v) => v,
            Err(e) => return Err(e),
        };
        push_forms(content, file_id, file_path, &classes, Form::PythonClass, &mut symbols);
        let fns = match captures_all(PY_FN, content) {
            Ok(v) => v,
            Err(e) => return Err(e),
        };
        push_forms(content, file_id, file_path, &fns, Form::PythonFunction, &mut symbols);
        let ims = match captures_all(PY_IMPORT, content) {
            Ok(v) => v,
            Err(e) => return Err(e),
        };
        push_imports(content, file_id, file_path, &ims, "_import_", 1, 2, &mut symbols);
        proof {
            assert(symbol_views(Seq::<Symbol>::empty()) =~= Seq::<SymbolView>::empty());
        }
        Ok(symbols)
    }

    /// The symbols of a JavaScript file.
    pub fn extract_javascript_symbols(&self, content: &str, file_id: &str, file_path: &str) -> (r:
        Result<Vec<Symbol>, String>)
        requires
            content@.len() < usize::MAX,
        ensures
            symbols_result(r) == javascript_symbols(content@, file_id@, file_path@),
    {
        let mut symbols: Vec<Symbol> = Vec::new();
        let classes = match captures_all(JS_CLASS, content) {
            Ok(v) => v,
            Err(e) => return Err(e),
        };
        push_decls(
            content,
            file_id,
            file_path,
            &classes,
            "_class_",
            SymbolKind::Class,
            3,
            VisRule::IfEither(1, 2),
            None,
            &mut symbols,
        );
        let fns = match captures_all(JS_FN, content) {
            Ok(v) => v,
            Err(e) => return Err(e),
        };
        push_decls(
            content,
            file_id,
            file_path,
            &fns,
            "_fn_",
            SymbolKind::Function,
            3,
            VisRule::IfGroup(1),
            Some(2),
            &mut symbols,
        );
        let arrows = match captures_all(JS_ARROW, content) {
            Ok(v) => v,
            Err(e) => return Err(e),
        };
        push_decls(
            content,
            file_id,
            file_path,
            &arrows,
            "_arrow_",
            SymbolKind::Function,
            3,
            VisRule::IfGroup(1),
            Some(4),
            &mut symbols,
        );
        let ims = match captures_all(JS_IMPORT, content) {
            Ok(v) => v,
            Err(e) => return Err(e),
        };
        push_imports(content, file_id, file_path, &ims, "_import_", 1, 1, &mut symbols);
        proof {
            assert(symbol_views(Seq::<Symbol>::empty()) =~= Seq::<SymbolView>::empty());
        }
        Ok(symbols)
    }

    /// The symbols of a TypeScript file.
    pub fn extract_typescript_symbols(&self, content: &str, file_id: &str, file_path: &str) -> (r:
        Result<Vec<Symbol>, String>)
        requires
            content@.len() < usize::MAX,
        ensures
            symbols_result(r) == typescript_symbols(content@, file_id@, file_path@),
    {
        let mut symbols = match self.extract_javascript_symbols(content, file_id, file_path) {
            Ok(v) => v,
            Err(e) => return Err(e),
        };
        let ifaces = match captures_all(TS_INTERFACE, content) {
            Ok(v) => v,
            Err(e) => return Err(e),
        };
        push_decls(
            content,
            file_id,
            file_path,
            &ifaces,
            "_interface_",
            SymbolKind::Interface,
            2,
            VisRule::IfGroup(1),
            None,
            &mut symbols,
        );
        let types = match captures_all(TS_TYPE, content) {
            Ok(v) => v,
            Err(e) => return Err(e),
        };
        push_decls(
            content,
            file_id,
            file_path,
            &types,
            "_type_",
            SymbolKind::TypeAlias,
            2,
            VisRule::IfGroup(1),
            None,
            &mut symbols,
        );
        Ok(symbols)
    }

    /// The symbols of a Go file.
    pub fn extract_go_symbols(&self, content: &str, file_id: &str, file_path: &str) -> (r: Result<
        Vec<Symbol>,
        String,
    >)
        requires
            content@.len() < usize::MAX,
        ensures
            symbols_result(r) == go_symbols(content@, file_id@, file_path@),
    {
        let mut symbols: Vec<Symbol> = Vec::new();
        let public = VisRule::Always(Visibility::Public);
        let structs = match captures_all(GO_STRUCT, content) {
            Ok(v) => v,
            Err(e) => return Err(e),
        };
        push_decls(
            content,
            file_id,
            file_path,
            &structs,
            "_struct_",
            SymbolKind::Struct,
            1,
            public,
            None,
            &mut symbols,
        );
        let ifaces = match captures_all(GO_INTERFACE, content) {
            Ok(v) => v,
            Err(e) => return Err(e),
        };
        push_decls(
            content,
            file_id,
            file_path,
            &ifaces,
            "_interface_",
            SymbolKind::Interface,
            1,
            public,
            None,
            &mut symbols,
        );
        let fns = match captures_all(GO_FN, content) {
            Ok(v) => v,
            Err(e) => return Err(e),
        };
        push_forms(content, file_id, file_path, &fns, Form::GoFunction, &mut symbols);
        proof {
            assert(symbol_views(Seq::<Symbol>::empty()) =~= Seq::<SymbolView>::empty());
        }
        Ok(symbols)
    }

    /// The symbols of a Java file.
    pub fn extract_java_symbols(&self, content: &str, file_id: &str, file_path: &str) -> (r: Result<
        Vec<Symbol>,
        String,
    >)
        requires
            content@.len() < usize::MAX,
        ensures
            symbols_result(r) == java_symbols(content@, file_id@, file_path@),
    {
        let mut symbols: Vec<Symbol> = Vec::new();
        let classes = match captures_all(JAVA_CLASS, content) {
            Ok(v) => v,
            Err(e) => return Err(e),
        };
        push_decls(
            content,
            file_id,
            file_path,
            &classes,
            "_class_",
            SymbolKind::Class,
            3,
            VisRule::IfGroupElseInternal(1),
            None,
            &mut symbols,
        );
        let ifaces = match captures_all(JAVA_INTERFACE, content) {
            Ok(v) => v,
            Err(e) => return Err(e),
        };
        push_decls(
            content,
            file_id,
            file_path,
            &ifaces,
            "_interface_",
            SymbolKind::Interface,
            2,
            VisRule::IfGroupElseInternal(1),
            None,
            &mut symbols,
        );
        let methods = match captures_all(JAVA_METHOD, content) {
            Ok(v) => v,
            Err(e) => return Err(e),
        };
        push_forms(content, file_id, file_path, &methods, Form::JavaMethod, &mut symbols);
        proof {
            assert(symbol_views(Seq::<Symbol>::empty()) =~= Seq::<SymbolView>::empty());
        }
        Ok(symbols)
    }

    /// The symbols of a file in a language without its own extractor; the
    /// extension does not change what is found.
    pub fn extract_regex_symbols(
        &self,
        content: &str,
        extension: &str,
        file_id: &str,
        file_path: &str,
    ) -> (r: Result<Vec<Symbol>, String>)
        requires
            content@.len() < usize::MAX,
        ensures
            symbols_result(r) == generic_symbols(content@, file_id@, file_path@),
    {
        let mut symbols: Vec<Symbol> = Vec::new();
        let fns = match captures_all(ANY_FN, content) {
            Ok(v) => v,
            Err(e) => return Err(e),
        };
        push_decls(
            content,
            file_id,
            file_path,
            &fns,
            "_fn_",
            SymbolKind::Function,
            2,
            VisRule::Always(Visibility::Public),
            None,
            &mut symbols,
        );
        proof {
            assert(symbol_views(Seq::<Symbol>::empty()) =~= Seq::<SymbolView>::empty());
        }
        Ok(symbols)
    }
}


impl Default for SymbolExtractor {
    fn default() -> (r: Self)
        ensures
            r == (SymbolExtractor {  }),
    {
        SymbolExtractor {  }
    }
}

/// Some symbol of `ss` has kind `kind` and name `name`.
pub open spec fn has_symbol(ss: Seq<SymbolView>, kind: SymbolKind, name: Seq<char>) -> bool {
    exists|j: int| 0 <= j < ss.len() && ss[j].kind == kind && ss[j].name == name
}

/// TypeScript files, `.ts` and `.tsx` alike (their extension compared in
/// lowercase), are read as TypeScript: their symbols are those of the
/// TypeScript reading of the text, and every `interface` declaration of the
/// text yields an `Interface` symbol of that name.
pub proof fn lemma_typescript_files(path: Seq<char>, c: Seq<char>)
    requires
        lowercase(ext_text(path)) == "ts"@ || lowercase(ext_text(path)) == "tsx"@,
    ensures
        file_symbols(path, c) == typescript_symbols(c, file_id_of(path), path),
        file_symbols(path, c) matches Ok(ss) ==> forall|k: int|
            0 <= k < regex_captures(TS_INTERFACE@, c)->Ok_0.len() ==> has_symbol(
                ss,
                SymbolKind::Interface,
                group_text(c, #[trigger] regex_captures(TS_INTERFACE@, c)->Ok_0[k], 2),
            ),
{
    reveal_strlit("ts");
    reveal_strlit("tsx");
    reveal_strlit("rs");
    reveal_strlit("py");
    reveal_strlit("js");
    reveal_strlit("mjs");
    let ext = lowercase(ext_text(path));
    assert(ext != "rs"@ && ext != "py"@ && ext != "js"@ && ext != "mjs"@) by {
        if ext == "ts"@ {
            assert("ts"@[0] != "rs"@[0] && "ts"@[0] != "py"@[0] && "ts"@[0] != "js"@[0]);
            assert("ts"@.len() != "mjs"@.len());
        } else {
            assert("tsx"@.len() != "rs"@.len());
            assert("tsx"@[0] != "mjs"@[0]);
        }
    }
    let fid = file_id_of(path);
    if let Ok(ss) = file_symbols(path, c) {
        let js = javascript_symbols(c, fid, path)->Ok_0;
        let ifaces = regex_captures(TS_INTERFACE@, c)->Ok_0;
        let a = decls(c, fid, path, ifaces, "_interface_"@, SymbolKind::Interface, 2, VisRule::IfGroup(1), None);
        let b = decls(c, fid, path, regex_captures(TS_TYPE@, c)->Ok_0, "_type_"@, SymbolKind::TypeAlias, 2, VisRule::IfGroup(1), None);
        assert(ss == js + a + b);
        assert forall|k: int| 0 <= k < regex_captures(TS_INTERFACE@, c)->Ok_0.len() implies has_symbol(
            ss,
            SymbolKind::Interface,
            group_text(c, #[trigger] regex_captures(TS_INTERFACE@, c)->Ok_0[k], 2),
        ) by {
            assert(ss[js.len() + k] == a[k]);
        }
    }
}

/// Files are read by the language of their extension, compared in
/// lowercase: `rs` as Rust, `py` as Python, `js` and `mjs` as JavaScript,
/// `go` as Go, `java` as Java, and any other extension by the generic
/// function search. The symbols' file id comes from the path.
pub proof fn lemma_extraction_by_extension(path: Seq<char>, c: Seq<char>)
    ensures
        lowercase(ext_text(path)) == "rs"@ ==> file_symbols(path, c) == rust_symbols(c, file_id_of(path), path),
        lowercase(ext_text(path)) == "py"@ ==> file_symbols(path, c) == python_symbols(c, file_id_of(path), path),
        lowercase(ext_text(path)) == "js"@ || lowercase(ext_text(path)) == "mjs"@ ==> file_symbols(path, c)
            == javascript_symbols(c, file_id_of(path), path),
        lowercase(ext_text(path)) == "go"@ ==> file_symbols(path, c) == go_symbols(c, file_id_of(path), path),
        lowercase(ext_text(path)) == "java"@ ==> file_symbols(path, c) == java_symbols(c, file_id_of(path), path),
        ({
            let e = lowercase(ext_text(path));
            e != "rs"@ && e != "py"@ && e != "js"@ && e != "mjs"@ && e != "ts"@ && e != "tsx"@ && e != "go"@
                && e != "java"@
        }) ==> file_symbols(path, c) == generic_symbols(c, file_id_of(path), path),
{
    reveal_strlit("rs");
    reveal_strlit("py");
    reveal_strlit("js");
    reveal_strlit("mjs");
    reveal_strlit("ts");
    reveal_strlit("tsx");
    reveal_strlit("go");
    reveal_strlit("java");
    assert("rs"@[0] != "py"@[0] && "rs"@[0] != "js"@[0] && "rs"@[0] != "ts"@[0] && "rs"@[0] != "go"@[0]);
    assert("py"@[0] != "js"@[0] && "py"@[0] != "ts"@[0] && "py"@[0] != "go"@[0]);
    assert("js"@[0] != "ts"@[0] && "js"@[0] != "go"@[0] && "ts"@[0] != "go"@[0]);
    assert("mjs"@[0] != "tsx"@[0]);
    assert("java"@.len() == 4 && "mjs"@.len() == 3 && "tsx"@.len() == 3 && "rs"@.len() == 2);
}

} // verus!
