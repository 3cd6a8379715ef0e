//! Building the project map from the entries of a directory walk: files,
//! directories, symbols, relationships and centrality.

use vstd::prelude::*;
use crate::map::schema::{
    dep_views, tally_views, CentralityView, DependencyInfoView, KeyFileView, SymbolIndexEntryView,
    dir_views, file_views, opt_text, rel_views, role_name, role_text, symbol_views, Centrality,
    CentralityLevel, DependencyInfo, DirectoryNode, DirectoryNodeView, FileNode, FileNodeView,
    FileRole, FileSummary, ImportInfo, ImportInfoView, KeyFile, MapStats, ProjectMapIR,
    ProjectSkeleton, Ratio, Relationship, RelationshipKind, RelationshipView, Symbol,
    SymbolIndexEntry, SymbolKind, SymbolView,
};
use crate::paths::{
    extension, extension_exec, file_name, file_name_exec, file_stem, file_stem_exec, parent_path,
    parent_path_exec,
};
use crate::text::{
    after_last, after_last_exec, begins, chars_of, contains_exec, contains_text, decimal,
    decimal_exec, finishes, finishes_exec, lines, lines_exec, lowercase, lowercase_chars, owned,
    split_char, split_char_exec, str_begins, str_finishes, str_same, string_of,
};
use crate::utils::hash::{compute_sha256_string, hex_of, sha256};
use crate::matching::{captures_all, group_text, group_text_exec, groups_pos, has_group, has_group_exec, matches_pos, regex_captures};
use vstd::string::StringExecFns;
use crate::role::classifier::{role_of, RoleClassifier};
use crate::symbol::extractor::{file_ready, file_symbols, symbols_result, SymbolExtractor};

verus! {

/// A name that the directory walk leaves out, with everything below it.
pub open spec fn ignored_name(n: Seq<char>) -> bool {
    n == ".git"@
        || n == ".svn"@
        || n == ".hg"@
        || n == "node_modules"@
        || n == "__pycache__"@
        || n == ".venv"@
        || n == "venv"@
        || n == "target"@
        || n == "build"@
        || n == "dist"@
        || n == "out"@
        || n == ".DS_Store"@
        || n == "Thumbs.db"@
        || finishes(n, ".min.js"@)
        || finishes(n, ".bundle.js"@)
}

/// The walk leaves out the path: its file name is ignored.
pub open spec fn ignored_path(p: Seq<char>) -> bool {
    ignored_name(
        match file_name(p) {
            Some(n) => n,
            None => Seq::empty(),
        },
    )
}

/// Whether the walk leaves out `path` and everything below it.
pub fn is_ignored(path: &str) -> (r: bool)
    ensures
        r == ignored_path(path@),
{
    let pc = chars_of(path);
    let name = match file_name_exec(pc.as_slice()) {
        Some(n) => n,
        None => Vec::new(),
    };
    let n = name.as_slice();
    str_same(n, ".git")
        || str_same(n, ".svn")
        || str_same(n, ".hg")
        || str_same(n, "node_modules")
        || str_same(n, "__pycache__")
        || str_same(n, ".venv")
        || str_same(n, "venv")
        || str_same(n, "target")
        || str_same(n, "build")
        || str_same(n, "dist")
        || str_same(n, "out")
        || str_same(n, ".DS_Store")
        || str_same(n, "Thumbs.db")
        || str_finishes(n, ".min.js")
        || str_finishes(n, ".bundle.js")
}

/// The language of a file with the (already lowercased) extension `e`.
pub open spec fn language_for(e: Seq<char>) -> Seq<char> {
    if e == "rs"@ {
        "Rust"@
    } else if e == "py"@ {
        "Python"@
    } else if e == "js"@ || e == "mjs"@ {
        "JavaScript"@
    } else if e == "ts"@ || e == "tsx"@ {
        "TypeScript"@
    } else if e == "jsx"@ {
        "JSX"@
    } else if e == "go"@ {
        "Go"@
    } else if e == "rb"@ {
        "Ruby"@
    } else if e == "java"@ {
        "Java"@
    } else if e == "c"@ || e == "h"@ {
        "C"@
    } else if e == "cpp"@ || e == "cc"@ || e == "cxx"@ || e == "hpp"@ {
        "C++"@
    } else if e == "cs"@ {
        "C#"@
    } else if e == "php"@ {
        "PHP"@
    } else if e == "swift"@ {
        "Swift"@
    } else if e == "kt"@ || e == "kts"@ {
        "Kotlin"@
    } else if e == "scala"@ {
        "Scala"@
    } else if e == "ex"@ || e == "exs"@ {
        "Elixir"@
    } else if e == "erl"@ || e == "hrl"@ {
        "Erlang"@
    } else if e == "hs"@ {
        "Haskell"@
    } else if e == "ml"@ || e == "mli"@ {
        "OCaml"@
    } else if e == "sh"@ || e == "bash"@ || e == "zsh"@ {
        "Shell"@
    } else if e == "md"@ {
        "Markdown"@
    } else if e == "json"@ {
        "JSON"@
    } else if e == "yaml"@ || e == "yml"@ {
        "YAML"@
    } else if e == "toml"@ {
        "TOML"@
    } else if e == "xml"@ {
        "XML"@
    } else if e == "html"@ || e == "htm"@ {
        "HTML"@
    } else if e == "css"@ || e == "scss"@ || e == "sass"@ || e == "less"@ {
        "CSS"@
    } else if e == "sql"@ {
        "SQL"@
    } else {
        "Unknown"@
    }
}

/// The language of a file with extension `ext`, compared in lowercase.
pub fn detect_language_from_extension(ext: &str) -> (r: String)
    ensures
        r@ == language_for(lowercase(ext@)),
{
    let low = lowercase_chars(ext);
    let e = low.as_slice();
    if str_same(e, "rs") {
        owned("Rust")
    } else if str_same(e, "py") {
        owned("Python")
    } else if str_same(e, "js") || str_same(e, "mjs") {
        owned("JavaScript")
    } else if str_same(e, "ts") || str_same(e, "tsx") {
        owned("TypeScript")
    } else if str_same(e, "jsx") {
        owned("JSX")
    } else if str_same(e, "go") {
        owned("Go")
    } else if str_same(e, "rb") {
        owned("Ruby")
    } else if str_same(e, "java") {
        owned("Java")
    } else if str_same(e, "c") || str_same(e, "h") {
        owned("C")
    } else if str_same(e, "cpp") || str_same(e, "cc") || str_same(e, "cxx") || str_same(e, "hpp") {
        owned("C++")
    } else if str_same(e, "cs") {
        owned("C#")
    } else if str_same(e, "php") {
        owned("PHP")
    } else if str_same(e, "swift") {
        owned("Swift")
    } else if str_same(e, "kt") || str_same(e, "kts") {
        owned("Kotlin")
    } else if str_same(e, "scala") {
        owned("Scala")
    } else if str_same(e, "ex") || str_same(e, "exs") {
        owned("Elixir")
    } else if str_same(e, "erl") || str_same(e, "hrl") {
        owned("Erlang")
    } else if str_same(e, "hs") {
        owned("Haskell")
    } else if str_same(e, "ml") || str_same(e, "mli") {
        owned("OCaml")
    } else if str_same(e, "sh") || str_same(e, "bash") || str_same(e, "zsh") {
        owned("Shell")
    } else if str_same(e, "md") {
        owned("Markdown")
    } else if str_same(e, "json") {
        owned("JSON")
    } else if str_same(e, "yaml") || str_same(e, "yml") {
        owned("YAML")
    } else if str_same(e, "toml") {
        owned("TOML")
    } else if str_same(e, "xml") {
        owned("XML")
    } else if str_same(e, "html") || str_same(e, "htm") {
        owned("HTML")
    } else if str_same(e, "css") || str_same(e, "scss") || str_same(e, "sass") || str_same(e, "less") {
        owned("CSS")
    } else if str_same(e, "sql") {
        owned("SQL")
    } else {
        owned("Unknown")
    }
}

/// The SHA-256 digest of the UTF-8 bytes of `content`, in lowercase hexadecimal.
pub fn compute_hash(content: &str) -> (r: String)
    ensures
        r@ == hex_of(sha256(vstd::utf8::encode_utf8(content@))),
{
    compute_sha256_string(content)
}

/// The parent directory of `path`, unless it is empty or there is none.
pub open spec fn parent_dir(path: Seq<char>) -> Option<Seq<char>> {
    match parent_path(path) {
        Some(t) => if t.len() > 0 {
            Some(t)
        } else {
            None
        },
        None => None,
    }
}

/// The parent directory of `path`, unless it is empty or there is none.
pub fn get_parent_dir(path: &str) -> (r: Option<String>)
    ensures
        opt_text(r) == parent_dir(path@),
{
    let pc = chars_of(path);
    match parent_path_exec(pc.as_slice()) {
        Some(t) => if t.len() > 0 {
            Some(string_of(t.as_slice()))
        } else {
            None
        },
        None => None,
    }
}

/// The file name of `path` without its extension, or `path` itself.
pub open spec fn file_base(path: Seq<char>) -> Seq<char> {
    match file_stem(path) {
        Some(s) => s,
        None => path,
    }
}

/// The file name of `path` without its extension, or `path` itself.
pub fn get_file_base(path: &str) -> (r: String)
    ensures
        r@ == file_base(path@),
{
    let pc = chars_of(path);
    match file_stem_exec(pc.as_slice()) {
        Some(st) => string_of(st.as_slice()),
        None => owned(path),
    }
}

/// The import described by an import symbol named `name`.
pub open spec fn import_info_of(name: Seq<char>) -> ImportInfoView {
    let is_relative = begins(name, "."@) || begins(name, ".."@);
    ImportInfoView {
        source: name,
        names: seq![after_last(name, '/')],
        is_external: !is_relative && !begins(name, "/"@),
        is_relative,
    }
}

/// The imports among `ss`, in order.
pub open spec fn imports_of(ss: Seq<SymbolView>) -> Seq<ImportInfoView>
    decreases ss.len(),
{
    if ss.len() == 0 {
        Seq::empty()
    } else {
        let front = imports_of(ss.drop_last());
        if ss.last().kind == SymbolKind::Import {
            front.push(import_info_of(ss.last().name))
        } else {
            front
        }
    }
}

/// The views of a list of imports.
pub open spec fn import_views(v: Seq<ImportInfo>) -> Seq<ImportInfoView> {
    v.map_values(|i: ImportInfo| i@)
}

/// The imports among `symbols`: the source, its last `/` piece, and whether
/// it is relative or external.
pub fn extract_imports_from_symbols(symbols: &[Symbol]) -> (r: Vec<ImportInfo>)
    ensures
        import_views(r@) == imports_of(symbol_views(symbols@)),
{
    let ghost sv = symbol_views(symbols@);
    let mut out: Vec<ImportInfo> = Vec::new();
    let mut i: usize = 0;
    while i < symbols.len()
        invariant
            i <= symbols@.len(),
            sv == symbol_views(symbols@),
            import_views(out@) == imports_of(sv.take(i as int)),
        decreases symbols.len() - i,
    {
        let s = &symbols[i];
        assert(sv[i as int] == s@);
        assert(sv.take(i + 1).drop_last() =~= sv.take(i as int));
        if matches!(s.kind, SymbolKind::Import) {
            let nc = chars_of(s.name.as_str());
            let is_relative = str_begins(nc.as_slice(), ".") || str_begins(nc.as_slice(), "..");
            let is_external = !is_relative && !str_begins(nc.as_slice(), "/");
            let last = after_last_exec(nc.as_slice(), '/');
            let mut names: Vec<String> = Vec::new();
            names.push(string_of(last.as_slice()));
            let info = ImportInfo { source: s.name.clone(), names, is_external, is_relative };
            let ghost before = out@;
            out.push(info);
            proof {
                assert(info.names@.map_values(|n: String| n@) =~= seq![after_last(s.name@, '/')]);
                assert(import_views(out@) =~= import_views(before).push(info@));
            }
        }
        i += 1;
    }
    assert(sv.take(symbols@.len() as int) =~= sv);
    out
}

pub const EXTENDS: &'static str = r"extends\s+(\w+)";

pub const IMPLEMENTS: &'static str = r"implements\s+(\w+)";

pub const COLON_TYPE: &'static str = r":\s*(\w+)";

pub const INHERIT: &'static str = r"inherit\s+(\w+)";

/// What one pattern says of the parent in `sig`: nothing at all when the
/// pattern is refused, else the first group of its first match, if any.
pub open spec fn parent_by(pattern: Seq<char>, sig: Seq<char>) -> Option<Option<Seq<char>>> {
    match regex_captures(pattern, sig) {
        Err(_) => None,
        Ok(ms) => if ms.len() > 0 && has_group(ms[0], 1) {
            Some(Some(group_text(sig, ms[0], 1)))
        } else {
            Some(None)
        },
    }
}

/// The parent class named in a signature: after `extends`, `implements`, a
/// `:` or `inherit`, tried in that order.
pub open spec fn parent_class(sig: Seq<char>) -> Option<Seq<char>> {
    match parent_by(EXTENDS@, sig) {
        None => None,
        Some(Some(t)) => Some(t),
        Some(None) => match parent_by(IMPLEMENTS@, sig) {
            None => None,
            Some(Some(t)) => Some(t),
            Some(None) => match parent_by(COLON_TYPE@, sig) {
                None => None,
                Some(Some(t)) => Some(t),
                Some(None) => match parent_by(INHERIT@, sig) {
                    None => None,
                    Some(Some(t)) => Some(t),
                    Some(None) => None,
                },
            },
        },
    }
}

/// What `pattern` says of the parent in `signature`.
fn parent_by_exec(pattern: &str, signature: &str) -> (r: Option<Option<String>>)
    ensures
        match r {
            None => parent_by(pattern@, signature@) is None,
            Some(None) => parent_by(pattern@, signature@) == Some(None::<Seq<char>>),
            Some(Some(t)) => parent_by(pattern@, signature@) == Some(Some(t@)),
        },
{
    match captures_all(pattern, signature) {
        Err(_) => None,
        Ok(ms) => {
            if ms.len() > 0 && has_group_exec(&ms[0], 1) {
                assert(matches_pos(ms@)[0] == groups_pos(ms@[0]));
                Some(Some(group_text_exec(signature, &ms[0], 1)))
            } else {
                proof {
                    if ms@.len() > 0 {
                        assert(matches_pos(ms@)[0] == groups_pos(ms@[0]));
                    }
                }
                Some(None)
            }
        },
    }
}

/// The parent class named in a signature, if any.
pub fn extract_parent_class(signature: &str) -> (r: Option<String>)
    ensures
        opt_text(r) == parent_class(signature@),
{
    let patterns = [EXTENDS, IMPLEMENTS, COLON_TYPE, INHERIT];
    match parent_by_exec(patterns[0], signature) {
        None => return None,
        Some(Some(t)) => return Some(t),
        Some(None) => {},
    }
    match parent_by_exec(patterns[1], signature) {
        None => return None,
        Some(Some(t)) => return Some(t),
        Some(None) => {},
    }
    match parent_by_exec(patterns[2], signature) {
        None => return None,
        Some(Some(t)) => return Some(t),
        Some(None) => {},
    }
    match parent_by_exec(patterns[3], signature) {
        None => None,
        Some(Some(t)) => Some(t),
        Some(None) => None,
    }
}

/// The number of symbols of `ss` of the kind counted by `pick`: classes
/// (`false`), or functions and methods (`true`).
pub open spec fn kind_count(ss: Seq<SymbolView>, functions: bool) -> nat
    decreases ss.len(),
{
    if ss.len() == 0 {
        0
    } else {
        let k = ss.last().kind;
        let hit = if functions {
            k == SymbolKind::Function || k == SymbolKind::Method
        } else {
            k == SymbolKind::Class
        };
        kind_count(ss.drop_last(), functions) + if hit {
            1nat
        } else {
            0nat
        }
    }
}

fn kind_count_exec(symbols: &[Symbol], functions: bool) -> (r: usize)
    ensures
        r == kind_count(symbol_views(symbols@), functions),
{
    let ghost sv = symbol_views(symbols@);
    let mut n: usize = 0;
    let mut i: usize = 0;
    while i < symbols.len()
        invariant
            i <= symbols@.len(),
            sv == symbol_views(symbols@),
            n == kind_count(sv.take(i as int), functions),
            n <= i,
        decreases symbols.len() - i,
    {
        let k = symbols[i].kind;
        assert(sv[i as int].kind == k);
        assert(sv.take(i + 1).drop_last() =~= sv.take(i as int));
        let hit = if functions {
            matches!(k, SymbolKind::Function | SymbolKind::Method)
        } else {
            matches!(k, SymbolKind::Class)
        };
        if hit {
            n += 1;
        }
        i += 1;
    }
    assert(sv.take(symbols@.len() as int) =~= sv);
    n
}

/// The one-line summary of a file with symbols `ss`.
pub open spec fn one_line_summary(f: FileNodeView, ss: Seq<SymbolView>) -> Seq<char> {
    let classes = kind_count(ss, false);
    let functions = kind_count(ss, true);
    let role = role_text(f.role);
    let pct = decimal(f.centrality_score.percent());
    if classes > 0 && functions > 0 {
        role + " file with "@ + decimal(classes) + " classes and "@ + decimal(functions)
            + " functions ("@ + f.language + ", "@ + pct + "%)"@
    } else if functions > 0 {
        role + " file with "@ + decimal(functions) + " functions ("@ + f.language + ", "@ + pct
            + "%)"@
    } else {
        f.language + " "@ + role + " file ("@ + pct + "% central)"@
    }
}

/// The text of a count.
fn count_text(n: usize) -> (r: String)
    ensures
        r@ == decimal(n as nat),
{
    let d = decimal_exec(n as u64);
    string_of(d.as_slice())
}

/// A one-line summary of a file: its role, counts of classes and functions,
/// language and centrality as a whole percentage.
pub fn generate_one_line_summary(file: &FileNode, symbols: &[Symbol]) -> (r: String)
    requires
        file.centrality_score.percent_fits(),
    ensures
        r@ == one_line_summary(file@, symbol_views(symbols@)),
{
    let classes = kind_count_exec(symbols, false);
    let functions = kind_count_exec(symbols, true);
    let role = role_name(file.role);
    let pct = string_of(decimal_exec(file.centrality_score.percent_exec()).as_slice());
    let lang = file.language.as_str();
    if classes > 0 && functions > 0 {
        let mut r = owned(role);
        r.append(" file with ");
        r.append(count_text(classes).as_str());
        r.append(" classes and ");
        r.append(count_text(functions).as_str());
        r.append(" functions (");
        r.append(lang);
        r.append(", ");
        r.append(pct.as_str());
        r.append("%)");
        r
    } else if functions > 0 {
        let mut r = owned(role);
        r.append(" file with ");
        r.append(count_text(functions).as_str());
        r.append(" functions (");
        r.append(lang);
        r.append(", ");
        r.append(pct.as_str());
        r.append("%)");
        r
    } else {
        let mut r = owned(lang);
        r.append(" ");
        r.append(role);
        r.append(" file (");
        r.append(pct.as_str());
        r.append("% central)");
        r
    }
}

// ---------------------------------------------------------------------------
// Walk entries and the project map
// ---------------------------------------------------------------------------

/// What the directory walk found at a path.
#[derive(Clone, Copy, PartialEq, Eq, Debug)]
pub enum EntryKind {
    Directory,
    File,
    Other,
}

/// One entry of the directory walk, in walk order.
pub struct ScanEntry {
    pub path: String,
    /// The path relative to the walked root.
    pub relative_path: String,
    pub kind: EntryKind,
    /// The size from the entry's metadata; `None` when it could not be read.
    pub size: Option<u64>,
    /// The text of a file; empty when it could not be read as UTF-8.
    pub content: String,
}

/// A walk entry as text and numbers.
pub struct ScanEntryView {
    pub path: Seq<char>,
    pub relative_path: Seq<char>,
    pub kind: EntryKind,
    pub size: Option<u64>,
    pub content: Seq<char>,
}

impl View for ScanEntry {
    type V = ScanEntryView;

    open spec fn view(&self) -> ScanEntryView {
        ScanEntryView {
            path: self.path@,
            relative_path: self.relative_path@,
            kind: self.kind,
            size: self.size,
            content: self.content@,
        }
    }
}

/// The views of a list of walk entries.
pub open spec fn entry_views(es: Seq<ScanEntry>) -> Seq<ScanEntryView> {
    es.map_values(|e: ScanEntry| e@)
}

/// The id of the file at the relative path `rel`: `/` and `\` become `_`.
pub open spec fn rel_file_id(rel: Seq<char>) -> Seq<char> {
    "file_"@ + rel.map_values(|c: char| if c == '/' || c == '\\' { '_' } else { c })
}

/// The directory nodes of the walk: one per directory entry, with the index
/// of the entry in its id.
pub open spec fn dirs_scanned(es: Seq<ScanEntryView>) -> Seq<DirectoryNodeView>
    decreases es.len(),
{
    if es.len() == 0 {
        Seq::empty()
    } else {
        let front = dirs_scanned(es.drop_last());
        let e = es.last();
        if e.kind == EntryKind::Directory {
            front.push(
                DirectoryNodeView {
                    id: "dir_"@ + decimal((es.len() - 1) as nat),
                    path: e.path,
                    relative_path: e.relative_path,
                    children_count: 0,
                    file_count: 0,
                    dir_count: 0,
                    role_hint: None,
                },
            )
        } else {
            front
        }
    }
}

/// The entry is a file whose metadata could be read.
pub open spec fn is_file_entry(e: ScanEntryView) -> bool {
    e.kind == EntryKind::File && e.size is Some
}

/// The file entries of the walk, in order.
pub open spec fn file_entries(es: Seq<ScanEntryView>) -> Seq<ScanEntryView>
    decreases es.len(),
{
    if es.len() == 0 {
        Seq::empty()
    } else {
        let front = file_entries(es.drop_last());
        if is_file_entry(es.last()) {
            front.push(es.last())
        } else {
            front
        }
    }
}

/// The file node of a file entry, before roles, symbol counts and centrality.
pub open spec fn file_scanned(e: ScanEntryView) -> FileNodeView {
    let ext = crate::symbol::extractor::ext_text(e.path);
    FileNodeView {
        id: rel_file_id(e.relative_path),
        path: e.path,
        relative_path: e.relative_path,
        extension: ext,
        language: language_for(lowercase(ext)),
        size_bytes: match e.size {
            Some(n) => n,
            None => 0,
        },
        line_count: lines(e.content).len(),
        role: FileRole::Unknown,
        centrality_score: Ratio { num: 0, den: 1 },
        symbol_count: 0,
        hash: hex_of(sha256(vstd::utf8::encode_utf8(e.content))),
    }
}

/// The index of the last directory with relative path `rel`: the one that a
/// lookup by path finds.
pub open spec fn dir_slot(ds: Seq<DirectoryNodeView>, rel: Seq<char>) -> Option<int>
    decreases ds.len(),
{
    if ds.len() == 0 {
        None
    } else if ds.last().relative_path == rel {
        Some(ds.len() - 1)
    } else {
        dir_slot(ds.drop_last(), rel)
    }
}

/// The directory in which an entry at `rel` is counted: that of its parent.
pub open spec fn counted_in(ds: Seq<DirectoryNodeView>, rel: Seq<char>) -> Option<int> {
    match parent_dir(rel) {
        Some(p) => dir_slot(ds, p),
        None => None,
    }
}

/// How many of the paths `rels` are counted in directory `k`.
pub open spec fn count_in(ds: Seq<DirectoryNodeView>, rels: Seq<Seq<char>>, k: int) -> nat
    decreases rels.len(),
{
    if rels.len() == 0 {
        0
    } else {
        count_in(ds, rels.drop_last(), k) + if counted_in(ds, rels.last()) == Some(k) {
            1nat
        } else {
            0nat
        }
    }
}

/// The relative paths of file nodes.
pub open spec fn file_rels(fs: Seq<FileNodeView>) -> Seq<Seq<char>> {
    fs.map_values(|f: FileNodeView| f.relative_path)
}

/// The relative paths of directory nodes.
pub open spec fn dir_rels(ds: Seq<DirectoryNodeView>) -> Seq<Seq<char>> {
    ds.map_values(|d: DirectoryNodeView| d.relative_path)
}

/// The new directories `ds` with the files at `frels` and the directories at
/// `drels` counted in them.
pub open spec fn dirs_counted(ds: Seq<DirectoryNodeView>, frels: Seq<Seq<char>>, drels: Seq<Seq<char>>) -> Seq<
    DirectoryNodeView,
> {
    Seq::new(
        ds.len(),
        |k: int|
            {
                let fc = ds[k].file_count + count_in(ds, frels, k);
                let dc = ds[k].dir_count + count_in(ds, drels, k);
                DirectoryNodeView {
                    id: ds[k].id,
                    path: ds[k].path,
                    relative_path: ds[k].relative_path,
                    children_count: ds[k].children_count + count_in(ds, frels, k) + count_in(
                        ds,
                        drels,
                        k,
                    ),
                    file_count: fc,
                    dir_count: dc,
                    role_hint: ds[k].role_hint,
                }
            },
    )
}


/// The file nodes of the file entries of the walk.
pub open spec fn files_scanned(es: Seq<ScanEntryView>) -> Seq<FileNodeView> {
    file_entries(es).map_values(|e: ScanEntryView| file_scanned(e))
}

/// The id of the file at the relative path `rel`.
fn rel_file_id_exec(rel: &str) -> (r: String)
    ensures
        r@ == rel_file_id(rel@),
{
    let cs = chars_of(rel);
    let mut out: Vec<char> = Vec::new();
    let mut i: usize = 0;
    while i < cs.len()
        invariant
            i <= cs@.len(),
            cs@ == rel@,
            out@ == cs@.take(i as int).map_values(
                |c: char| if c == '/' || c == '\\' { '_' } else { c },
            ),
        decreases cs.len() - i,
    {
        let c = cs[i];
        out.push(if c == '/' || c == '\\' { '_' } else { c });
        assert(cs@.take(i + 1) =~= cs@.take(i as int).push(c));
        assert(out@ =~= cs@.take(i + 1).map_values(
            |c: char| if c == '/' || c == '\\' { '_' } else { c },
        ));
        i += 1;
    }
    assert(cs@.take(cs@.len() as int) =~= cs@);
    let mut id = owned("file_");
    let tail = string_of(out.as_slice());
    id.append(tail.as_str());
    id
}

/// The file node of a file entry, before roles, symbol counts and
/// centrality; nothing when its metadata could not be read.
pub fn process_file_entry(entry: &ScanEntry) -> (r: Option<FileNode>)
    ensures
        match r {
            Some(f) => is_file_entry(entry@) || (entry.kind != EntryKind::File && entry.size is Some),
            None => entry.size is None,
        },
        r matches Some(f) ==> f@ == file_scanned(entry@),
{
    let size = match entry.size {
        Some(n) => n,
        None => return None,
    };
    let pc = chars_of(entry.path.as_str());
    let extension = match extension_exec(pc.as_slice()) {
        Some(e) => string_of(e.as_slice()),
        None => String::new(),
    };
    let language = detect_language_from_extension(extension.as_str());
    let cc = chars_of(entry.content.as_str());
    let ls = lines_exec(cc.as_slice());
    let hash = compute_hash(entry.content.as_str());
    Some(
        FileNode {
            id: rel_file_id_exec(entry.relative_path.as_str()),
            path: entry.path.clone(),
            relative_path: entry.relative_path.clone(),
            extension,
            language,
            size_bytes: size,
            line_count: ls.len(),
            role: FileRole::Unknown,
            centrality_score: Ratio::zero(),
            symbol_count: 0,
            hash,
        },
    )
}

/// The last directory of `ds` with relative path `rel`.
fn dir_slot_exec(ds: &Vec<DirectoryNode>, rel: &String) -> (r: Option<usize>)
    ensures
        match r {
            Some(k) => dir_slot(dir_views(ds@), rel@) == Some(k as int) && k < ds@.len(),
            None => dir_slot(dir_views(ds@), rel@) is None,
        },
{
    let ghost dv = dir_views(ds@);
    let mut j = ds.len();
    assert(dv.take(j as int) =~= dv);
    while j > 0
        invariant
            j <= ds@.len(),
            dv == dir_views(ds@),
            dir_slot(dv, rel@) == dir_slot(dv.take(j as int), rel@),
        decreases j,
    {
        assert(dv.take(j as int).last() == ds@[j - 1]@);
        assert(dv.take(j as int).drop_last() =~= dv.take(j - 1));
        if ds[j - 1].relative_path == *rel {
            return Some(j - 1);
        }
        j -= 1;
    }
    None
}

/// The new directory in which an entry at `rel` is counted.
fn counted_in_exec(ds: &Vec<DirectoryNode>, rel: &str) -> (r: Option<usize>)
    ensures
        match r {
            Some(k) => counted_in(dir_views(ds@), rel@) == Some(k as int) && k < ds@.len(),
            None => counted_in(dir_views(ds@), rel@) is None,
        },
{
    match get_parent_dir(rel) {
        Some(p) => dir_slot_exec(ds, &p),
        None => None,
    }
}

/// `count_in` is at most the number of paths.
proof fn lemma_count_in_bound(ds: Seq<DirectoryNodeView>, rels: Seq<Seq<char>>, k: int)
    ensures
        count_in(ds, rels, k) <= rels.len(),
    decreases rels.len(),
{
    if rels.len() > 0 {
        lemma_count_in_bound(ds, rels.drop_last(), k);
    }
}

/// Counts, for every directory of `ds`, the paths among `rels` counted in it.
fn count_paths(ds: &Vec<DirectoryNode>, rels: &Vec<String>) -> (r: Vec<usize>)
    ensures
        r@.len() == ds@.len(),
        forall|k: int|
            0 <= k < ds@.len() ==> #[trigger] r@[k] == count_in(
                dir_views(ds@),
                rels@.map_values(|s: String| s@),
                k,
            ),
{
    let ghost dv = dir_views(ds@);
    let ghost rv = rels@.map_values(|s: String| s@);
    let mut counts: Vec<usize> = Vec::new();
    let mut k: usize = 0;
    while k < ds.len()
        invariant
            k <= ds@.len(),
            counts@.len() == k,
            forall|j: int| 0 <= j < k ==> #[trigger] counts@[j] == 0,
        decreases ds.len() - k,
    {
        counts.push(0);
        k += 1;
    }
    let mut i: usize = 0;
    while i < rels.len()
        invariant
            i <= rels@.len(),
            dv == dir_views(ds@),
            rv == rels@.map_values(|s: String| s@),
            counts@.len() == ds@.len(),
            forall|j: int|
                0 <= j < ds@.len() ==> #[trigger] counts@[j] == count_in(dv, rv.take(i as int), j),
        decreases rels.len() - i,
    {
        assert(rv.take(i + 1).drop_last() =~= rv.take(i as int));
        assert(rv.take(i + 1).last() == rels@[i as int]@);
        match counted_in_exec(ds, rels[i].as_str()) {
            Some(k) => {
                proof {
                    lemma_count_in_bound(dv, rv.take(i as int), k as int);
                }
                counts[k] = counts[k] + 1;
            },
            None => {},
        }
        i += 1;
    }
    assert(rv.take(rels@.len() as int) =~= rv);
    counts
}

/// A copy of the directory node `d` with counts raised by `files` and `dirs`.
fn dir_plus(d: &DirectoryNode, files: usize, dirs: usize) -> (r: DirectoryNode)
    requires
        d.children_count + files + dirs <= usize::MAX,
        d.file_count + files <= usize::MAX,
        d.dir_count + dirs <= usize::MAX,
    ensures
        r@ == (DirectoryNodeView {
            children_count: (d.children_count + files + dirs) as nat,
            file_count: (d.file_count + files) as nat,
            dir_count: (d.dir_count + dirs) as nat,
            ..d@
        }),
{
    DirectoryNode {
        id: d.id.clone(),
        path: d.path.clone(),
        relative_path: d.relative_path.clone(),
        children_count: d.children_count + files + dirs,
        file_count: d.file_count + files,
        dir_count: d.dir_count + dirs,
        role_hint: match &d.role_hint {
            Some(h) => Some(h.clone()),
            None => None,
        },
    }
}

/// Directories fresh from the walk have nothing counted yet.
proof fn lemma_dirs_scanned_zero(es: Seq<ScanEntryView>)
    ensures
        forall|j: int|
            0 <= j < dirs_scanned(es).len() ==> (#[trigger] dirs_scanned(es)[j]).children_count == 0
                && dirs_scanned(es)[j].file_count == 0 && dirs_scanned(es)[j].dir_count == 0,
    decreases es.len(),
{
    if es.len() > 0 {
        lemma_dirs_scanned_zero(es.drop_last());
    }
}

/// A walk has at least as many entries as it has files and directories.
proof fn lemma_walk_counts(es: Seq<ScanEntryView>)
    ensures
        file_entries(es).len() + dirs_scanned(es).len() <= es.len(),
    decreases es.len(),
{
    if es.len() > 0 {
        lemma_walk_counts(es.drop_last());
    }
}

/// The relative paths of file nodes, as strings.
fn file_rel_strings(fs: &Vec<FileNode>) -> (r: Vec<String>)
    ensures
        r@.map_values(|s: String| s@) == file_rels(file_views(fs@)),
{
    let mut out: Vec<String> = Vec::new();
    let mut i: usize = 0;
    while i < fs.len()
        invariant
            i <= fs@.len(),
            out@.map_values(|s: String| s@) == file_rels(file_views(fs@)).take(i as int),
        decreases fs.len() - i,
    {
        assert(file_rels(file_views(fs@))[i as int] == fs@[i as int].relative_path@);
        let ghost before = out@;
        let r = fs[i].relative_path.clone();
        out.push(r);
        assert(out@.map_values(|s: String| s@) =~= before.map_values(|s: String| s@).push(r@));
        assert(out@.map_values(|s: String| s@) =~= file_rels(file_views(fs@)).take(i + 1));
        i += 1;
    }
    assert(file_rels(file_views(fs@)).take(fs@.len() as int) =~= file_rels(file_views(fs@)));
    out
}

/// Appends the relative paths of directory nodes to `out`.
fn push_dir_rels(ds: &Vec<DirectoryNode>, out: &mut Vec<String>)
    ensures
        final(out)@.map_values(|s: String| s@) == old(out)@.map_values(|s: String| s@) + dir_rels(
            dir_views(ds@),
        ),
{
    let ghost start = out@.map_values(|s: String| s@);
    let mut i: usize = 0;
    while i < ds.len()
        invariant
            i <= ds@.len(),
            out@.map_values(|s: String| s@) == start + dir_rels(dir_views(ds@)).take(i as int),
        decreases ds.len() - i,
    {
        assert(dir_rels(dir_views(ds@))[i as int] == ds@[i as int].relative_path@);
        let ghost before = out@;
        let r = ds[i].relative_path.clone();
        out.push(r);
        assert(out@.map_values(|s: String| s@) =~= before.map_values(|s: String| s@).push(r@));
        assert(out@.map_values(|s: String| s@) =~= start + dir_rels(dir_views(ds@)).take(i + 1));
        i += 1;
    }
    assert(dir_rels(dir_views(ds@)).take(ds@.len() as int) =~= dir_rels(dir_views(ds@)));
}

/// The symbols extracted from a file entry: none where extraction fails.
pub open spec fn extracted(e: ScanEntryView) -> Seq<SymbolView> {
    match file_symbols(e.path, e.content) {
        Ok(ss) => ss,
        Err(_) => Seq::empty(),
    }
}

/// The symbols extracted from the file entries `fes`, file after file.
pub open spec fn symbols_extracted(fes: Seq<ScanEntryView>) -> Seq<SymbolView>
    decreases fes.len(),
{
    if fes.len() == 0 {
        Seq::empty()
    } else {
        symbols_extracted(fes.drop_last()) + extracted(fes.last())
    }
}

/// Extraction runs without failing on every file entry of the walk.
pub open spec fn entries_ready(es: Seq<ScanEntryView>) -> bool {
    forall|i: int|
        0 <= i < es.len() && is_file_entry(#[trigger] es[i]) ==> file_ready(es[i].path, es[i].content)
}

/// How many of the symbols `ss` belong to the file with id `id`.
pub open spec fn count_for_file(ss: Seq<SymbolView>, id: Seq<char>) -> nat
    decreases ss.len(),
{
    if ss.len() == 0 {
        0
    } else {
        count_for_file(ss.drop_last(), id) + if ss.last().file_id == id {
            1nat
        } else {
            0nat
        }
    }
}

/// The files with their symbols counted.
pub open spec fn files_with_counts(fs: Seq<FileNodeView>, ss: Seq<SymbolView>) -> Seq<FileNodeView> {
    Seq::new(
        fs.len(),
        |i: int| FileNodeView { symbol_count: count_for_file(ss, fs[i].id), ..fs[i] },
    )
}

/// The files with their roles.
pub open spec fn files_with_roles(fs: Seq<FileNodeView>) -> Seq<FileNodeView> {
    Seq::new(fs.len(), |i: int| FileNodeView { role: role_of(fs[i].relative_path), ..fs[i] })
}

/// The file an import names: the first whose name without extension ends
/// the import path, or whose relative path contains it.
pub open spec fn import_target(fs: Seq<FileNodeView>, ip: Seq<char>) -> Option<Seq<char>>
    decreases fs.len(),
{
    if fs.len() == 0 {
        None
    } else if finishes(ip, file_base(fs[0].relative_path)) || contains_text(
        fs[0].relative_path,
        ip,
    ) {
        Some(fs[0].id)
    } else {
        import_target(fs.drop_first(), ip)
    }
}

/// The id of the first symbol named `name`.
pub open spec fn symbol_by_name(ss: Seq<SymbolView>, name: Seq<char>) -> Option<Seq<char>>
    decreases ss.len(),
{
    if ss.len() == 0 {
        None
    } else if ss[0].name == name {
        Some(ss[0].id)
    } else {
        symbol_by_name(ss.drop_first(), name)
    }
}

/// The import relationships of the symbols `ss`, each from the file of an
/// import to the file it names, with confidence 0.8.
pub open spec fn import_rels(fs: Seq<FileNodeView>, ss: Seq<SymbolView>) -> Seq<RelationshipView>
    decreases ss.len(),
{
    if ss.len() == 0 {
        Seq::empty()
    } else {
        let front = import_rels(fs, ss.drop_last());
        let s = ss.last();
        if s.kind == SymbolKind::Import {
            match import_target(fs, s.name) {
                Some(t) => front.push(
                    RelationshipView {
                        from_id: s.file_id,
                        to_id: t,
                        kind: RelationshipKind::Imports,
                        confidence: 80,
                    },
                ),
                None => front,
            }
        } else {
            front
        }
    }
}

/// The inheritance relationships among `all`, for the classes and
/// interfaces of `ss`: to the first symbol named as parent in the signature,
/// with confidence 0.9.
pub open spec fn extends_rels(all: Seq<SymbolView>, ss: Seq<SymbolView>) -> Seq<RelationshipView>
    decreases ss.len(),
{
    if ss.len() == 0 {
        Seq::empty()
    } else {
        let front = extends_rels(all, ss.drop_last());
        let s = ss.last();
        if s.kind == SymbolKind::Class || s.kind == SymbolKind::Interface {
            match parent_class(s.signature) {
                Some(p) => match symbol_by_name(all, p) {
                    Some(pid) => front.push(
                        RelationshipView {
                            from_id: s.id,
                            to_id: pid,
                            kind: RelationshipKind::Extends,
                            confidence: 90,
                        },
                    ),
                    None => front,
                },
                None => front,
            }
        } else {
            front
        }
    }
}

/// How many relationships end at `id`.
pub open spec fn incoming(rs: Seq<RelationshipView>, id: Seq<char>) -> nat
    decreases rs.len(),
{
    if rs.len() == 0 {
        0
    } else {
        incoming(rs.drop_last(), id) + if rs.last().to_id == id {
            1nat
        } else {
            0nat
        }
    }
}

/// How many relationships start at `id`.
pub open spec fn outgoing(rs: Seq<RelationshipView>, id: Seq<char>) -> nat
    decreases rs.len(),
{
    if rs.len() == 0 {
        0
    } else {
        outgoing(rs.drop_last(), id) + if rs.last().from_id == id {
            1nat
        } else {
            0nat
        }
    }
}

/// The weight of an element: incoming relationships count twice.
pub open spec fn weight(rs: Seq<RelationshipView>, id: Seq<char>) -> nat {
    2 * incoming(rs, id) + outgoing(rs, id)
}

/// The largest weight of the files `fs`, or 0.
pub open spec fn max_weight(fs: Seq<FileNodeView>, rs: Seq<RelationshipView>) -> nat
    decreases fs.len(),
{
    if fs.len() == 0 {
        0
    } else {
        let m = max_weight(fs.drop_last(), rs);
        let w = weight(rs, fs.last().id);
        if w > m {
            w
        } else {
            m
        }
    }
}

/// The centrality of a file: its weight over the largest weight, or zero
/// when no file has any.
pub open spec fn file_centrality(fs: Seq<FileNodeView>, rs: Seq<RelationshipView>, id: Seq<char>) -> Ratio {
    let m = max_weight(fs, rs);
    if m > 0 {
        Ratio { num: weight(rs, id) as u128, den: m as u128 }
    } else {
        Ratio { num: 0, den: 1 }
    }
}

/// The files with their centrality.
pub open spec fn files_with_centrality(fs: Seq<FileNodeView>, rs: Seq<RelationshipView>) -> Seq<
    FileNodeView,
> {
    Seq::new(
        fs.len(),
        |i: int| FileNodeView { centrality_score: file_centrality(fs, rs, fs[i].id), ..fs[i] },
    )
}

/// How many of `symbols` have the file id `id`.
fn count_symbols_of(symbols: &Vec<Symbol>, id: &String) -> (r: usize)
    ensures
        r == count_for_file(symbol_views(symbols@), id@),
{
    let ghost sv = symbol_views(symbols@);
    let mut n: usize = 0;
    let mut i: usize = 0;
    while i < symbols.len()
        invariant
            i <= symbols@.len(),
            sv == symbol_views(symbols@),
            n == count_for_file(sv.take(i as int), id@),
            n <= i,
        decreases symbols.len() - i,
    {
        assert(sv.take(i + 1).drop_last() =~= sv.take(i as int));
        assert(sv.take(i + 1).last() == symbols@[i as int]@);
        if symbols[i].file_id == *id {
            n += 1;
        }
        i += 1;
    }
    assert(sv.take(symbols@.len() as int) =~= sv);
    n
}

/// Incoming relationships are at most all of them, and so are outgoing ones.
proof fn lemma_in_out_bound(rs: Seq<RelationshipView>, id: Seq<char>)
    ensures
        incoming(rs, id) <= rs.len(),
        outgoing(rs, id) <= rs.len(),
    decreases rs.len(),
{
    if rs.len() > 0 {
        lemma_in_out_bound(rs.drop_last(), id);
    }
}

/// The weight of the element `id` among `rels`.
fn weight_of(rels: &Vec<Relationship>, id: &String) -> (r: u128)
    ensures
        r == weight(rel_views(rels@), id@),
        r <= 3 * rels@.len(),
{
    let ghost rv = rel_views(rels@);
    let mut inc: usize = 0;
    let mut out: usize = 0;
    let mut i: usize = 0;
    while i < rels.len()
        invariant
            i <= rels@.len(),
            rv == rel_views(rels@),
            inc == incoming(rv.take(i as int), id@),
            out == outgoing(rv.take(i as int), id@),
            inc <= i,
            out <= i,
        decreases rels.len() - i,
    {
        assert(rv.take(i + 1).drop_last() =~= rv.take(i as int));
        assert(rv.take(i + 1).last() == rels@[i as int]@);
        if rels[i].to_id == *id {
            inc += 1;
        }
        if rels[i].from_id == *id {
            out += 1;
        }
        i += 1;
    }
    assert(rv.take(rels@.len() as int) =~= rv);
    2 * (inc as u128) + (out as u128)
}

/// The symbols after a build over the walk `es`: those before, then those of
/// each file entry.
pub open spec fn build_symbols(old_syms: Seq<SymbolView>, es: Seq<ScanEntryView>) -> Seq<SymbolView> {
    old_syms + symbols_extracted(file_entries(es))
}

/// The files after a build, with symbol counts and roles but before centrality.
pub open spec fn build_roles(old_syms: Seq<SymbolView>, es: Seq<ScanEntryView>) -> Seq<FileNodeView> {
    files_with_roles(files_with_counts(files_scanned(es), build_symbols(old_syms, es)))
}

/// The relationships after a build.
pub open spec fn build_rels(
    old_syms: Seq<SymbolView>,
    old_rels: Seq<RelationshipView>,
    es: Seq<ScanEntryView>,
) -> Seq<RelationshipView> {
    let syms = build_symbols(old_syms, es);
    old_rels + import_rels(build_roles(old_syms, es), syms) + extends_rels(syms, syms)
}

/// The files after a build.
pub open spec fn build_files(
    old_syms: Seq<SymbolView>,
    old_rels: Seq<RelationshipView>,
    es: Seq<ScanEntryView>,
) -> Seq<FileNodeView> {
    files_with_centrality(build_roles(old_syms, es), build_rels(old_syms, old_rels, es))
}

/// The directories after a build: those before, then those of the walk with
/// their files and subdirectories counted.
pub open spec fn build_dirs(old_dirs: Seq<DirectoryNodeView>, es: Seq<ScanEntryView>) -> Seq<
    DirectoryNodeView,
> {
    old_dirs + dirs_counted(
        dirs_scanned(es),
        file_rels(files_scanned(es)),
        dir_rels(old_dirs + dirs_scanned(es)),
    )
}

/// A copy of an optional string.
fn copy_opt(o: &Option<String>) -> (r: Option<String>)
    ensures
        opt_text(r) == opt_text(*o),
{
    match o {
        Some(t) => Some(t.clone()),
        None => None,
    }
}

/// A copy of a list of strings.
fn copy_strings(v: &Vec<String>) -> (r: Vec<String>)
    ensures
        r@.map_values(|t: String| t@) == v@.map_values(|t: String| t@),
{
    let mut out: Vec<String> = Vec::new();
    let mut i: usize = 0;
    while i < v.len()
        invariant
            i <= v@.len(),
            out@.map_values(|t: String| t@) == v@.take(i as int).map_values(|t: String| t@),
        decreases v.len() - i,
    {
        let t = v[i].clone();
        let ghost before = out@;
        out.push(t);
        assert(out@.map_values(|t: String| t@) =~= before.map_values(|t: String| t@).push(t@));
        assert(v@.take(i + 1).map_values(|t: String| t@) =~= v@.take(i as int).map_values(
            |t: String| t@,
        ).push(v@[i as int]@));
        i += 1;
    }
    assert(v@.take(v@.len() as int) =~= v@);
    out
}

/// A copy of a symbol.
pub fn copy_symbol(s: &Symbol) -> (r: Symbol)
    ensures
        r@ == s@,
{
    let mut params: Vec<crate::map::schema::Parameter> = Vec::new();
    let mut i: usize = 0;
    while i < s.parameters.len()
        invariant
            i <= s.parameters@.len(),
            crate::map::schema::parameter_views(params@) == crate::map::schema::parameter_views(
                s.parameters@.take(i as int),
            ),
        decreases s.parameters.len() - i,
    {
        let p = &s.parameters[i];
        let q = crate::map::schema::Parameter {
            name: p.name.clone(),
            type_annotation: copy_opt(&p.type_annotation),
            default_value: copy_opt(&p.default_value),
        };
        let ghost before = params@;
        params.push(q);
        assert(crate::map::schema::parameter_views(params@) =~= crate::map::schema::parameter_views(
            before,
        ).push(q@));
        assert(s.parameters@.take(i + 1) =~= s.parameters@.take(i as int).push(*p));
        assert(crate::map::schema::parameter_views(s.parameters@.take(i + 1))
            =~= crate::map::schema::parameter_views(s.parameters@.take(i as int)).push(p@));
        i += 1;
    }
    assert(s.parameters@.take(s.parameters@.len() as int) =~= s.parameters@);
    Symbol {
        id: s.id.clone(),
        name: s.name.clone(),
        kind: s.kind,
        file_id: s.file_id.clone(),
        file_path: s.file_path.clone(),
        start_line: s.start_line,
        end_line: s.end_line,
        start_col: s.start_col,
        end_col: s.end_col,
        signature: s.signature.clone(),
        docstring: copy_opt(&s.docstring),
        parent_id: copy_opt(&s.parent_id),
        visibility: s.visibility,
        is_async: s.is_async,
        is_static: s.is_static,
        parameters: params,
        return_type: copy_opt(&s.return_type),
        type_parameters: copy_strings(&s.type_parameters),
    }
}

/// A copy of a file node.
pub fn copy_file(f: &FileNode) -> (r: FileNode)
    ensures
        r@ == f@,
{
    FileNode {
        id: f.id.clone(),
        path: f.path.clone(),
        relative_path: f.relative_path.clone(),
        extension: f.extension.clone(),
        language: f.language.clone(),
        size_bytes: f.size_bytes,
        line_count: f.line_count,
        role: f.role,
        centrality_score: f.centrality_score,
        symbol_count: f.symbol_count,
        hash: f.hash.clone(),
    }
}

/// A copy of a relationship.
fn copy_rel(r: &Relationship) -> (c: Relationship)
    ensures
        c@ == r@,
{
    Relationship { from_id: r.from_id.clone(), to_id: r.to_id.clone(), kind: r.kind, confidence: r.confidence }
}

/// A weight is at most that of the heaviest file, which is at most three
/// times the number of relationships.
proof fn lemma_max_weight(fs: Seq<FileNodeView>, rs: Seq<RelationshipView>)
    ensures
        forall|i: int| 0 <= i < fs.len() ==> weight(rs, #[trigger] fs[i].id) <= max_weight(fs, rs),
        max_weight(fs, rs) <= 3 * rs.len(),
    decreases fs.len(),
{
    if fs.len() > 0 {
        lemma_max_weight(fs.drop_last(), rs);
        lemma_in_out_bound(rs, fs.last().id);
        assert forall|i: int| 0 <= i < fs.len() implies weight(rs, #[trigger] fs[i].id) <= max_weight(
            fs,
            rs,
        ) by {
            if i < fs.len() - 1 {
                assert(fs.drop_last()[i] == fs[i]);
            }
        }
    }
}

/// Every file's centrality is a ratio between 0 and 1.
pub open spec fn centralities_unit(fs: Seq<FileNodeView>) -> bool {
    forall|i: int| 0 <= i < fs.len() ==> (#[trigger] fs[i]).centrality_score.unit()
}

/// Centralities computed from relationships are ratios between 0 and 1.
pub proof fn lemma_centrality_unit(fs: Seq<FileNodeView>, rs: Seq<RelationshipView>)
    requires
        rs.len() <= usize::MAX,
    ensures
        centralities_unit(files_with_centrality(fs, rs)),
{
    lemma_max_weight(fs, rs);
    assert forall|i: int| 0 <= i < fs.len() implies (#[trigger] files_with_centrality(fs, rs)[i]).centrality_score.unit() by {
        lemma_in_out_bound(rs, fs[i].id);
    }
}

/// The relative path of the first file with id `id`.
pub open spec fn file_rel_by_id(fs: Seq<FileNodeView>, id: Seq<char>) -> Option<Seq<char>>
    decreases fs.len(),
{
    if fs.len() == 0 {
        None
    } else if fs[0].id == id {
        Some(fs[0].relative_path)
    } else {
        file_rel_by_id(fs.drop_first(), id)
    }
}

/// The file path of the first symbol with id `id`.
pub open spec fn symbol_path_by_id(ss: Seq<SymbolView>, id: Seq<char>) -> Option<Seq<char>>
    decreases ss.len(),
{
    if ss.len() == 0 {
        None
    } else if ss[0].id == id {
        Some(ss[0].file_path)
    } else {
        symbol_path_by_id(ss.drop_first(), id)
    }
}

/// The path of the element with id `id`: a file's relative path for a file
/// id, else the file path of the symbol.
pub open spec fn path_for_id(fs: Seq<FileNodeView>, ss: Seq<SymbolView>, id: Seq<char>) -> Option<
    Seq<char>,
> {
    if begins(id, "file_"@) {
        file_rel_by_id(fs, id)
    } else {
        symbol_path_by_id(ss, id)
    }
}

/// The text of an optional path, or the empty text.
pub open spec fn or_empty(o: Option<Seq<char>>) -> Seq<char> {
    match o {
        Some(t) => t,
        None => Seq::empty(),
    }
}

/// The dependencies of the element `id`: the relationships that start there.
pub open spec fn deps_from(
    rs: Seq<RelationshipView>,
    fs: Seq<FileNodeView>,
    ss: Seq<SymbolView>,
    id: Seq<char>,
) -> Seq<DependencyInfoView>
    decreases rs.len(),
{
    if rs.len() == 0 {
        Seq::empty()
    } else {
        let front = deps_from(rs.drop_last(), fs, ss, id);
        let r = rs.last();
        if r.from_id == id {
            front.push(
                DependencyInfoView {
                    target_id: r.to_id,
                    target_path: or_empty(path_for_id(fs, ss, r.to_id)),
                    relationship: r.kind,
                },
            )
        } else {
            front
        }
    }
}

/// The dependents of the element `id`: the relationships that end there.
pub open spec fn deps_to(
    rs: Seq<RelationshipView>,
    fs: Seq<FileNodeView>,
    ss: Seq<SymbolView>,
    id: Seq<char>,
) -> Seq<DependencyInfoView>
    decreases rs.len(),
{
    if rs.len() == 0 {
        Seq::empty()
    } else {
        let front = deps_to(rs.drop_last(), fs, ss, id);
        let r = rs.last();
        if r.to_id == id {
            front.push(
                DependencyInfoView {
                    target_id: r.from_id,
                    target_path: or_empty(path_for_id(fs, ss, r.from_id)),
                    relationship: r.kind,
                },
            )
        } else {
            front
        }
    }
}

/// The symbols of the file with id `id`.
pub open spec fn symbols_of_file(ss: Seq<SymbolView>, id: Seq<char>) -> Seq<SymbolView>
    decreases ss.len(),
{
    if ss.len() == 0 {
        Seq::empty()
    } else {
        let front = symbols_of_file(ss.drop_last(), id);
        if ss.last().file_id == id {
            front.push(ss.last())
        } else {
            front
        }
    }
}

/// The first file whose relative path is `fp` or whose path contains `fp`.
pub open spec fn summary_file(fs: Seq<FileNodeView>, fp: Seq<char>) -> Option<int>
    decreases fs.len(),
{
    if fs.len() == 0 {
        None
    } else if fs[0].relative_path == fp || contains_text(fs[0].path, fp) {
        Some(0)
    } else {
        match summary_file(fs.drop_first(), fp) {
            Some(i) => Some(i + 1),
            None => None,
        }
    }
}

/// A file summary as text and numbers.
pub struct FileSummaryView {
    pub file: FileNodeView,
    pub symbols: Seq<SymbolView>,
    pub imports: Seq<ImportInfoView>,
    pub dependencies: Seq<DependencyInfoView>,
    pub dependents: Seq<DependencyInfoView>,
    pub one_line_summary: Seq<char>,
}

/// The view of a file summary.
pub open spec fn summary_view(s: FileSummary) -> FileSummaryView {
    FileSummaryView {
        file: s.file@,
        symbols: symbol_views(s.symbols@),
        imports: import_views(s.imports@),
        dependencies: dep_views(s.dependencies@),
        dependents: dep_views(s.dependents@),
        one_line_summary: s.one_line_summary@,
    }
}

/// The summary of the file `fp`, or the error naming it.
pub open spec fn file_summary(
    fs: Seq<FileNodeView>,
    ss: Seq<SymbolView>,
    rs: Seq<RelationshipView>,
    fp: Seq<char>,
) -> Result<FileSummaryView, Seq<char>> {
    match summary_file(fs, fp) {
        None => Err("File not found: "@ + fp),
        Some(i) => {
            let f = fs[i];
            let own = symbols_of_file(ss, f.id);
            Ok(
                FileSummaryView {
                    file: f,
                    symbols: own,
                    imports: imports_of(own),
                    dependencies: deps_from(rs, fs, ss, f.id),
                    dependents: deps_to(rs, fs, ss, f.id),
                    one_line_summary: one_line_summary(f, own),
                },
            )
        },
    }
}

/// The top-level directories: relative paths that are one non-empty piece.
pub open spec fn top_dirs(ds: Seq<DirectoryNodeView>) -> Seq<Seq<char>>
    decreases ds.len(),
{
    if ds.len() == 0 {
        Seq::empty()
    } else {
        let front = top_dirs(ds.drop_last());
        let r = ds.last().relative_path;
        if split_char(r, '/').len() == 1 && r.len() > 0 {
            front.push(r)
        } else {
            front
        }
    }
}

/// The key files: those with centrality above one half.
pub open spec fn key_files_all(fs: Seq<FileNodeView>) -> Seq<KeyFileView>
    decreases fs.len(),
{
    if fs.len() == 0 {
        Seq::empty()
    } else {
        let front = key_files_all(fs.drop_last());
        let f = fs.last();
        if 2 * f.centrality_score.num > f.centrality_score.den {
            front.push(
                KeyFileView {
                    path: f.relative_path,
                    role: f.role,
                    centrality: f.centrality_score,
                },
            )
        } else {
            front
        }
    }
}

/// At most the first `n` items of `s`.
pub open spec fn first_n<A>(s: Seq<A>, n: int) -> Seq<A> {
    if s.len() > n {
        s.take(n)
    } else {
        s
    }
}

/// The centrality of the first file with id `id`, or zero.
pub open spec fn centrality_by_id(fs: Seq<FileNodeView>, id: Seq<char>) -> Ratio
    decreases fs.len(),
{
    if fs.len() == 0 {
        Ratio { num: 0, den: 1 }
    } else if fs[0].id == id {
        fs[0].centrality_score
    } else {
        centrality_by_id(fs.drop_first(), id)
    }
}

/// The index entries of the classes, functions and interfaces of `ss`.
pub open spec fn index_all(ss: Seq<SymbolView>, fs: Seq<FileNodeView>) -> Seq<SymbolIndexEntryView>
    decreases ss.len(),
{
    if ss.len() == 0 {
        Seq::empty()
    } else {
        let front = index_all(ss.drop_last(), fs);
        let s = ss.last();
        if s.kind == SymbolKind::Class || s.kind == SymbolKind::Function || s.kind
            == SymbolKind::Interface {
            front.push(
                SymbolIndexEntryView {
                    id: s.id,
                    name: s.name,
                    kind: s.kind,
                    file_path: s.file_path,
                    centrality: centrality_by_id(fs, s.file_id),
                },
            )
        } else {
            front
        }
    }
}

/// The name of the project: the last component of its root, or `project`.
pub open spec fn root_name(root: Seq<char>) -> Seq<char> {
    match file_name(root) {
        Some(n) => n,
        None => "project"@,
    }
}

/// The centrality class of an element referenced `inc` times: 10 or more is
/// high, 3 to 9 medium, fewer low.
pub open spec fn level_for(inc: nat) -> CentralityLevel {
    if inc >= 10 {
        CentralityLevel::High
    } else if inc >= 3 {
        CentralityLevel::Medium
    } else {
        CentralityLevel::Low
    }
}

/// The centrality of the element `id` among `nsym` symbols.
pub open spec fn centrality_of(rs: Seq<RelationshipView>, nsym: nat, id: Seq<char>) -> CentralityView {
    let inc = incoming(rs, id);
    let out = outgoing(rs, id);
    let level = level_for(inc);
    let tail = " elements, calls "@ + decimal(out) + " others"@;
    CentralityView {
        score: Ratio {
            num: (2 * inc + out) as u128,
            den: (3 * (if nsym > 1 {
                nsym
            } else {
                1
            })) as u128,
        },
        level,
        incoming_edges: inc,
        outgoing_edges: out,
        description: match level {
            CentralityLevel::High => "Critical element: referenced by "@ + decimal(inc) + " other"@
                + tail,
            CentralityLevel::Medium => "Moderate impact: referenced by "@ + decimal(inc) + tail,
            CentralityLevel::Low => "Incidental element: referenced by "@ + decimal(inc) + tail,
        },
    }
}

/// The sum of the line counts of `fs`.
pub open spec fn sum_lines(fs: Seq<FileNodeView>) -> nat
    decreases fs.len(),
{
    if fs.len() == 0 {
        0
    } else {
        sum_lines(fs.drop_last()) + fs.last().line_count
    }
}

/// The sum of the sizes of `fs`.
pub open spec fn sum_sizes(fs: Seq<FileNodeView>) -> nat
    decreases fs.len(),
{
    if fs.len() == 0 {
        0
    } else {
        sum_sizes(fs.drop_last()) + fs.last().size_bytes as nat
    }
}

/// The first position of `k` among the names of `t`.
pub open spec fn key_pos(t: Seq<(Seq<char>, nat)>, k: Seq<char>) -> Option<int>
    decreases t.len(),
{
    if t.len() == 0 {
        None
    } else if t[0].0 == k {
        Some(0)
    } else {
        match key_pos(t.drop_first(), k) {
            Some(i) => Some(i + 1),
            None => None,
        }
    }
}

/// How often each name occurs in `ks`, names in the order they first occur.
pub open spec fn tally(ks: Seq<Seq<char>>) -> Seq<(Seq<char>, nat)>
    decreases ks.len(),
{
    if ks.len() == 0 {
        Seq::empty()
    } else {
        let t = tally(ks.drop_last());
        let k = ks.last();
        match key_pos(t, k) {
            Some(j) => t.update(j, (k, t[j].1 + 1)),
            None => t.push((k, 1)),
        }
    }
}

/// The languages of the files, in order.
pub open spec fn file_languages(fs: Seq<FileNodeView>) -> Seq<Seq<char>> {
    fs.map_values(|f: FileNodeView| f.language)
}

/// The printed roles of the files, in order.
pub open spec fn file_role_texts(fs: Seq<FileNodeView>) -> Seq<Seq<char>> {
    fs.map_values(|f: FileNodeView| role_text(f.role))
}

/// A project skeleton as text and numbers.
pub struct ProjectSkeletonView {
    pub root_name: Seq<char>,
    pub top_level_dirs: Seq<Seq<char>>,
    pub key_files: Seq<KeyFileView>,
    pub symbol_index: Seq<SymbolIndexEntryView>,
}

/// The view of a project skeleton.
pub open spec fn skeleton_view(k: ProjectSkeleton) -> ProjectSkeletonView {
    ProjectSkeletonView {
        root_name: k.root_name@,
        top_level_dirs: k.top_level_dirs@.map_values(|t: String| t@),
        key_files: k.key_files@.map_values(|f: KeyFile| f@),
        symbol_index: k.symbol_index@.map_values(|e: SymbolIndexEntry| e@),
    }
}

/// The skeleton of a map: the project's name, its top-level directories, up
/// to 20 key files and up to 100 index entries.
pub open spec fn skeleton_of(
    root: Seq<char>,
    fs: Seq<FileNodeView>,
    ds: Seq<DirectoryNodeView>,
    ss: Seq<SymbolView>,
) -> ProjectSkeletonView {
    ProjectSkeletonView {
        root_name: root_name(root),
        top_level_dirs: top_dirs(ds),
        key_files: first_n(key_files_all(fs), 20),
        symbol_index: first_n(index_all(ss, fs), 100),
    }
}

/// Map statistics as text and numbers.
pub struct MapStatsView {
    pub total_files: nat,
    pub total_directories: nat,
    pub total_symbols: nat,
    pub total_lines: nat,
    pub total_size_bytes: nat,
    pub languages: Seq<(Seq<char>, nat)>,
    pub roles: Seq<(Seq<char>, nat)>,
}

/// The view of map statistics.
pub open spec fn stats_view(m: MapStats) -> MapStatsView {
    MapStatsView {
        total_files: m.total_files as nat,
        total_directories: m.total_directories as nat,
        total_symbols: m.total_symbols as nat,
        total_lines: m.total_lines as nat,
        total_size_bytes: m.total_size_bytes as nat,
        languages: tally_views(m.languages@),
        roles: tally_views(m.roles@),
    }
}

/// The statistics of a map.
pub open spec fn stats_of(
    fs: Seq<FileNodeView>,
    ds: Seq<DirectoryNodeView>,
    ss: Seq<SymbolView>,
) -> MapStatsView {
    MapStatsView {
        total_files: fs.len(),
        total_directories: ds.len(),
        total_symbols: ss.len(),
        total_lines: sum_lines(fs),
        total_size_bytes: sum_sizes(fs),
        languages: tally(file_languages(fs)),
        roles: tally(file_role_texts(fs)),
    }
}

/// Where `k` is among the names of `t`.
fn key_pos_exec(t: &Vec<(String, usize)>, k: &String) -> (r: Option<usize>)
    ensures
        match r {
            Some(j) => key_pos(tally_views(t@), k@) == Some(j as int) && j < t@.len(),
            None => key_pos(tally_views(t@), k@) is None,
        },
{
    let ghost tv = tally_views(t@);
    let mut i: usize = 0;
    assert(tv.skip(0) =~= tv);
    while i < t.len()
        invariant
            i <= t@.len(),
            tv == tally_views(t@),
            key_pos(tv, k@) == match key_pos(tv.skip(i as int), k@) {
                Some(j) => Some(j + i),
                None => None,
            },
        decreases t.len() - i,
    {
        assert(tv.skip(i as int)[0] == (t@[i as int].0@, t@[i as int].1 as nat));
        assert(tv.skip(i as int).drop_first() =~= tv.skip(i + 1));
        if t[i].0 == *k {
            return Some(i);
        }
        i += 1;
    }
    None
}

/// `key_pos` finds an entry with the name.
proof fn lemma_key_pos(t: Seq<(Seq<char>, nat)>, k: Seq<char>)
    ensures
        key_pos(t, k) matches Some(j) ==> 0 <= j < t.len() && t[j].0 == k,
    decreases t.len(),
{
    if t.len() > 0 && t[0].0 != k {
        lemma_key_pos(t.drop_first(), k);
    }
}

/// A tally entry's count is at most the number of names tallied.
proof fn lemma_tally_bound(ks: Seq<Seq<char>>)
    ensures
        forall|j: int| 0 <= j < tally(ks).len() ==> (#[trigger] tally(ks)[j]).1 <= ks.len(),
        tally(ks).len() <= ks.len(),
    decreases ks.len(),
{
    if ks.len() > 0 {
        let f = ks.drop_last();
        lemma_tally_bound(f);
        lemma_key_pos(tally(f), ks.last());
        let t = tally(f);
        match key_pos(t, ks.last()) {
            Some(j) => {
                assert forall|m: int| 0 <= m < tally(ks).len() implies (#[trigger] tally(ks)[m]).1
                    <= ks.len() by {
                    if m != j {
                        assert(tally(ks)[m] == t[m]);
                    }
                }
            },
            None => {
                assert forall|m: int| 0 <= m < tally(ks).len() implies (#[trigger] tally(ks)[m]).1
                    <= ks.len() by {
                    if m < t.len() {
                        assert(tally(ks)[m] == t[m]);
                    }
                }
            },
        }
    }
}

/// Counts each name of `ks`, names in first-occurrence order.
fn tally_exec(ks: &Vec<String>) -> (r: Vec<(String, usize)>)
    ensures
        tally_views(r@) == tally(ks@.map_values(|s: String| s@)),
{
    let ghost kv = ks@.map_values(|s: String| s@);
    let mut t: Vec<(String, usize)> = Vec::new();
    let mut i: usize = 0;
    while i < ks.len()
        invariant
            i <= ks@.len(),
            kv == ks@.map_values(|s: String| s@),
            tally_views(t@) == tally(kv.take(i as int)),
        decreases ks.len() - i,
    {
        assert(kv.take(i + 1).drop_last() =~= kv.take(i as int));
        assert(kv.take(i + 1).last() == ks@[i as int]@);
        proof {
            lemma_tally_bound(kv.take(i as int));
            lemma_key_pos(tally(kv.take(i as int)), ks@[i as int]@);
        }
        let ghost before = t@;
        match key_pos_exec(&t, &ks[i]) {
            Some(j) => {
                let c = t[j].1;
                assert(c as nat == tally(kv.take(i as int))[j as int].1);
                let name = t[j].0.clone();
                t.set(j, (name, c + 1));
                assert(tally_views(t@) =~= tally_views(before).update(
                    j as int,
                    (ks@[i as int]@, (c + 1) as nat),
                ));
            },
            None => {
                let name = ks[i].clone();
                t.push((name, 1));
                assert(tally_views(t@) =~= tally_views(before).push((ks@[i as int]@, 1nat)));
            },
        }
        i += 1;
    }
    assert(kv.take(ks@.len() as int) =~= kv);
    t
}

/// The key files of a prefix of `fs` begin the key files of `fs`.
proof fn lemma_key_prefix(fs: Seq<FileNodeView>, i: int)
    requires
        0 <= i <= fs.len(),
    ensures
        key_files_all(fs.take(i)).len() <= key_files_all(fs).len(),
        key_files_all(fs).take(key_files_all(fs.take(i)).len() as int) =~= key_files_all(fs.take(i)),
    decreases fs.len(),
{
    if i == fs.len() {
        assert(fs.take(i) =~= fs);
    } else {
        assert(fs.drop_last().take(i) =~= fs.take(i));
        lemma_key_prefix(fs.drop_last(), i);
    }
}

/// The index entries of a prefix of `ss` begin those of `ss`.
proof fn lemma_index_prefix(ss: Seq<SymbolView>, fs: Seq<FileNodeView>, j: int)
    requires
        0 <= j <= ss.len(),
    ensures
        index_all(ss.take(j), fs).len() <= index_all(ss, fs).len(),
        index_all(ss, fs).take(index_all(ss.take(j), fs).len() as int) =~= index_all(ss.take(j), fs),
    decreases ss.len(),
{
    if j == ss.len() {
        assert(ss.take(j) =~= ss);
    } else {
        assert(ss.drop_last().take(j) =~= ss.take(j));
        lemma_index_prefix(ss.drop_last(), fs, j);
    }
}

/// The sums over a prefix are at most the sums over the whole.
proof fn lemma_sums_prefix(fs: Seq<FileNodeView>, i: int)
    requires
        0 <= i <= fs.len(),
    ensures
        sum_lines(fs.take(i)) <= sum_lines(fs),
        sum_sizes(fs.take(i)) <= sum_sizes(fs),
    decreases fs.len(),
{
    if i == fs.len() {
        assert(fs.take(i) =~= fs);
    } else {
        assert(fs.drop_last().take(i) =~= fs.take(i));
        lemma_sums_prefix(fs.drop_last(), i);
    }
}

// ---------------------------------------------------------------------------
// Laws of the map
// ---------------------------------------------------------------------------

/// Imports fall into external and internal ones: no import is both external
/// and relative, and one that is neither starts with `/`.
pub proof fn lemma_imports_grouped(ss: Seq<SymbolView>)
    ensures
        forall|i: int|
            0 <= i < imports_of(ss).len() ==> {
                &&& !((#[trigger] imports_of(ss)[i]).is_external && imports_of(ss)[i].is_relative)
                &&& (!imports_of(ss)[i].is_external && !imports_of(ss)[i].is_relative) ==> begins(
                    imports_of(ss)[i].source,
                    "/"@,
                )
            },
    decreases ss.len(),
{
    if ss.len() > 0 {
        lemma_imports_grouped(ss.drop_last());
        let front = imports_of(ss.drop_last());
        let all = imports_of(ss);
        assert forall|i: int| 0 <= i < all.len() implies {
            &&& !((#[trigger] all[i]).is_external && all[i].is_relative)
            &&& (!all[i].is_external && !all[i].is_relative) ==> begins(all[i].source, "/"@)
        } by {
            if i < front.len() {
                assert(all[i] == front[i]);
            }
        }
    }
}

/// An element referenced by ten or more others is of high centrality, by
/// three to nine of medium centrality, and by at most two of low centrality.
pub proof fn lemma_centrality_levels(rs: Seq<RelationshipView>, nsym: nat, id: Seq<char>)
    ensures
        centrality_of(rs, nsym, id).incoming_edges == incoming(rs, id),
        centrality_of(rs, nsym, id).level == CentralityLevel::High <==> incoming(rs, id) >= 10,
        centrality_of(rs, nsym, id).level == CentralityLevel::Medium <==> 3 <= incoming(rs, id) <= 9,
        centrality_of(rs, nsym, id).level == CentralityLevel::Low <==> incoming(rs, id) <= 2,
{
}

/// Every directory's children are its files and its subdirectories.
pub open spec fn children_add_up(ds: Seq<DirectoryNodeView>) -> bool {
    forall|k: int|
        0 <= k < ds.len() ==> (#[trigger] ds[k]).children_count == ds[k].file_count + ds[k].dir_count
}

/// A build keeps every directory's children the sum of its files and its
/// subdirectories.
pub proof fn lemma_children_add_up(old_dirs: Seq<DirectoryNodeView>, es: Seq<ScanEntryView>)
    requires
        children_add_up(old_dirs),
    ensures
        children_add_up(build_dirs(old_dirs, es)),
{
    lemma_dirs_scanned_zero(es);
    let nd = dirs_scanned(es);
    let counted = dirs_counted(nd, file_rels(files_scanned(es)), dir_rels(old_dirs + nd));
    let all = build_dirs(old_dirs, es);
    assert forall|k: int| 0 <= k < all.len() implies (#[trigger] all[k]).children_count
        == all[k].file_count + all[k].dir_count by {
        if k < old_dirs.len() {
            assert(all[k] == old_dirs[k]);
        } else {
            assert(all[k] == counted[k - old_dirs.len()]);
        }
    }
}

/// `import_target` names a file of the list.
proof fn lemma_import_target_in(fs: Seq<FileNodeView>, ip: Seq<char>)
    ensures
        import_target(fs, ip) matches Some(t) ==> exists|i: int| 0 <= i < fs.len() && (#[trigger] fs[i]).id == t,
    decreases fs.len(),
{
    if fs.len() > 0 {
        lemma_import_target_in(fs.drop_first(), ip);
        if let Some(t) = import_target(fs.drop_first(), ip) {
            if import_target(fs, ip) == Some(t) && fs[0].id != t {
                let i = choose|i: int| 0 <= i < fs.drop_first().len() && (#[trigger] fs.drop_first()[i]).id == t;
                assert(fs[i + 1] == fs.drop_first()[i]);
            }
        }
    }
}

/// Every import relationship starts at the file of an import and ends at a
/// file of the map.
pub proof fn lemma_imports_reach_files(fs: Seq<FileNodeView>, ss: Seq<SymbolView>)
    ensures
        forall|r: int|
            0 <= r < import_rels(fs, ss).len() ==> (exists|i: int|
                0 <= i < fs.len() && (#[trigger] fs[i]).id == (#[trigger] import_rels(fs, ss)[r]).to_id)
                && (exists|j: int|
                0 <= j < ss.len() && (#[trigger] ss[j]).kind == SymbolKind::Import && ss[j].file_id
                    == import_rels(fs, ss)[r].from_id),
    decreases ss.len(),
{
    if ss.len() > 0 {
        let t = ss.drop_last();
        lemma_imports_reach_files(fs, t);
        let s = ss.last();
        lemma_import_target_in(fs, s.name);
        let all = import_rels(fs, ss);
        let front = import_rels(fs, t);
        assert forall|r: int| 0 <= r < all.len() implies (exists|i: int|
            0 <= i < fs.len() && (#[trigger] fs[i]).id == (#[trigger] all[r]).to_id) && (exists|j: int|
            0 <= j < ss.len() && (#[trigger] ss[j]).kind == SymbolKind::Import && ss[j].file_id
                == all[r].from_id) by {
            if r < front.len() {
                assert(all[r] == front[r]);
                let j = choose|j: int|
                    0 <= j < t.len() && (#[trigger] t[j]).kind == SymbolKind::Import && t[j].file_id
                        == front[r].from_id;
                assert(ss[j] == t[j]);
            } else {
                assert(ss[ss.len() - 1] == s);
            }
        }
    }
}

/// The skeleton lists at most 20 key files, each more than half central,
/// and at most 100 index entries.
pub proof fn lemma_skeleton_bounds(
    root: Seq<char>,
    fs: Seq<FileNodeView>,
    ds: Seq<DirectoryNodeView>,
    ss: Seq<SymbolView>,
)
    ensures
        skeleton_of(root, fs, ds, ss).key_files.len() <= 20,
        skeleton_of(root, fs, ds, ss).symbol_index.len() <= 100,
        forall|i: int|
            0 <= i < skeleton_of(root, fs, ds, ss).key_files.len() ==> 2 * (#[trigger] skeleton_of(
                root,
                fs,
                ds,
                ss,
            ).key_files[i]).centrality.num > skeleton_of(root, fs, ds, ss).key_files[i].centrality.den,
{
    lemma_key_files_central(fs);
    let all = key_files_all(fs);
    let kf = first_n(all, 20);
    assert forall|i: int| 0 <= i < kf.len() implies 2 * (#[trigger] kf[i]).centrality.num > kf[i].centrality.den by {
        assert(kf[i] == all[i]);
    }
}

/// Every key file is more than half central.
proof fn lemma_key_files_central(fs: Seq<FileNodeView>)
    ensures
        forall|i: int|
            0 <= i < key_files_all(fs).len() ==> 2 * (#[trigger] key_files_all(fs)[i]).centrality.num
                > key_files_all(fs)[i].centrality.den,
    decreases fs.len(),
{
    if fs.len() > 0 {
        lemma_key_files_central(fs.drop_last());
    }
}

/// The map of a project being built.
pub struct ProjectMap {
    root_path: String,
    files: Vec<FileNode>,
    directories: Vec<DirectoryNode>,
    symbols: Vec<Symbol>,
    relationships: Vec<Relationship>,
}

impl ProjectMap {
    /// The root of the project.
    pub closed spec fn root_v(&self) -> Seq<char> {
        self.root_path@
    }

    /// The files of the map.
    pub closed spec fn files_v(&self) -> Seq<FileNodeView> {
        file_views(self.files@)
    }

    /// The directories of the map.
    pub closed spec fn dirs_v(&self) -> Seq<DirectoryNodeView> {
        dir_views(self.directories@)
    }

    /// The symbols of the map.
    pub closed spec fn symbols_v(&self) -> Seq<SymbolView> {
        symbol_views(self.symbols@)
    }

    /// The relationships of the map.
    pub closed spec fn rels_v(&self) -> Seq<RelationshipView> {
        rel_views(self.relationships@)
    }

    /// Every file's centrality is a ratio between 0 and 1.
    pub open spec fn wf(&self) -> bool {
        centralities_unit(self.files_v())
    }

    /// An empty map of the project at `root_path`.
    pub fn new(root_path: String) -> (r: Self)
        ensures
            r.root_v() == root_path@,
            r.files_v() == Seq::<FileNodeView>::empty(),
            r.dirs_v() == Seq::<DirectoryNodeView>::empty(),
            r.symbols_v() == Seq::<SymbolView>::empty(),
            r.rels_v() == Seq::<RelationshipView>::empty(),
            r.wf(),
    {
        let r = ProjectMap {
            root_path,
            files: Vec::new(),
            directories: Vec::new(),
            symbols: Vec::new(),
            relationships: Vec::new(),
        };
        assert(r.files_v() =~= Seq::<FileNodeView>::empty());
        assert(r.dirs_v() =~= Seq::<DirectoryNodeView>::empty());
        assert(r.symbols_v() =~= Seq::<SymbolView>::empty());
        assert(r.rels_v() =~= Seq::<RelationshipView>::empty());
        r
    }

    /// Records the walk: its directories, appended with their counts, and
    /// its files, which replace those of the map.
    fn scan_files(&mut self, entries: &[ScanEntry])
        requires
            old(self).dirs_v().len() + entries@.len() <= usize::MAX,
        ensures
            final(self).files_v() == files_scanned(entry_views(entries@)),
            final(self).dirs_v() == old(self).dirs_v() + dirs_counted(
                dirs_scanned(entry_views(entries@)),
                file_rels(files_scanned(entry_views(entries@))),
                dir_rels(old(self).dirs_v() + dirs_scanned(entry_views(entries@))),
            ),
            final(self).symbols_v() == old(self).symbols_v(),
            final(self).rels_v() == old(self).rels_v(),
            final(self).root_v() == old(self).root_v(),
    {
        let ghost es = entry_views(entries@);
        let mut new_dirs: Vec<DirectoryNode> = Vec::new();
        let mut files: Vec<FileNode> = Vec::new();
        let mut i: usize = 0;
        while i < entries.len()
            invariant
                i <= entries@.len(),
                es == entry_views(entries@),
                dir_views(new_dirs@) == dirs_scanned(es.take(i as int)),
                file_views(files@) == files_scanned(es.take(i as int)),
            decreases entries.len() - i,
        {
            let e = &entries[i];
            assert(es[i as int] == e@);
            assert(es.take(i + 1).drop_last() =~= es.take(i as int));
            assert(es.take(i + 1).last() == e@);
            if matches!(e.kind, EntryKind::Directory) {
                let digits = decimal_exec(i as u64);
                let num = string_of(digits.as_slice());
                let mut id = owned("dir_");
                id.append(num.as_str());
                let d = DirectoryNode {
                    id,
                    path: e.path.clone(),
                    relative_path: e.relative_path.clone(),
                    children_count: 0,
                    file_count: 0,
                    dir_count: 0,
                    role_hint: None,
                };
                let ghost before = new_dirs@;
                new_dirs.push(d);
                assert(dir_views(new_dirs@) =~= dir_views(before).push(d@));
            }
            assert(file_entries(es.take(i + 1)).map_values(|x: ScanEntryView| file_scanned(x))
                =~= if is_file_entry(e@) {
                file_entries(es.take(i as int)).map_values(|x: ScanEntryView| file_scanned(x)).push(
                    file_scanned(e@),
                )
            } else {
                file_entries(es.take(i as int)).map_values(|x: ScanEntryView| file_scanned(x))
            });
            if matches!(e.kind, EntryKind::File) {
                match process_file_entry(e) {
                    Some(f) => {
                        let ghost before = files@;
                        files.push(f);
                        assert(file_views(files@) =~= file_views(before).push(f@));
                    },
                    None => {},
                }
            }
            i += 1;
        }
        assert(es.take(entries@.len() as int) =~= es);
        proof {
            lemma_walk_counts(es);
            lemma_dirs_scanned_zero(es);
        }
        let frels = file_rel_strings(&files);
        let fcounts = count_paths(&new_dirs, &frels);
        let mut drels: Vec<String> = Vec::new();
        push_dir_rels(&self.directories, &mut drels);
        push_dir_rels(&new_dirs, &mut drels);
        assert(drels@.map_values(|s: String| s@) =~= dir_rels(
            old(self).dirs_v() + dirs_scanned(es),
        ));
        let dcounts = count_paths(&new_dirs, &drels);
        let ghost nd = dir_views(new_dirs@);
        let ghost start = dir_views(self.directories@);
        let ghost fr = file_rels(files_scanned(es));
        let ghost dr = dir_rels(old(self).dirs_v() + dirs_scanned(es));
        assert(start.len() == old(self).dirs_v().len());
        assert(es.len() == entries@.len());
        assert(fr.len() == file_entries(es).len());
        let mut k: usize = 0;
        while k < new_dirs.len()
            invariant
                k <= new_dirs@.len(),
                nd == dir_views(new_dirs@),
                nd == dirs_scanned(es),
                fr.len() + nd.len() <= es.len(),
                dr.len() == start.len() + nd.len(),
                start.len() + es.len() <= usize::MAX,
                fcounts@.len() == new_dirs@.len(),
                dcounts@.len() == new_dirs@.len(),
                forall|j: int| 0 <= j < nd.len() ==> #[trigger] fcounts@[j] == count_in(nd, fr, j),
                forall|j: int| 0 <= j < nd.len() ==> #[trigger] dcounts@[j] == count_in(nd, dr, j),
                dir_views(self.directories@) == start + dirs_counted(nd, fr, dr).take(k as int),
                self.symbols@ == old(self).symbols@,
                self.relationships@ == old(self).relationships@,
                self.root_path == old(self).root_path,
                forall|j: int|
                    0 <= j < nd.len() ==> (#[trigger] nd[j]).children_count == 0 && nd[j].file_count
                        == 0 && nd[j].dir_count == 0,
            decreases new_dirs.len() - k,
        {
            proof {
                lemma_count_in_bound(nd, fr, k as int);
                lemma_count_in_bound(nd, dr, k as int);
            }
            assert(new_dirs@[k as int]@ == nd[k as int]);
            let d = dir_plus(&new_dirs[k], fcounts[k], dcounts[k]);
            let ghost before = self.directories@;
            self.directories.push(d);
            assert(dir_views(self.directories@) =~= dir_views(before).push(d@));
            assert(d@ == dirs_counted(nd, fr, dr)[k as int]);
            assert(dir_views(self.directories@) =~= start + dirs_counted(nd, fr, dr).take(k + 1));
            k += 1;
        }
        assert(dirs_counted(nd, fr, dr).take(new_dirs@.len() as int) =~= dirs_counted(nd, fr, dr));
        self.files = files;
    }

    /// Extracts the symbols of every file entry, appends them, and counts
    /// each file's symbols.
    fn extract_symbols(&mut self, entries: &[ScanEntry])
        requires
            entries_ready(entry_views(entries@)),
        ensures
            final(self).symbols_v() == old(self).symbols_v() + symbols_extracted(
                file_entries(entry_views(entries@)),
            ),
            final(self).files_v() == files_with_counts(old(self).files_v(), final(self).symbols_v()),
            final(self).dirs_v() == old(self).dirs_v(),
            final(self).rels_v() == old(self).rels_v(),
            final(self).root_v() == old(self).root_v(),
    {
        let ghost es = entry_views(entries@);
        let extractor = SymbolExtractor::new();
        let mut i: usize = 0;
        while i < entries.len()
            invariant
                i <= entries@.len(),
                es == entry_views(entries@),
                entries_ready(es),
                symbol_views(self.symbols@) == old(self).symbols_v() + symbols_extracted(
                    file_entries(es.take(i as int)),
                ),
                self.files@ == old(self).files@,
                self.directories@ == old(self).directories@,
                self.relationships@ == old(self).relationships@,
                self.root_path == old(self).root_path,
            decreases entries.len() - i,
        {
            let e = &entries[i];
            assert(es[i as int] == e@);
            assert(es.take(i + 1).drop_last() =~= es.take(i as int));
            assert(es.take(i + 1).last() == e@);
            let ghost fe = file_entries(es.take(i as int));
            if matches!(e.kind, EntryKind::File) && e.size.is_some() {
                assert(is_file_entry(es[i as int]));
                assert(file_entries(es.take(i + 1)) == fe.push(e@));
                assert(fe.push(e@).drop_last() =~= fe);
                assert(symbols_extracted(fe.push(e@)) == symbols_extracted(fe) + extracted(e@));
                let res = extractor.extract_from_file(e.path.as_str(), e.content.as_str());
                assert(symbols_result(res) == file_symbols(e.path@, e.content@));
                match res {
                    Ok(mut v) => {
                        let ghost before = self.symbols@;
                        let ghost vv = v@;
                        self.symbols.append(&mut v);
                        assert(symbol_views(self.symbols@) =~= symbol_views(before) + symbol_views(
                            vv,
                        ));
                    },
                    Err(_) => {
                        assert(extracted(e@) =~= Seq::<SymbolView>::empty());
                    },
                }
            } else {
                assert(file_entries(es.take(i + 1)) == fe);
            }
            i += 1;
        }
        assert(es.take(entries@.len() as int) =~= es);
        self.update_file_symbol_counts();
    }

    /// Counts, for every file, the symbols with its id.
    fn update_file_symbol_counts(&mut self)
        ensures
            final(self).files_v() == files_with_counts(old(self).files_v(), old(self).symbols_v()),
            final(self).symbols_v() == old(self).symbols_v(),
            final(self).dirs_v() == old(self).dirs_v(),
            final(self).rels_v() == old(self).rels_v(),
            final(self).root_v() == old(self).root_v(),
    {
        let ghost fs0 = file_views(self.files@);
        let ghost sv = symbol_views(self.symbols@);
        let mut i: usize = 0;
        while i < self.files.len()
            invariant
                i <= self.files@.len() == fs0.len(),
                sv == symbol_views(self.symbols@),
                self.symbols@ == old(self).symbols@,
                self.directories@ == old(self).directories@,
                self.relationships@ == old(self).relationships@,
                self.root_path == old(self).root_path,
                forall|j: int|
                    0 <= j < fs0.len() ==> #[trigger] file_views(self.files@)[j] == if j < i {
                        files_with_counts(fs0, sv)[j]
                    } else {
                        fs0[j]
                    },
            decreases self.files.len() - i,
        {
            let n = count_symbols_of(&self.symbols, &self.files[i].id);
            let ghost before = self.files@;
            assert(file_views(before)[i as int] == fs0[i as int]);
            self.files[i].symbol_count = n;
            assert(file_views(self.files@)[i as int] == files_with_counts(fs0, sv)[i as int]);
            proof {
                assert forall|j: int| 0 <= j < fs0.len() implies #[trigger] file_views(self.files@)[j]
                    == if j < i + 1 {
                    files_with_counts(fs0, sv)[j]
                } else {
                    fs0[j]
                } by {
                    if j != i {
                        assert(self.files@[j] == before[j]);
                        assert(file_views(before)[j] == file_views(self.files@)[j]);
                    }
                }
            }
            i += 1;
        }
        assert(file_views(self.files@) =~= files_with_counts(fs0, sv));
    }

    /// The id of the file an import path names.
    fn find_import_target(&self, import_path: &str) -> (r: Option<String>)
        ensures
            opt_text(r) == import_target(self.files_v(), import_path@),
    {
        let ghost fs = self.files_v();
        let ipc = chars_of(import_path);
        let mut i: usize = 0;
        assert(fs.skip(0) =~= fs);
        while i < self.files.len()
            invariant
                i <= self.files@.len(),
                fs == self.files_v(),
                ipc@ == import_path@,
                import_target(fs, import_path@) == import_target(fs.skip(i as int), import_path@),
            decreases self.files.len() - i,
        {
            let f = &self.files[i];
            assert(fs.skip(i as int)[0] == f@);
            assert(fs.skip(i as int).drop_first() =~= fs.skip(i + 1));
            let base = get_file_base(f.relative_path.as_str());
            let bc = chars_of(base.as_str());
            let rc = chars_of(f.relative_path.as_str());
            if finishes_exec(ipc.as_slice(), bc.as_slice()) || contains_exec(rc.as_slice(), ipc.as_slice()) {
                return Some(f.id.clone());
            }
            i += 1;
        }
        None
    }

    /// The id of the first symbol named `name`.
    fn find_symbol_by_name(&self, name: &String) -> (r: Option<String>)
        ensures
            opt_text(r) == symbol_by_name(self.symbols_v(), name@),
    {
        let ghost ss = self.symbols_v();
        let mut i: usize = 0;
        assert(ss.skip(0) =~= ss);
        while i < self.symbols.len()
            invariant
                i <= self.symbols@.len(),
                ss == self.symbols_v(),
                symbol_by_name(ss, name@) == symbol_by_name(ss.skip(i as int), name@),
            decreases self.symbols.len() - i,
        {
            let s = &self.symbols[i];
            assert(ss.skip(i as int)[0] == s@);
            assert(ss.skip(i as int).drop_first() =~= ss.skip(i + 1));
            if s.name == *name {
                return Some(s.id.clone());
            }
            i += 1;
        }
        None
    }

    /// Appends the import relationships of the symbols.
    fn build_import_relationships(&mut self)
        ensures
            final(self).rels_v() == old(self).rels_v() + import_rels(old(self).files_v(), old(self).symbols_v()),
            final(self).files_v() == old(self).files_v(),
            final(self).symbols_v() == old(self).symbols_v(),
            final(self).dirs_v() == old(self).dirs_v(),
            final(self).root_v() == old(self).root_v(),
    {
        let ghost ss = self.symbols_v();
        let ghost fs = self.files_v();
        let mut i: usize = 0;
        while i < self.symbols.len()
            invariant
                i <= self.symbols@.len(),
                ss == self.symbols_v(),
                fs == self.files_v(),
                self.files@ == old(self).files@,
                self.symbols@ == old(self).symbols@,
                self.directories@ == old(self).directories@,
                self.root_path == old(self).root_path,
                rel_views(self.relationships@) == old(self).rels_v() + import_rels(fs, ss.take(i as int)),
            decreases self.symbols.len() - i,
        {
            assert(ss.take(i + 1).drop_last() =~= ss.take(i as int));
            assert(ss.take(i + 1).last() == self.symbols@[i as int]@);
            if matches!(self.symbols[i].kind, SymbolKind::Import) {
                match self.find_import_target(self.symbols[i].name.as_str()) {
                    Some(t) => {
                        let rel = Relationship {
                            from_id: self.symbols[i].file_id.clone(),
                            to_id: t,
                            kind: RelationshipKind::Imports,
                            confidence: 80,
                        };
                        let ghost before = self.relationships@;
                        self.relationships.push(rel);
                        assert(rel_views(self.relationships@) =~= rel_views(before).push(rel@));
                    },
                    None => {},
                }
            }
            i += 1;
        }
        assert(ss.take(self.symbols@.len() as int) =~= ss);
    }

    /// Appends the inheritance relationships of classes and interfaces.
    fn build_inheritance_relationships(&mut self)
        ensures
            final(self).rels_v() == old(self).rels_v() + extends_rels(
                old(self).symbols_v(),
                old(self).symbols_v(),
            ),
            final(self).files_v() == old(self).files_v(),
            final(self).symbols_v() == old(self).symbols_v(),
            final(self).dirs_v() == old(self).dirs_v(),
            final(self).root_v() == old(self).root_v(),
    {
        let ghost ss = self.symbols_v();
        let mut i: usize = 0;
        while i < self.symbols.len()
            invariant
                i <= self.symbols@.len(),
                ss == self.symbols_v(),
                self.files@ == old(self).files@,
                self.symbols@ == old(self).symbols@,
                self.directories@ == old(self).directories@,
                self.root_path == old(self).root_path,
                rel_views(self.relationships@) == old(self).rels_v() + extends_rels(
                    ss,
                    ss.take(i as int),
                ),
            decreases self.symbols.len() - i,
        {
            assert(ss.take(i + 1).drop_last() =~= ss.take(i as int));
            assert(ss.take(i + 1).last() == self.symbols@[i as int]@);
            if matches!(self.symbols[i].kind, SymbolKind::Class | SymbolKind::Interface) {
                match extract_parent_class(self.symbols[i].signature.as_str()) {
                    Some(parent) => match self.find_symbol_by_name(&parent) {
                        Some(pid) => {
                            let rel = Relationship {
                                from_id: self.symbols[i].id.clone(),
                                to_id: pid,
                                kind: RelationshipKind::Extends,
                                confidence: 90,
                            };
                            let ghost before = self.relationships@;
                            self.relationships.push(rel);
                            assert(rel_views(self.relationships@) =~= rel_views(before).push(rel@));
                        },
                        None => {},
                    },
                    None => {},
                }
            }
            i += 1;
        }
        assert(ss.take(self.symbols@.len() as int) =~= ss);
    }

    /// Appends the import and inheritance relationships.
    fn build_relationships(&mut self)
        ensures
            final(self).rels_v() == old(self).rels_v() + import_rels(old(self).files_v(), old(self).symbols_v())
                + extends_rels(old(self).symbols_v(), old(self).symbols_v()),
            final(self).files_v() == old(self).files_v(),
            final(self).symbols_v() == old(self).symbols_v(),
            final(self).dirs_v() == old(self).dirs_v(),
            final(self).root_v() == old(self).root_v(),
    {
        self.build_import_relationships();
        self.build_inheritance_relationships();
    }

    /// Sets the centrality of every file: its weight over the largest weight.
    fn compute_centrality(&mut self)
        ensures
            final(self).files_v() == files_with_centrality(old(self).files_v(), old(self).rels_v()),
            final(self).symbols_v() == old(self).symbols_v(),
            final(self).rels_v() == old(self).rels_v(),
            final(self).dirs_v() == old(self).dirs_v(),
            final(self).root_v() == old(self).root_v(),
    {
        let ghost fs0 = self.files_v();
        let ghost rs = self.rels_v();
        let mut weights: Vec<u128> = Vec::new();
        let mut m: u128 = 0;
        let mut i: usize = 0;
        while i < self.files.len()
            invariant
                i <= self.files@.len(),
                fs0 == self.files_v(),
                rs == self.rels_v(),
                weights@.len() == i,
                forall|j: int| 0 <= j < i ==> #[trigger] weights@[j] == weight(rs, fs0[j].id),
                m == max_weight(fs0.take(i as int), rs),
                m <= 3 * self.relationships@.len(),
            decreases self.files.len() - i,
        {
            let w = weight_of(&self.relationships, &self.files[i].id);
            assert(fs0[i as int].id == self.files@[i as int].id@);
            assert(fs0.take(i + 1).drop_last() =~= fs0.take(i as int));
            weights.push(w);
            if w > m {
                m = w;
            }
            i += 1;
        }
        assert(fs0.take(self.files@.len() as int) =~= fs0);
        let ghost mw = max_weight(fs0, rs);
        let mut k: usize = 0;
        while k < self.files.len()
            invariant
                k <= self.files@.len() == fs0.len(),
                weights@.len() == fs0.len(),
                forall|j: int| 0 <= j < fs0.len() ==> #[trigger] weights@[j] == weight(rs, fs0[j].id),
                m == mw,
                mw == max_weight(fs0, rs),
                self.symbols@ == old(self).symbols@,
                self.relationships@ == old(self).relationships@,
                self.directories@ == old(self).directories@,
                self.root_path == old(self).root_path,
                forall|j: int|
                    0 <= j < fs0.len() ==> #[trigger] file_views(self.files@)[j] == if j < k {
                        files_with_centrality(fs0, rs)[j]
                    } else {
                        fs0[j]
                    },
            decreases self.files.len() - k,
        {
            let score = if m > 0 {
                Ratio { num: weights[k], den: m }
            } else {
                Ratio::zero()
            };
            let ghost before = self.files@;
            assert(file_views(before)[k as int] == fs0[k as int]);
            self.files[k].centrality_score = score;
            assert(file_views(self.files@)[k as int] == files_with_centrality(fs0, rs)[k as int]);
            proof {
                assert forall|j: int| 0 <= j < fs0.len() implies #[trigger] file_views(self.files@)[j]
                    == if j < k + 1 {
                    files_with_centrality(fs0, rs)[j]
                } else {
                    fs0[j]
                } by {
                    if j != k {
                        assert(self.files@[j] == before[j]);
                        assert(file_views(before)[j] == file_views(self.files@)[j]);
                    }
                }
            }
            k += 1;
        }
        assert(file_views(self.files@) =~= files_with_centrality(fs0, rs));
    }

    /// Builds the map from the entries of a directory walk: files and
    /// directories, the symbols of every file, their roles, the import and
    /// inheritance relationships, and each file's centrality. The
    /// directories already in the map and the walk together fit in memory.
    pub fn build(&mut self, entries: &[ScanEntry]) -> (r: Result<(), String>)
        requires
            old(self).dirs_v().len() + entries@.len() <= usize::MAX,
            entries_ready(entry_views(entries@)),
        ensures
            r is Ok,
            final(self).symbols_v() == build_symbols(old(self).symbols_v(), entry_views(entries@)),
            final(self).rels_v() == build_rels(
                old(self).symbols_v(),
                old(self).rels_v(),
                entry_views(entries@),
            ),
            final(self).files_v() == build_files(
                old(self).symbols_v(),
                old(self).rels_v(),
                entry_views(entries@),
            ),
            final(self).dirs_v() == build_dirs(old(self).dirs_v(), entry_views(entries@)),
            final(self).root_v() == old(self).root_v(),
            final(self).wf(),
    {
        self.scan_files(entries);
        self.extract_symbols(entries);
        self.classify_roles();
        self.build_relationships();
        let ghost fs = self.files_v();
        let ghost rs = self.rels_v();
        assert(rs.len() == self.relationships@.len());
        assert(self.relationships@.len() == self.relationships.len());
        self.compute_centrality();
        proof {
            lemma_centrality_unit(fs, rs);
        }
        Ok(())
    }

    /// Whether extraction runs without failing on every file entry.
    pub fn entries_ready_exec(entries: &[ScanEntry]) -> (r: bool)
        ensures
            r == entries_ready(entry_views(entries@)),
    {
        let ghost es = entry_views(entries@);
        let extractor = SymbolExtractor::new();
        let mut i: usize = 0;
        while i < entries.len()
            invariant
                i <= entries@.len(),
                es == entry_views(entries@),
                forall|j: int|
                    0 <= j < i && is_file_entry(#[trigger] es[j]) ==> file_ready(
                        es[j].path,
                        es[j].content,
                    ),
            decreases entries.len() - i,
        {
            let e = &entries[i];
            assert(es[i as int] == e@);
            if matches!(e.kind, EntryKind::File) && e.size.is_some() {
                if !extractor.can_extract(e.path.as_str(), e.content.as_str()) {
                    return false;
                }
            }
            i += 1;
        }
        true
    }

    /// Builds the map as `build` does when extraction runs without failing
    /// on every file; otherwise leaves the map unchanged and says so.
    pub fn build_checked(&mut self, entries: &[ScanEntry]) -> (r: bool)
        requires
            old(self).dirs_v().len() + entries@.len() <= usize::MAX,
        ensures
            r == entries_ready(entry_views(entries@)),
            r ==> final(self).symbols_v() == build_symbols(old(self).symbols_v(), entry_views(entries@)),
            r ==> final(self).rels_v() == build_rels(
                old(self).symbols_v(),
                old(self).rels_v(),
                entry_views(entries@),
            ),
            r ==> final(self).files_v() == build_files(
                old(self).symbols_v(),
                old(self).rels_v(),
                entry_views(entries@),
            ),
            r ==> final(self).dirs_v() == build_dirs(old(self).dirs_v(), entry_views(entries@)),
            r ==> final(self).wf(),
            !r ==> final(self).symbols_v() == old(self).symbols_v() && final(self).rels_v() == old(
                self,
            ).rels_v() && final(self).files_v() == old(self).files_v() && final(self).dirs_v()
                == old(self).dirs_v(),
            final(self).root_v() == old(self).root_v(),
    {
        if Self::entries_ready_exec(entries) {
            let _ = self.build(entries);
            true
        } else {
            false
        }
    }

    /// The path of the element with id `id`.
    fn get_path_for_id(&self, id: &String) -> (r: Option<String>)
        ensures
            opt_text(r) == path_for_id(self.files_v(), self.symbols_v(), id@),
    {
        let ic = chars_of(id.as_str());
        if str_begins(ic.as_slice(), "file_") {
            let ghost fs = self.files_v();
            let mut i: usize = 0;
            assert(fs.skip(0) =~= fs);
            while i < self.files.len()
                invariant
                    i <= self.files@.len(),
                    fs == self.files_v(),
                    begins(id@, "file_"@),
                    ic@ == id@,
                    file_rel_by_id(fs, id@) == file_rel_by_id(fs.skip(i as int), id@),
                decreases self.files.len() - i,
            {
                assert(fs.skip(i as int)[0] == self.files@[i as int]@);
                assert(fs.skip(i as int).drop_first() =~= fs.skip(i + 1));
                if self.files[i].id == *id {
                    return Some(self.files[i].relative_path.clone());
                }
                i += 1;
            }
            None
        } else {
            let ghost ss = self.symbols_v();
            let mut i: usize = 0;
            assert(ss.skip(0) =~= ss);
            while i < self.symbols.len()
                invariant
                    i <= self.symbols@.len(),
                    ss == self.symbols_v(),
                    !begins(id@, "file_"@),
                    ic@ == id@,
                    symbol_path_by_id(ss, id@) == symbol_path_by_id(ss.skip(i as int), id@),
                decreases self.symbols.len() - i,
            {
                assert(ss.skip(i as int)[0] == self.symbols@[i as int]@);
                assert(ss.skip(i as int).drop_first() =~= ss.skip(i + 1));
                if self.symbols[i].id == *id {
                    return Some(self.symbols[i].file_path.clone());
                }
                i += 1;
            }
            None
        }
    }

    /// The dependencies (`outward`) or dependents of the element `id`.
    fn dependency_list(&self, id: &String, outward: bool) -> (r: Vec<DependencyInfo>)
        ensures
            dep_views(r@) == if outward {
                deps_from(self.rels_v(), self.files_v(), self.symbols_v(), id@)
            } else {
                deps_to(self.rels_v(), self.files_v(), self.symbols_v(), id@)
            },
    {
        let ghost rs = self.rels_v();
        let ghost fs = self.files_v();
        let ghost ss = self.symbols_v();
        let mut out: Vec<DependencyInfo> = Vec::new();
        let mut i: usize = 0;
        while i < self.relationships.len()
            invariant
                i <= self.relationships@.len(),
                rs == self.rels_v(),
                fs == self.files_v(),
                ss == self.symbols_v(),
                dep_views(out@) == if outward {
                    deps_from(rs.take(i as int), fs, ss, id@)
                } else {
                    deps_to(rs.take(i as int), fs, ss, id@)
                },
            decreases self.relationships.len() - i,
        {
            let r = &self.relationships[i];
            assert(rs.take(i + 1).drop_last() =~= rs.take(i as int));
            assert(rs.take(i + 1).last() == r@);
            let (near, far) = if outward {
                (&r.from_id, &r.to_id)
            } else {
                (&r.to_id, &r.from_id)
            };
            if *near == *id {
                let path = match self.get_path_for_id(far) {
                    Some(p) => p,
                    None => String::new(),
                };
                let d = DependencyInfo { target_id: far.clone(), target_path: path, relationship: r.kind };
                let ghost before = out@;
                out.push(d);
                assert(dep_views(out@) =~= dep_views(before).push(d@));
            }
            i += 1;
        }
        assert(rs.take(self.relationships@.len() as int) =~= rs);
        out
    }

    /// The first file whose relative path is `file_path` or whose path contains it.
    fn find_summary_file(&self, file_path: &str) -> (r: Option<usize>)
        ensures
            match r {
                Some(k) => summary_file(self.files_v(), file_path@) == Some(k as int) && k
                    < self.files@.len(),
                None => summary_file(self.files_v(), file_path@) is None,
            },
    {
        let ghost fs = self.files_v();
        let fpc = chars_of(file_path);
        let mut i: usize = 0;
        assert(fs.skip(0) =~= fs);
        while i < self.files.len()
            invariant
                i <= self.files@.len(),
                fs == self.files_v(),
                fpc@ == file_path@,
                summary_file(fs, file_path@) == match summary_file(fs.skip(i as int), file_path@) {
                    Some(k) => Some(k + i),
                    None => None,
                },
            decreases self.files.len() - i,
        {
            assert(fs.skip(i as int)[0] == self.files@[i as int]@);
            assert(fs.skip(i as int).drop_first() =~= fs.skip(i + 1));
            let pc = chars_of(self.files[i].path.as_str());
            if str_same(fpc.as_slice(), self.files[i].relative_path.as_str()) || contains_exec(
                pc.as_slice(),
                fpc.as_slice(),
            ) {
                return Some(i);
            }
            i += 1;
        }
        None
    }

    /// The structural summary of the file whose relative path is
    /// `file_path`, or whose path contains it: its symbols, imports,
    /// dependencies, dependents and a one-line summary.
    pub fn get_file_summary(&self, file_path: &str) -> (r: Result<FileSummary, String>)
        requires
            self.wf(),
        ensures
            match r {
                Ok(sm) => file_summary(self.files_v(), self.symbols_v(), self.rels_v(), file_path@)
                    == Ok::<FileSummaryView, Seq<char>>(summary_view(sm)),
                Err(e) => file_summary(self.files_v(), self.symbols_v(), self.rels_v(), file_path@)
                    == Err::<FileSummaryView, Seq<char>>(e@),
            },
    {
        let ghost fs = self.files_v();
        let k = match self.find_summary_file(file_path) {
            Some(k) => k,
            None => {
                let mut msg = owned("File not found: ");
                msg.append(file_path);
                return Err(msg);
            },
        };
        let file = &self.files[k];
        assert(fs[k as int] == file@);
        let ghost ss = self.symbols_v();
        let mut own: Vec<Symbol> = Vec::new();
        let mut j: usize = 0;
        while j < self.symbols.len()
            invariant
                j <= self.symbols@.len(),
                ss == self.symbols_v(),
                symbol_views(own@) == symbols_of_file(ss.take(j as int), file.id@),
            decreases self.symbols.len() - j,
        {
            assert(ss.take(j + 1).drop_last() =~= ss.take(j as int));
            assert(ss.take(j + 1).last() == self.symbols@[j as int]@);
            if self.symbols[j].file_id == file.id {
                let c = copy_symbol(&self.symbols[j]);
                let ghost before = own@;
                own.push(c);
                assert(symbol_views(own@) =~= symbol_views(before).push(c@));
            }
            j += 1;
        }
        assert(ss.take(self.symbols@.len() as int) =~= ss);
        let imports = extract_imports_from_symbols(own.as_slice());
        let dependencies = self.dependency_list(&file.id, true);
        let dependents = self.dependency_list(&file.id, false);
        assert(file.centrality_score.unit());
        let one_line_summary = generate_one_line_summary(file, own.as_slice());
        Ok(
            FileSummary {
                file: copy_file(file),
                symbols: own,
                imports,
                dependencies,
                dependents,
                one_line_summary,
            },
        )
    }

    /// A compact outline of the project: its name, top-level directories,
    /// up to 20 key files (centrality above one half) and up to 100 classes,
    /// functions and interfaces with the centrality of their files.
    pub fn get_skeleton(&self) -> (r: ProjectSkeleton)
        ensures
            skeleton_view(r) == skeleton_of(
                self.root_v(),
                self.files_v(),
                self.dirs_v(),
                self.symbols_v(),
            ),
    {
        let rc = chars_of(self.root_path.as_str());
        let root_name = match file_name_exec(rc.as_slice()) {
            Some(n) => string_of(n.as_slice()),
            None => owned("project"),
        };
        let ghost ds = self.dirs_v();
        let mut top_level_dirs: Vec<String> = Vec::new();
        let mut i: usize = 0;
        while i < self.directories.len()
            invariant
                i <= self.directories@.len(),
                ds == self.dirs_v(),
                top_level_dirs@.map_values(|t: String| t@) == top_dirs(ds.take(i as int)),
            decreases self.directories.len() - i,
        {
            let d = &self.directories[i];
            assert(ds.take(i + 1).drop_last() =~= ds.take(i as int));
            assert(ds.take(i + 1).last() == d@);
            let dc = chars_of(d.relative_path.as_str());
            let pieces = split_char_exec(dc.as_slice(), '/');
            if pieces.len() == 1 && dc.len() > 0 {
                let t = d.relative_path.clone();
                let ghost before = top_level_dirs@;
                top_level_dirs.push(t);
                assert(top_level_dirs@.map_values(|t: String| t@) =~= before.map_values(
                    |t: String| t@,
                ).push(t@));
            }
            i += 1;
        }
        assert(ds.take(self.directories@.len() as int) =~= ds);
        let ghost fs = self.files_v();
        let mut key_files: Vec<KeyFile> = Vec::new();
        let mut i: usize = 0;
        while i < self.files.len() && key_files.len() < 20
            invariant
                i <= self.files@.len(),
                fs == self.files_v(),
                key_files@.len() <= 20,
                key_files@.map_values(|f: KeyFile| f@) == key_files_all(fs.take(i as int)),
            decreases self.files.len() - i,
        {
            let f = &self.files[i];
            assert(fs.take(i + 1).drop_last() =~= fs.take(i as int));
            assert(fs.take(i + 1).last() == f@);
            let c = f.centrality_score;
            if c.num > c.den || c.den - c.num < c.num {
                let kf = KeyFile {
                    path: f.relative_path.clone(),
                    role: f.role,
                    centrality: f.centrality_score,
                };
                let ghost before = key_files@;
                key_files.push(kf);
                assert(key_files@.map_values(|f: KeyFile| f@) =~= before.map_values(
                    |f: KeyFile| f@,
                ).push(kf@));
            }
            i += 1;
        }
        proof {
            lemma_key_prefix(fs, i as int);
            if i == fs.len() {
                assert(fs.take(i as int) =~= fs);
            }
            assert(key_files@.map_values(|f: KeyFile| f@) =~= first_n(key_files_all(fs), 20));
        }
        let ghost ss = self.symbols_v();
        let mut symbol_index: Vec<SymbolIndexEntry> = Vec::new();
        let mut j: usize = 0;
        while j < self.symbols.len() && symbol_index.len() < 100
            invariant
                j <= self.symbols@.len(),
                ss == self.symbols_v(),
                fs == self.files_v(),
                symbol_index@.len() <= 100,
                symbol_index@.map_values(|e: SymbolIndexEntry| e@) == index_all(
                    ss.take(j as int),
                    fs,
                ),
            decreases self.symbols.len() - j,
        {
            let s = &self.symbols[j];
            assert(ss.take(j + 1).drop_last() =~= ss.take(j as int));
            assert(ss.take(j + 1).last() == s@);
            if matches!(s.kind, SymbolKind::Class | SymbolKind::Function | SymbolKind::Interface) {
                let e = SymbolIndexEntry {
                    id: s.id.clone(),
                    name: s.name.clone(),
                    kind: s.kind,
                    file_path: s.file_path.clone(),
                    centrality: self.centrality_by_id_exec(&s.file_id),
                };
                let ghost before = symbol_index@;
                symbol_index.push(e);
                assert(symbol_index@.map_values(|e: SymbolIndexEntry| e@) =~= before.map_values(
                    |e: SymbolIndexEntry| e@,
                ).push(e@));
            }
            j += 1;
        }
        proof {
            lemma_index_prefix(ss, fs, j as int);
            if j == ss.len() {
                assert(ss.take(j as int) =~= ss);
            }
            assert(symbol_index@.map_values(|e: SymbolIndexEntry| e@) =~= first_n(
                index_all(ss, fs),
                100,
            ));
        }
        ProjectSkeleton { root_name, top_level_dirs, key_files, symbol_index }
    }

    /// The centrality of the first file with id `id`, or zero.
    fn centrality_by_id_exec(&self, id: &String) -> (r: Ratio)
        ensures
            r == centrality_by_id(self.files_v(), id@),
    {
        let ghost fs = self.files_v();
        let mut i: usize = 0;
        assert(fs.skip(0) =~= fs);
        while i < self.files.len()
            invariant
                i <= self.files@.len(),
                fs == self.files_v(),
                centrality_by_id(fs, id@) == centrality_by_id(fs.skip(i as int), id@),
            decreases self.files.len() - i,
        {
            assert(fs.skip(i as int)[0] == self.files@[i as int]@);
            assert(fs.skip(i as int).drop_first() =~= fs.skip(i + 1));
            if self.files[i].id == *id {
                return self.files[i].centrality_score;
            }
            i += 1;
        }
        Ratio::zero()
    }

    /// How central `symbol` is: how many relationships end and start at it,
    /// its score, and its class with a description.
    #[verifier::spinoff_prover]
    pub fn calculate_centrality(&self, symbol: &Symbol) -> (r: Centrality)
        ensures
            r@ == centrality_of(self.rels_v(), self.symbols_v().len(), symbol.id@),
    {
        let ghost rv = self.rels_v();
        let mut inc: usize = 0;
        let mut out: usize = 0;
        let mut i: usize = 0;
        while i < self.relationships.len()
            invariant
                i <= self.relationships@.len(),
                rv == self.rels_v(),
                inc == incoming(rv.take(i as int), symbol.id@),
                out == outgoing(rv.take(i as int), symbol.id@),
                inc <= i,
                out <= i,
            decreases self.relationships.len() - i,
        {
            assert(rv.take(i + 1).drop_last() =~= rv.take(i as int));
            assert(rv.take(i + 1).last() == self.relationships@[i as int]@);
            if self.relationships[i].to_id == symbol.id {
                inc += 1;
            }
            if self.relationships[i].from_id == symbol.id {
                out += 1;
            }
            i += 1;
        }
        assert(rv.take(self.relationships@.len() as int) =~= rv);
        let n = self.symbols.len();
        let m: usize = if n > 1 {
            n
        } else {
            1
        };
        let score = Ratio { num: 2 * (inc as u128) + (out as u128), den: 3 * (m as u128) };
        let level = if inc >= 10 {
            CentralityLevel::High
        } else if inc >= 3 {
            CentralityLevel::Medium
        } else {
            CentralityLevel::Low
        };
        let mut description = match level {
            CentralityLevel::High => owned("Critical element: referenced by "),
            CentralityLevel::Medium => owned("Moderate impact: referenced by "),
            CentralityLevel::Low => owned("Incidental element: referenced by "),
        };
        description.append(count_text(inc).as_str());
        if matches!(level, CentralityLevel::High) {
            description.append(" other");
        }
        description.append(" elements, calls ");
        description.append(count_text(out).as_str());
        description.append(" others");
        assert(description@ =~= centrality_of(rv, self.symbols_v().len(), symbol.id@).description);
        Centrality { score, level, incoming_edges: inc, outgoing_edges: out, description }
    }

    /// Counts over the map: files, directories, symbols, lines, bytes, and
    /// files per language and per role.
    fn compute_stats(&self) -> (r: MapStats)
        requires
            sum_lines(self.files_v()) <= usize::MAX,
            sum_sizes(self.files_v()) <= u64::MAX,
        ensures
            stats_view(r) == stats_of(self.files_v(), self.dirs_v(), self.symbols_v()),
    {
        let ghost fs = self.files_v();
        let mut total_lines: usize = 0;
        let mut total_size: u64 = 0;
        let mut langs: Vec<String> = Vec::new();
        let mut roles: Vec<String> = Vec::new();
        let mut i: usize = 0;
        while i < self.files.len()
            invariant
                i <= self.files@.len(),
                fs == self.files_v(),
                sum_lines(fs) <= usize::MAX,
                sum_sizes(fs) <= u64::MAX,
                total_lines == sum_lines(fs.take(i as int)),
                total_size == sum_sizes(fs.take(i as int)),
                langs@.map_values(|s: String| s@) == file_languages(fs.take(i as int)),
                roles@.map_values(|s: String| s@) == file_role_texts(fs.take(i as int)),
            decreases self.files.len() - i,
        {
            let f = &self.files[i];
            assert(fs.take(i + 1).drop_last() =~= fs.take(i as int));
            assert(fs.take(i + 1).last() == f@);
            proof {
                lemma_sums_prefix(fs, i + 1);
            }
            total_lines = total_lines + f.line_count;
            total_size = total_size + f.size_bytes;
            let l = f.language.clone();
            let ghost lb = langs@;
            langs.push(l);
            assert(langs@.map_values(|s: String| s@) =~= lb.map_values(|s: String| s@).push(l@));
            assert(file_languages(fs.take(i + 1)) =~= file_languages(fs.take(i as int)).push(f@.language));
            let rname = owned(role_name(f.role));
            let ghost rb = roles@;
            roles.push(rname);
            assert(roles@.map_values(|s: String| s@) =~= rb.map_values(|s: String| s@).push(rname@));
            assert(file_role_texts(fs.take(i + 1)) =~= file_role_texts(fs.take(i as int)).push(
                role_text(f.role),
            ));
            i += 1;
        }
        assert(fs.take(self.files@.len() as int) =~= fs);
        let languages = tally_exec(&langs);
        let role_counts = tally_exec(&roles);
        MapStats {
            total_files: self.files.len(),
            total_directories: self.directories.len(),
            total_symbols: self.symbols.len(),
            total_lines,
            total_size_bytes: total_size,
            languages,
            roles: role_counts,
        }
    }

    /// Whether the total line count fits in `usize` and the total size in
    /// `u64`, as the statistics need.
    pub fn totals_fit(&self) -> (r: bool)
        ensures
            r == (sum_lines(self.files_v()) <= usize::MAX && sum_sizes(self.files_v()) <= u64::MAX),
    {
        let ghost fs = self.files_v();
        let mut total_lines: usize = 0;
        let mut total_size: u64 = 0;
        let mut i: usize = 0;
        while i < self.files.len()
            invariant
                i <= self.files@.len(),
                fs == self.files_v(),
                total_lines == sum_lines(fs.take(i as int)),
                total_size == sum_sizes(fs.take(i as int)),
            decreases self.files.len() - i,
        {
            let f = &self.files[i];
            assert(fs.take(i + 1).drop_last() =~= fs.take(i as int));
            assert(fs.take(i + 1).last() == f@);
            proof {
                lemma_sums_prefix(fs, i + 1);
            }
            match total_lines.checked_add(f.line_count) {
                Some(t) => total_lines = t,
                None => return false,
            }
            match total_size.checked_add(f.size_bytes) {
                Some(t) => total_size = t,
                None => return false,
            }
            i += 1;
        }
        assert(fs.take(self.files@.len() as int) =~= fs);
        true
    }

    /// The map as a record: root, files, directories, symbols,
    /// relationships and statistics.
    pub fn to_ir(&self) -> (r: ProjectMapIR)
        requires
            sum_lines(self.files_v()) <= usize::MAX,
            sum_sizes(self.files_v()) <= u64::MAX,
        ensures
            r.root_path@ == self.root_v(),
            file_views(r.files@) == self.files_v(),
            dir_views(r.directories@) == self.dirs_v(),
            symbol_views(r.symbols@) == self.symbols_v(),
            rel_views(r.relationships@) == self.rels_v(),
            stats_view(r.stats) == stats_of(self.files_v(), self.dirs_v(), self.symbols_v()),
    {
        let stats = self.compute_stats();
        let mut files: Vec<FileNode> = Vec::new();
        let mut i: usize = 0;
        while i < self.files.len()
            invariant
                i <= self.files@.len(),
                file_views(files@) == self.files_v().take(i as int),
            decreases self.files.len() - i,
        {
            let c = copy_file(&self.files[i]);
            let ghost before = files@;
            files.push(c);
            assert(self.files_v()[i as int] == self.files@[i as int]@);
            assert(file_views(files@) =~= file_views(before).push(c@));
            assert(self.files_v().take(i + 1) =~= self.files_v().take(i as int).push(c@));
            i += 1;
        }
        assert(self.files_v().take(self.files@.len() as int) =~= self.files_v());
        let mut directories: Vec<DirectoryNode> = Vec::new();
        let mut i: usize = 0;
        while i < self.directories.len()
            invariant
                i <= self.directories@.len(),
                dir_views(directories@) == self.dirs_v().take(i as int),
            decreases self.directories.len() - i,
        {
            let c = dir_plus(&self.directories[i], 0, 0);
            let ghost before = directories@;
            directories.push(c);
            assert(self.dirs_v()[i as int] == self.directories@[i as int]@);
            assert(dir_views(directories@) =~= dir_views(before).push(c@));
            assert(self.dirs_v().take(i + 1) =~= self.dirs_v().take(i as int).push(c@));
            i += 1;
        }
        assert(self.dirs_v().take(self.directories@.len() as int) =~= self.dirs_v());
        let mut symbols: Vec<Symbol> = Vec::new();
        let mut i: usize = 0;
        while i < self.symbols.len()
            invariant
                i <= self.symbols@.len(),
                symbol_views(symbols@) == self.symbols_v().take(i as int),
            decreases self.symbols.len() - i,
        {
            let c = copy_symbol(&self.symbols[i]);
            let ghost before = symbols@;
            symbols.push(c);
            assert(self.symbols_v()[i as int] == self.symbols@[i as int]@);
            assert(symbol_views(symbols@) =~= symbol_views(before).push(c@));
            assert(self.symbols_v().take(i + 1) =~= self.symbols_v().take(i as int).push(c@));
            i += 1;
        }
        assert(self.symbols_v().take(self.symbols@.len() as int) =~= self.symbols_v());
        let mut relationships: Vec<Relationship> = Vec::new();
        let mut i: usize = 0;
        while i < self.relationships.len()
            invariant
                i <= self.relationships@.len(),
                rel_views(relationships@) == self.rels_v().take(i as int),
            decreases self.relationships.len() - i,
        {
            let c = copy_rel(&self.relationships[i]);
            let ghost before = relationships@;
            relationships.push(c);
            assert(self.rels_v()[i as int] == self.relationships@[i as int]@);
            assert(rel_views(relationships@) =~= rel_views(before).push(c@));
            assert(self.rels_v().take(i + 1) =~= self.rels_v().take(i as int).push(c@));
            i += 1;
        }
        assert(self.rels_v().take(self.relationships@.len() as int) =~= self.rels_v());
        ProjectMapIR {
            root_path: self.root_path.clone(),
            files,
            directories,
            symbols,
            relationships,
            stats,
        }
    }

    /// Sets the role of every file.
    fn classify_roles(&mut self)
        ensures
            final(self).files_v() == files_with_roles(old(self).files_v()),
            final(self).symbols_v() == old(self).symbols_v(),
            final(self).dirs_v() == old(self).dirs_v(),
            final(self).rels_v() == old(self).rels_v(),
            final(self).root_v() == old(self).root_v(),
    {
        let classifier = RoleClassifier::new();
        let ghost fs0 = file_views(self.files@);
        let mut i: usize = 0;
        while i < self.files.len()
            invariant
                i <= self.files@.len() == fs0.len(),
                self.symbols@ == old(self).symbols@,
                self.directories@ == old(self).directories@,
                self.relationships@ == old(self).relationships@,
                self.root_path == old(self).root_path,
                forall|j: int|
                    0 <= j < fs0.len() ==> #[trigger] file_views(self.files@)[j] == if j < i {
                        files_with_roles(fs0)[j]
                    } else {
                        fs0[j]
                    },
            decreases self.files.len() - i,
        {
            let role = classifier.classify(&self.files[i]);
            let ghost before = self.files@;
            assert(file_views(before)[i as int] == fs0[i as int]);
            self.files[i].role = role;
            assert(file_views(self.files@)[i as int] == files_with_roles(fs0)[i as int]);
            proof {
                assert forall|j: int| 0 <= j < fs0.len() implies #[trigger] file_views(self.files@)[j]
                    == if j < i + 1 {
                    files_with_roles(fs0)[j]
                } else {
                    fs0[j]
                } by {
                    if j != i {
                        assert(self.files@[j] == before[j]);
                        assert(file_views(before)[j] == file_views(self.files@)[j]);
                    }
                }
            }
            i += 1;
        }
        assert(file_views(self.files@) =~= files_with_roles(fs0));
    }
}

} // verus!
