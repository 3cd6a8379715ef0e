//! Role of each file in the project, from keywords in its name and path.

use vstd::prelude::*;
use crate::ir::schema::{FileObject, FileRoleObject};
use crate::text::{
    after_last, after_last_exec, chars_of, contains_text, finishes, lowercase, lowercase_chars, owned,
    str_contains, str_finishes, str_same,
};

verus! {

/// The keyword `k` occurs in the lowercase file name `f` or the lowercase
/// path `p`.
pub open spec fn mentions(f: Seq<char>, p: Seq<char>, k: Seq<char>) -> bool {
    contains_text(f, k) || contains_text(p, k)
}

fn mentions_exec(f: &[char], p: &[char], k: &str) -> (r: bool)
    ensures
        r == mentions(f@, p@, k@),
{
    str_contains(f, k) || str_contains(p, k)
}

/// The name or path carries a keyword of a core logic, analysis or engine file.
pub open spec fn is_brain_name(f: Seq<char>, p: Seq<char>) -> bool {
    mentions(f, p, "analyzer"@)
        || mentions(f, p, "engine"@)
        || mentions(f, p, "core"@)
        || mentions(f, p, "service"@)
        || mentions(f, p, "planner"@)
        || mentions(f, p, "parser"@)
        || mentions(f, p, "processor"@)
        || mentions(f, p, "compiler"@)
        || mentions(f, p, "interpreter"@)
}

fn is_brain_file(f: &[char], p: &[char]) -> (r: bool)
    ensures
        r == is_brain_name(f@, p@),
{
    mentions_exec(f, p, "analyzer")
        || mentions_exec(f, p, "engine")
        || mentions_exec(f, p, "core")
        || mentions_exec(f, p, "service")
        || mentions_exec(f, p, "planner")
        || mentions_exec(f, p, "parser")
        || mentions_exec(f, p, "processor")
        || mentions_exec(f, p, "compiler")
        || mentions_exec(f, p, "interpreter")
}

/// The name or path carries a keyword of a execution entry point file.
pub open spec fn is_entry_name(f: Seq<char>, p: Seq<char>) -> bool {
    mentions(f, p, "main"@)
        || mentions(f, p, "index"@)
        || mentions(f, p, "app"@)
        || mentions(f, p, "cli"@)
        || mentions(f, p, "entry"@)
        || mentions(f, p, "bootstrap"@)
        || mentions(f, p, "init"@)
}

fn is_entry_file(f: &[char], p: &[char]) -> (r: bool)
    ensures
        r == is_entry_name(f@, p@),
{
    mentions_exec(f, p, "main")
        || mentions_exec(f, p, "index")
        || mentions_exec(f, p, "app")
        || mentions_exec(f, p, "cli")
        || mentions_exec(f, p, "entry")
        || mentions_exec(f, p, "bootstrap")
        || mentions_exec(f, p, "init")
}

/// The name or path carries a keyword of a API, route or command interface file.
pub open spec fn is_interface_name(f: Seq<char>, p: Seq<char>) -> bool {
    mentions(f, p, "routes"@)
        || mentions(f, p, "api"@)
        || mentions(f, p, "ui"@)
        || mentions(f, p, "commands"@)
        || mentions(f, p, "controller"@)
        || mentions(f, p, "handlers"@)
        || mentions(f, p, "views"@)
        || mentions(f, p, "pages"@)
}

fn is_interface_file(f: &[char], p: &[char]) -> (r: bool)
    ensures
        r == is_interface_name(f@, p@),
{
    mentions_exec(f, p, "routes")
        || mentions_exec(f, p, "api")
        || mentions_exec(f, p, "ui")
        || mentions_exec(f, p, "commands")
        || mentions_exec(f, p, "controller")
        || mentions_exec(f, p, "handlers")
        || mentions_exec(f, p, "views")
        || mentions_exec(f, p, "pages")
}

/// The name or path carries a keyword of a integration with an outside service file.
pub open spec fn is_connector_name(f: Seq<char>, p: Seq<char>) -> bool {
    mentions(f, p, "provider"@)
        || mentions(f, p, "client"@)
        || mentions(f, p, "adapter"@)
        || mentions(f, p, "db"@)
        || mentions(f, p, "database"@)
        || mentions(f, p, "http"@)
        || mentions(f, p, "integration"@)
        || mentions(f, p, "repository"@)
}

fn is_connector_file(f: &[char], p: &[char]) -> (r: bool)
    ensures
        r == is_connector_name(f@, p@),
{
    mentions_exec(f, p, "provider")
        || mentions_exec(f, p, "client")
        || mentions_exec(f, p, "adapter")
        || mentions_exec(f, p, "db")
        || mentions_exec(f, p, "database")
        || mentions_exec(f, p, "http")
        || mentions_exec(f, p, "integration")
        || mentions_exec(f, p, "repository")
}

/// The name or path carries a keyword of a configuration file.
pub open spec fn is_config_name(f: Seq<char>, p: Seq<char>) -> bool {
    mentions(f, p, "config"@)
        || mentions(f, p, "settings"@)
        || mentions(f, p, "env"@)
        || mentions(f, p, "constant"@)
        || mentions(f, p, "defaults"@)
}

fn is_config_file(f: &[char], p: &[char]) -> (r: bool)
    ensures
        r == is_config_name(f@, p@),
{
    mentions_exec(f, p, "config")
        || mentions_exec(f, p, "settings")
        || mentions_exec(f, p, "env")
        || mentions_exec(f, p, "constant")
        || mentions_exec(f, p, "defaults")
}

/// The name or path carries a keyword of a helper code file.
pub open spec fn is_utility_name(f: Seq<char>, p: Seq<char>) -> bool {
    mentions(f, p, "utils"@)
        || mentions(f, p, "helpers"@)
        || mentions(f, p, "common"@)
        || mentions(f, p, "shared"@)
        || mentions(f, p, "tools"@)
        || mentions(f, p, "functions"@)
        || mentions(f, p, "lib"@)
}

fn is_utility_file(f: &[char], p: &[char]) -> (r: bool)
    ensures
        r == is_utility_name(f@, p@),
{
    mentions_exec(f, p, "utils")
        || mentions_exec(f, p, "helpers")
        || mentions_exec(f, p, "common")
        || mentions_exec(f, p, "shared")
        || mentions_exec(f, p, "tools")
        || mentions_exec(f, p, "functions")
        || mentions_exec(f, p, "lib")
}

/// The name or path carries a keyword of a report, rendering or export file.
pub open spec fn is_output_name(f: Seq<char>, p: Seq<char>) -> bool {
    mentions(f, p, "report"@)
        || mentions(f, p, "exporter"@)
        || mentions(f, p, "markdown"@)
        || mentions(f, p, "renderer"@)
        || mentions(f, p, "generator"@)
        || mentions(f, p, "builder"@)
        || mentions(f, p, "printer"@)
}

fn is_output_file(f: &[char], p: &[char]) -> (r: bool)
    ensures
        r == is_output_name(f@, p@),
{
    mentions_exec(f, p, "report")
        || mentions_exec(f, p, "exporter")
        || mentions_exec(f, p, "markdown")
        || mentions_exec(f, p, "renderer")
        || mentions_exec(f, p, "generator")
        || mentions_exec(f, p, "builder")
        || mentions_exec(f, p, "printer")
}

/// The name or path carries a keyword of a security-sensitive file.
pub open spec fn has_dangerous_keyword(f: Seq<char>, p: Seq<char>) -> bool {
    mentions(f, p, "auth"@)
        || mentions(f, p, "secret"@)
        || mentions(f, p, "credential"@)
        || mentions(f, p, "token"@)
        || mentions(f, p, "permission"@)
        || mentions(f, p, "deploy"@)
        || mentions(f, p, "key"@)
}

fn has_dangerous_keyword_exec(f: &[char], p: &[char]) -> (r: bool)
    ensures
        r == has_dangerous_keyword(f@, p@),
{
    mentions_exec(f, p, "auth")
        || mentions_exec(f, p, "secret")
        || mentions_exec(f, p, "credential")
        || mentions_exec(f, p, "token")
        || mentions_exec(f, p, "permission")
        || mentions_exec(f, p, "deploy")
        || mentions_exec(f, p, "key")
}

/// A security-sensitive file: a keyword, a `.env` name, a key or certificate
/// name, or the `env` extension.
pub open spec fn is_dangerous_name(f: Seq<char>, p: Seq<char>, ext: Seq<char>) -> bool {
    has_dangerous_keyword(f, p) || f == ".env"@ || finishes(f, ".pem"@) || finishes(f, ".key"@)
        || ext == "env"@
}

fn is_dangerous_file(f: &[char], p: &[char], file: &FileObject) -> (r: bool)
    ensures
        r == is_dangerous_name(f@, p@, file.extension@),
{
    let is_keyword = has_dangerous_keyword_exec(f, p);
    let ext = chars_of(file.extension.as_str());
    is_keyword || str_same(f, ".env") || str_finishes(f, ".pem") || str_finishes(f, ".key")
        || str_same(ext.as_slice(), "env")
}

/// Role, importance, confidence (hundredths) and reason of a file that is
/// neither a test nor generated, from its lowercase name `f`, lowercase path
/// `p`, configuration flag and extension. The first matching rule wins.
pub open spec fn role_decision(f: Seq<char>, p: Seq<char>, is_config: bool, ext: Seq<char>) -> (
    Seq<char>,
    Seq<char>,
    u32,
    Seq<char>,
) {
    if is_brain_name(f, p) {
        ("Brain"@, "High"@, 85u32, "Core logic/analyzer/engine file"@)
    } else if is_entry_name(f, p) {
        ("Entry"@, "High"@, 90u32, "Execution entry point or index"@)
    } else if is_interface_name(f, p) {
        ("Interface"@, "Medium"@, 80u32, "API/routes/commands interface"@)
    } else if is_connector_name(f, p) {
        ("Connector"@, "Medium"@, 78u32, "External service integration"@)
    } else if is_config || is_config_name(f, p) {
        ("Config"@, "Medium"@, 92u32, "Configuration file"@)
    } else if is_utility_name(f, p) {
        ("Utility"@, "Low"@, 75u32, "Helper/utility function"@)
    } else if is_output_name(f, p) {
        ("Output"@, "Medium"@, 80u32, "Report/render/export logic"@)
    } else if is_dangerous_name(f, p, ext) {
        ("Dangerous"@, "High"@, 88u32, "Security-sensitive file"@)
    } else {
        ("Utility"@, "Low"@, 50u32, "General purpose file"@)
    }
}

/// The role record of `file`: none for test and generated files, otherwise
/// the first rule of `role_decision` that the lowercase file name (the text
/// after the last `/`) and lowercase path match.
pub open spec fn file_role_of(file: FileObject) -> Option<(Seq<char>, Seq<char>, u32, Seq<char>)> {
    if file.is_test || file.is_generated {
        None
    } else {
        Some(
            role_decision(
                lowercase(after_last(file.path@, '/')),
                lowercase(file.path@),
                file.is_config,
                file.extension@,
            ),
        )
    }
}

/// The record matches the decision `d` for the file at `path`.
pub open spec fn role_record_is(o: FileRoleObject, path: Seq<char>, d: (Seq<char>, Seq<char>, u32, Seq<char>)) -> bool {
    &&& o.file@ == path
    &&& o.role@ == d.0
    &&& o.importance@ == d.1
    &&& o.confidence == d.2
    &&& o.reason@ == d.3
}

fn role_record(file: &FileObject, role: &str, importance: &str, confidence: u32, reason: &str) -> (r: FileRoleObject)
    ensures
        role_record_is(r, file.path@, (role@, importance@, confidence, reason@)),
{
    FileRoleObject {
        file: file.path.clone(),
        role: owned(role),
        importance: owned(importance),
        confidence,
        reason: owned(reason),
    }
}

/// The role of one file (see `file_role_of`).
pub fn determine_file_role(file: &FileObject) -> (r: Option<FileRoleObject>)
    ensures
        match file_role_of(*file) {
            Some(d) => r is Some && role_record_is(r->0, file.path@, d),
            None => r is None,
        },
{
    let path = chars_of(file.path.as_str());
    let base = after_last_exec(path.as_slice(), '/');
    let base_str = crate::text::string_of(base.as_slice());
    let filename = lowercase_chars(base_str.as_str());
    let path_lower = lowercase_chars(file.path.as_str());
    if file.is_test || file.is_generated {
        return None;
    }
    let f = filename.as_slice();
    let p = path_lower.as_slice();
    let o = if is_brain_file(f, p) {
        role_record(file, "Brain", "High", 85, "Core logic/analyzer/engine file")
    } else if is_entry_file(f, p) {
        role_record(file, "Entry", "High", 90, "Execution entry point or index")
    } else if is_interface_file(f, p) {
        role_record(file, "Interface", "Medium", 80, "API/routes/commands interface")
    } else if is_connector_file(f, p) {
        role_record(file, "Connector", "Medium", 78, "External service integration")
    } else if file.is_config || is_config_file(f, p) {
        role_record(file, "Config", "Medium", 92, "Configuration file")
    } else if is_utility_file(f, p) {
        role_record(file, "Utility", "Low", 75, "Helper/utility function")
    } else if is_output_file(f, p) {
        role_record(file, "Output", "Medium", 80, "Report/render/export logic")
    } else if is_dangerous_file(f, p, file) {
        role_record(file, "Dangerous", "High", 88, "Security-sensitive file")
    } else {
        role_record(file, "Utility", "Low", 50, "General purpose file")
    };
    Some(o)
}

/// The role records of all files that are neither tests nor generated, in
/// file order.
pub open spec fn role_list(fs: Seq<FileObject>) -> Seq<(Seq<char>, (Seq<char>, Seq<char>, u32, Seq<char>))>
    decreases fs.len(),
{
    if fs.len() == 0 {
        Seq::empty()
    } else {
        let acc = role_list(fs.drop_last());
        match file_role_of(fs.last()) {
            Some(d) => acc.push((fs.last().path@, d)),
            None => acc,
        }
    }
}

/// Classifies every file (see `file_role_of`); tests and generated files
/// get no record.
pub fn classify_file_roles(files: &[FileObject]) -> (r: Vec<FileRoleObject>)
    ensures
        r@.len() == role_list(files@).len(),
        forall|k: int| 0 <= k < r@.len() ==> role_record_is(#[trigger] r@[k], role_list(files@)[k].0, role_list(files@)[k].1),
{
    let mut r: Vec<FileRoleObject> = Vec::new();
    let mut i: usize = 0;
    while i < files.len()
        invariant
            i <= files.len(),
            r@.len() == role_list(files@.take(i as int)).len(),
            forall|k: int| 0 <= k < r@.len() ==> role_record_is(#[trigger] r@[k], role_list(files@.take(i as int))[k].0, role_list(files@.take(i as int))[k].1),
        decreases files.len() - i,
    {
        proof {
            assert(files@.take(i + 1).drop_last() =~= files@.take(i as int));
            assert(files@.take(i + 1).last() == files@[i as int]);
        }
        match determine_file_role(&files[i]) {
            Some(o) => {
                r.push(o);
            },
            None => {},
        }
        i += 1;
    }
    assert(files@.take(files@.len() as int) =~= files@);
    r
}

/// Test and generated files get no role; every other file gets one of the
/// eight roles. The role depends only on the file's path, its extension and
/// its configuration flag: two such files that agree on these get the same
/// role record.
pub proof fn lemma_file_role_rules(file: FileObject, other: FileObject)
    ensures
        file.is_test || file.is_generated ==> file_role_of(file) is None,
        !file.is_test && !file.is_generated ==> (file_role_of(file) matches Some(d) && (d.0 == "Brain"@ || d.0
            == "Entry"@ || d.0 == "Interface"@ || d.0 == "Connector"@ || d.0 == "Config"@ || d.0 == "Utility"@
            || d.0 == "Output"@ || d.0 == "Dangerous"@)),
        !file.is_test && !file.is_generated && !other.is_test && !other.is_generated && file.path@ == other.path@
            && file.extension@ == other.extension@ && file.is_config == other.is_config ==> file_role_of(file)
            == file_role_of(other),
        !file.is_test && !file.is_generated && file.is_config ==> (file_role_of(file) matches Some(d) && (d.0
            == "Brain"@ || d.0 == "Entry"@ || d.0 == "Interface"@ || d.0 == "Connector"@ || d.0 == "Config"@)),
{
}

} // verus!
