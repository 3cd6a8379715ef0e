//! The record of one scanned file, from what was read of it.

use vstd::prelude::*;
use crate::ir::schema::FileObject;
use crate::analyzer::language::{detect_language_from_path, language_of_path};
use crate::paths::{extension, extension_exec, file_name, file_name_exec};
use crate::text::{chars_of, contains_text, finishes, lines, lines_exec, owned, str_contains, str_finishes, str_same, string_of};
use crate::utils::hash::{compute_sha256, hex_of, sha256};

verus! {

/// A generated file: its name or its path says so.
pub open spec fn looks_generated(name: Seq<char>, rel: Seq<char>) -> bool {
    contains_text(name, ".generated"@) || contains_text(name, ".min."@) || contains_text(rel, "/generated/"@)
}

/// A test file: its name or its path says so.
pub open spec fn looks_test(name: Seq<char>, rel: Seq<char>) -> bool {
    contains_text(name, ".test."@) || contains_text(name, "_test."@) || contains_text(rel, "/test/"@)
        || contains_text(rel, "/tests/"@) || contains_text(rel, "__tests__"@)
}

/// A configuration file: a well-known manifest, a bundler configuration, or
/// a TOML or YAML file.
pub open spec fn looks_config(name: Seq<char>, ext: Seq<char>) -> bool {
    name == "Cargo.toml"@ || name == "package.json"@ || name == "requirements.txt"@ || name
        == "pyproject.toml"@ || name == "go.mod"@ || name == "pom.xml"@ || finishes(name, ".config.js"@)
        || finishes(name, ".config.ts"@) || ext == "toml"@ || ext == "yaml"@ || ext == "yml"@
}

/// `o` unwrapped, or the empty text.
pub open spec fn or_empty(o: Option<Seq<char>>) -> Seq<char> {
    match o {
        Some(s) => s,
        None => Seq::empty(),
    }
}

/// The view of optional bytes.
pub open spec fn bytes_view(b: Option<&[u8]>) -> Option<Seq<u8>> {
    match b {
        Some(s) => Some(s@),
        None => None,
    }
}

/// The record of a file at `path` (relative to the scanned directory as
/// `relative_path`), of `size_bytes` bytes, whose text is `text` when it was
/// valid UTF-8 and whose bytes are `bytes` when they could be read.
pub open spec fn file_record(
    path: Seq<char>,
    relative_path: Seq<char>,
    absolute_path: Seq<char>,
    size_bytes: u64,
    text: Option<Seq<char>>,
    bytes: Option<Seq<u8>>,
    f: FileObject,
) -> bool {
    let name = or_empty(file_name(path));
    let ext = or_empty(extension(path));
    let content = or_empty(text);
    &&& f.path@ == relative_path
    &&& f.absolute_path@ == absolute_path
    &&& f.extension@ == ext
    &&& f.language@ == language_of_path(path).0
    &&& f.size_bytes == size_bytes
    &&& f.line_count == lines(content).len()
    &&& f.hash@ == match bytes {
        Some(b) => hex_of(sha256(b)),
        None => "unknown"@,
    }
    &&& f.is_binary == contains_text(content, seq!['\0'])
    &&& f.is_generated == looks_generated(name, relative_path)
    &&& f.is_test == looks_test(name, relative_path)
    &&& f.is_config == looks_config(name, ext)
    &&& !f.ignored
}

/// The record of one scanned file (see `file_record`).
pub fn collect_file_metadata(
    path: &str,
    relative_path: &str,
    absolute_path: &str,
    size_bytes: u64,
    text: Option<&str>,
    bytes: Option<&[u8]>,
) -> (r: FileObject)
    ensures
        file_record(
            path@,
            relative_path@,
            absolute_path@,
            size_bytes,
            crate::risk::secrets::opt_view(text),
            bytes_view(bytes),
            r,
        ),
{
    let pc = chars_of(path);
    let name = match file_name_exec(pc.as_slice()) {
        Some(n) => n,
        None => Vec::new(),
    };
    let ext = match extension_exec(pc.as_slice()) {
        Some(e) => e,
        None => Vec::new(),
    };
    let content = match text {
        Some(t) => chars_of(t),
        None => Vec::new(),
    };
    let line_count = lines_exec(content.as_slice()).len();
    let nul = ['\0'];
    assert(nul@ =~= seq!['\0']);
    let is_binary = crate::text::contains_exec(content.as_slice(), &nul);
    let hash = match bytes {
        Some(b) => compute_sha256(b),
        None => owned("unknown"),
    };
    let (language, _confidence) = detect_language_from_path(path);
    let rc = chars_of(relative_path);
    let n = name.as_slice();
    let rel = rc.as_slice();
    let e = ext.as_slice();
    let is_generated = str_contains(n, ".generated") || str_contains(n, ".min.") || str_contains(rel, "/generated/");
    let is_test = str_contains(n, ".test.") || str_contains(n, "_test.") || str_contains(rel, "/test/")
        || str_contains(rel, "/tests/") || str_contains(rel, "__tests__");
    let is_config = str_same(n, "Cargo.toml") || str_same(n, "package.json") || str_same(n, "requirements.txt")
        || str_same(n, "pyproject.toml") || str_same(n, "go.mod") || str_same(n, "pom.xml") || str_finishes(
        n,
        ".config.js",
    ) || str_finishes(n, ".config.ts") || str_same(e, "toml") || str_same(e, "yaml") || str_same(e, "yml");
    FileObject {
        path: owned(relative_path),
        absolute_path: owned(absolute_path),
        extension: string_of(e),
        language,
        size_bytes,
        line_count,
        hash,
        is_binary,
        is_generated,
        is_test,
        is_config,
        ignored: false,
    }
}

} // verus!
