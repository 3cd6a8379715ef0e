//! Ignore rules of the scanner.

use vstd::prelude::*;
use crate::paths::{file_name, file_name_exec};
use crate::text::{chars_of, finishes, split_char, split_char_exec, str_finishes, str_same};

verus! {

/// A directory name the scan never enters.
pub open spec fn is_ignored_dir(n: Seq<char>) -> bool {
    n == ".git"@ || n == "node_modules"@ || n == "target"@ || n == "dist"@ || n == "build"@ || n
        == ".venv"@ || n == "venv"@ || n == "__pycache__"@ || n == ".cache"@ || n == ".idea"@ || n
        == ".vscode"@ || n == ".DS_Store"@
}

/// A file name the scan skips: lock files and images, archives and binaries
/// by extension.
pub open spec fn is_ignored_file_name(f: Seq<char>) -> bool {
    f == "package-lock.json"@ || f == "yarn.lock"@ || f == "pnpm-lock.yaml"@ || finishes(f, ".png"@)
        || finishes(f, ".jpg"@) || finishes(f, ".jpeg"@) || finishes(f, ".gif"@) || finishes(
        f,
        ".mp4"@,
    ) || finishes(f, ".zip"@) || finishes(f, ".exe"@) || finishes(f, ".dll"@) || finishes(f, ".so"@)
}

/// A path the scan skips: one of its `/`-separated parts is an ignored
/// directory name, or its file name is ignored.
pub open spec fn ignored_path(p: Seq<char>) -> bool {
    (exists|i: int| 0 <= i < split_char(p, '/').len() && is_ignored_dir(#[trigger] split_char(p, '/')[i]))
        || match file_name(p) {
        Some(f) => is_ignored_file_name(f),
        None => false,
    }
}

fn is_ignored_dir_exec(n: &[char]) -> (r: bool)
    ensures
        r == is_ignored_dir(n@),
{
    str_same(n, ".git") || str_same(n, "node_modules") || str_same(n, "target") || str_same(n, "dist")
        || str_same(n, "build") || str_same(n, ".venv") || str_same(n, "venv") || str_same(
        n,
        "__pycache__",
    ) || str_same(n, ".cache") || str_same(n, ".idea") || str_same(n, ".vscode") || str_same(
        n,
        ".DS_Store",
    )
}

fn is_ignored_file_name_exec(f: &[char]) -> (r: bool)
    ensures
        r == is_ignored_file_name(f@),
{
    str_same(f, "package-lock.json") || str_same(f, "yarn.lock") || str_same(f, "pnpm-lock.yaml")
        || str_finishes(f, ".png") || str_finishes(f, ".jpg") || str_finishes(f, ".jpeg")
        || str_finishes(f, ".gif") || str_finishes(f, ".mp4") || str_finishes(f, ".zip")
        || str_finishes(f, ".exe") || str_finishes(f, ".dll") || str_finishes(f, ".so")
}

/// Whether the scan skips `path` (see `ignored_path`); `base`, the scanned
/// directory, takes no part in the decision.
pub fn should_ignore(path: &str, base: &str) -> (r: bool)
    ensures
        r == ignored_path(path@),
{
    let p = chars_of(path);
    let parts = split_char_exec(p.as_slice(), '/');
    let mut i: usize = 0;
    while i < parts.len()
        invariant
            i <= parts@.len(),
            parts@.len() == split_char(path@, '/').len(),
            forall|k: int| 0 <= k < parts@.len() ==> #[trigger] parts@[k]@ == split_char(path@, '/')[k],
            forall|k: int| 0 <= k < i ==> !is_ignored_dir(#[trigger] split_char(path@, '/')[k]),
        decreases parts.len() - i,
    {
        if is_ignored_dir_exec(parts[i].as_slice()) {
            return true;
        }
        i += 1;
    }
    match file_name_exec(p.as_slice()) {
        Some(f) => is_ignored_file_name_exec(f.as_slice()),
        None => false,
    }
}

/// The scan never enters version-control, dependency, build, virtual
/// environment, cache and editor directories, wherever they stand in the
/// path, and skips lock files and images, video, archives and binaries.
pub proof fn lemma_ignore_rules(p: Seq<char>, k: int)
    ensures
        0 <= k < split_char(p, '/').len() && ({
            let n = split_char(p, '/')[k];
            n == ".git"@ || n == "node_modules"@ || n == "target"@ || n == "dist"@ || n == "build"@ || n
                == ".venv"@ || n == "venv"@ || n == "__pycache__"@ || n == ".cache"@ || n == ".idea"@
                || n == ".vscode"@ || n == ".DS_Store"@
        }) ==> ignored_path(p),
        (file_name(p) matches Some(f) && (f == "package-lock.json"@ || f == "yarn.lock"@ || f
            == "pnpm-lock.yaml"@ || finishes(f, ".png"@) || finishes(f, ".jpg"@) || finishes(f, ".jpeg"@)
            || finishes(f, ".gif"@) || finishes(f, ".mp4"@) || finishes(f, ".zip"@) || finishes(f, ".exe"@)
            || finishes(f, ".dll"@) || finishes(f, ".so"@))) ==> ignored_path(p),
{
    if 0 <= k < split_char(p, '/').len() {
        assert(is_ignored_dir(split_char(p, '/')[k]) ==> ignored_path(p));
    }
}

} // verus!
