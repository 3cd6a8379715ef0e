//! Secret and key detection from file names and file contents.

use vstd::prelude::*;
use crate::ir::schema::{FileObject, RiskFlagObject};
use crate::text::{
    after_last, after_last_exec, begins, chars_of, contains_text, count_char, count_char_exec,
    finishes, lines, lines_exec, lowercase, lowercase_chars, owned, str_begins, str_contains,
    str_finishes, str_same, string_of,
};

verus! {

/// The facts of a risk flag: type, severity, confidence (hundredths), reason
/// and advised action.
pub type RiskFacts = (Seq<char>, Seq<char>, u32, Seq<char>, Seq<char>);

/// The flag is about file `f` and carries the facts `d`.
pub open spec fn risk_is(r: RiskFlagObject, f: Seq<char>, d: RiskFacts) -> bool {
    &&& r.file@ == f
    &&& r.risk_type@ == d.0
    &&& r.severity@ == d.1
    &&& r.confidence == d.2
    &&& r.reason@ == d.3
    &&& r.safe_action@ == d.4
}

pub(crate) fn risk_record(file: &FileObject, risk_type: &str, severity: &str, confidence: u32, reason: String, safe_action: &str) -> (r: RiskFlagObject)
    ensures
        risk_is(r, file.path@, (risk_type@, severity@, confidence, reason@, safe_action@)),
{
    RiskFlagObject {
        file: file.path.clone(),
        risk_type: owned(risk_type),
        severity: owned(severity),
        confidence,
        reason,
        safe_action: owned(safe_action),
    }
}

/// A line that reads a value from the environment rather than holding it.
pub open spec fn reads_environment(lower: Seq<char>) -> bool {
    contains_text(lower, "os.environ"@) || contains_text(lower, "process.env"@) || contains_text(
        lower,
        "getenv"@,
    ) || contains_text(lower, "std::env"@)
}

/// A line that looks like it assigns a string literal: it holds a quote
/// character and at least two quote characters in all.
pub open spec fn line_holds_literal(line: Seq<char>) -> bool {
    let lower = lowercase(line);
    !reads_environment(lower) && (contains_text(lower, seq!['"']) || contains_text(lower, seq!['\'']))
        && count_char(line, '"') + count_char(line, '\'') >= 2
}

/// One of the first twenty lines of `content` holds a string literal and does
/// not read the environment.
pub open spec fn likely_hardcoded_secret(content: Seq<char>) -> bool {
    exists|i: int| 0 <= i < lines(content).len() && i < 20 && line_holds_literal(#[trigger] lines(content)[i])
}

/// Whether the first twenty lines of `content` suggest a hard-coded secret.
pub fn is_likely_hardcoded_secret(content: &str) -> (r: bool)
    ensures
        r == likely_hardcoded_secret(content@),
{
    let cs = chars_of(content);
    let ls = lines_exec(cs.as_slice());
    let mut i: usize = 0;
    while i < ls.len() && i < 20
        invariant
            i <= ls@.len(),
            ls@.len() == lines(content@).len(),
            forall|k: int| 0 <= k < ls@.len() ==> #[trigger] ls@[k]@ == lines(content@)[k],
            forall|k: int| 0 <= k < i ==> !line_holds_literal(#[trigger] lines(content@)[k]),
        decreases ls.len() - i,
    {
        let line = &ls[i];
        let line_str = string_of(line.as_slice());
        let lower = lowercase_chars(line_str.as_str());
        let l = lower.as_slice();
        let env = str_contains(l, "os.environ") || str_contains(l, "process.env") || str_contains(l, "getenv")
            || str_contains(l, "std::env");
        if !env {
            let dq = ['"'];
            let sq = ['\''];
            assert(dq@ =~= seq!['"']);
            assert(sq@ =~= seq!['\'']);
            if crate::text::contains_exec(l, &dq) || crate::text::contains_exec(l, &sq) {
                let d = count_char_exec(line.as_slice(), '"');
                let q = count_char_exec(line.as_slice(), '\'');
                if d >= 2 || q >= 2 || (d >= 1 && q >= 1) {
                    assert(line_holds_literal(lines(content@)[i as int]));
                    return true;
                }
            }
        }
        i += 1;
    }
    false
}

/// A file name that marks an environment file (`.env`, `*.env`, `.env.*`)
/// or a key or certificate (`*.pem`, `*.key`, `*.crt`).
pub open spec fn secret_file_name(n: Seq<char>) -> bool {
    n == ".env"@ || finishes(n, ".env"@) || begins(n, ".env."@) || finishes(n, ".pem"@) || finishes(
        n,
        ".key"@,
    ) || finishes(n, ".crt"@)
}

/// The secret risk of a file: `.env` names, key and certificate names, and,
/// for source files whose content could be read, hard-coded keys, tokens or
/// well-known credential prefixes. The first rule that applies wins.
pub open spec fn secret_risk_of(file: FileObject, content: Option<Seq<char>>) -> Option<RiskFacts> {
    let n = after_last(file.path@, '/');
    let l = file.language@;
    if n == ".env"@ || finishes(n, ".env"@) || begins(n, ".env."@) {
        Some(
            (
                "env_file"@,
                "High"@,
                95u32,
                "Environment variable file detected - may contain secrets"@,
                "Do not send this file to LLM. Add to ignore rules."@,
            ),
        )
    } else if finishes(n, ".pem"@) || finishes(n, ".key"@) || finishes(n, ".crt"@) {
        Some(
            (
                "secret_leak"@,
                "Critical"@,
                98u32,
                "Private key or certificate file detected"@,
                "Never commit or send to LLM. Ensure proper access controls."@,
            ),
        )
    } else if l == "Python"@ || l == "JavaScript"@ || l == "TypeScript"@ || l == "Rust"@ || l == "Go"@
        || l == "Java"@ {
        match content {
            Some(c) => {
                let lower = lowercase(c);
                if contains_text(lower, "api_key"@) && contains_text(lower, "="@)
                    && likely_hardcoded_secret(c) {
                    Some(
                        (
                            "secret_leak"@,
                            "High"@,
                            75u32,
                            "Potential hardcoded API key pattern detected"@,
                            "Use environment variables instead of hardcoding secrets."@,
                        ),
                    )
                } else if (contains_text(lower, "token"@) || contains_text(lower, "secret"@))
                    && contains_text(lower, "="@) && likely_hardcoded_secret(c) {
                    Some(
                        (
                            "secret_leak"@,
                            "Medium"@,
                            65u32,
                            "Potential hardcoded token/secret pattern detected"@,
                            "Verify if this is a real secret. Use environment variables."@,
                        ),
                    )
                } else if contains_text(c, "AKIA"@) || contains_text(c, "sk-"@) || contains_text(
                    c,
                    "ghp_"@,
                ) || contains_text(c, "github_pat_"@) {
                    Some(
                        (
                            "secret_leak"@,
                            "Critical"@,
                            90u32,
                            "Cloud provider or service API key pattern detected"@,
                            "Immediately rotate this credential. Never commit secrets."@,
                        ),
                    )
                } else {
                    None
                }
            },
            None => None,
        }
    } else {
        None
    }
}

/// The view of an optional text.
pub open spec fn opt_view(c: Option<&str>) -> Option<Seq<char>> {
    match c {
        Some(s) => Some(s@),
        None => None,
    }
}

/// The secret risk of `file` (see `secret_risk_of`); `content` is the file's
/// text when it could be read.
pub fn detect_secret_risks(file: &FileObject, content: Option<&str>) -> (r: Option<RiskFlagObject>)
    ensures
        match secret_risk_of(*file, opt_view(content)) {
            Some(d) => r is Some && risk_is(r->0, file.path@, d),
            None => r is None,
        },
{
    let p = chars_of(file.path.as_str());
    let n = after_last_exec(p.as_slice(), '/');
    let n = n.as_slice();
    if str_same(n, ".env") || str_finishes(n, ".env") || str_begins(n, ".env.") {
        return Some(
            risk_record(
                file,
                "env_file",
                "High",
                95,
                owned("Environment variable file detected - may contain secrets"),
                "Do not send this file to LLM. Add to ignore rules.",
            ),
        );
    }
    if str_finishes(n, ".pem") || str_finishes(n, ".key") || str_finishes(n, ".crt") {
        return Some(
            risk_record(
                file,
                "secret_leak",
                "Critical",
                98,
                owned("Private key or certificate file detected"),
                "Never commit or send to LLM. Ensure proper access controls.",
            ),
        );
    }
    let lang = chars_of(file.language.as_str());
    let l = lang.as_slice();
    if str_same(l, "Python") || str_same(l, "JavaScript") || str_same(l, "TypeScript") || str_same(
        l,
        "Rust",
    ) || str_same(l, "Go") || str_same(l, "Java") {
        if let Some(content) = content {
            let lower = lowercase_chars(content);
            let lw = lower.as_slice();
            if str_contains(lw, "api_key") && str_contains(lw, "=") {
                if is_likely_hardcoded_secret(content) {
                    return Some(
                        risk_record(
                            file,
                            "secret_leak",
                            "High",
                            75,
                            owned("Potential hardcoded API key pattern detected"),
                            "Use environment variables instead of hardcoding secrets.",
                        ),
                    );
                }
            }
            if (str_contains(lw, "token") || str_contains(lw, "secret")) && str_contains(lw, "=") {
                if is_likely_hardcoded_secret(content) {
                    return Some(
                        risk_record(
                            file,
                            "secret_leak",
                            "Medium",
                            65,
                            owned("Potential hardcoded token/secret pattern detected"),
                            "Verify if this is a real secret. Use environment variables.",
                        ),
                    );
                }
            }
            let cs = chars_of(content);
            let c = cs.as_slice();
            if str_contains(c, "AKIA") || str_contains(c, "sk-") || str_contains(c, "ghp_") || str_contains(
                c,
                "github_pat_",
            ) {
                return Some(
                    risk_record(
                        file,
                        "secret_leak",
                        "Critical",
                        90,
                        owned("Cloud provider or service API key pattern detected"),
                        "Immediately rotate this credential. Never commit secrets.",
                    ),
                );
            }
        }
    }
    None
}

/// A language whose sources are searched for hard-coded secrets.
pub open spec fn is_code_language(l: Seq<char>) -> bool {
    l == "Python"@ || l == "JavaScript"@ || l == "TypeScript"@ || l == "Rust"@ || l == "Go"@ || l == "Java"@
}

/// The flag facts carry type `t`, severity `v` and confidence `k`.
pub open spec fn flags_as(d: Option<RiskFacts>, t: Seq<char>, v: Seq<char>, k: u32) -> bool {
    d matches Some(x) && x.0 == t && x.1 == v && x.2 == k
}

/// The rules of secret detection, each in terms of the file's name, its
/// language and its text `c`:
/// - `.env`, `*.env` and `.env.*` files are `env_file`, High, 95;
/// - other `*.pem`, `*.key` and `*.crt` files are `secret_leak`, Critical, 98;
/// - in a source file of a code language whose lowercased text holds `=` and
///   a quoted literal among its first twenty lines (not an environment
///   read): `api_key` gives High, 75; otherwise `token` or `secret` gives
///   Medium, 65;
/// - without such a literal, a credential prefix (`AKIA`, `sk-`, `ghp_`,
///   `github_pat_`) gives Critical, 90;
/// - files of other languages with other names are not flagged.
pub proof fn lemma_secret_rules(file: FileObject, c: Seq<char>)
    ensures
        ({
            let n = after_last(file.path@, '/');
            n == ".env"@ || finishes(n, ".env"@) || begins(n, ".env."@)
        }) ==> flags_as(secret_risk_of(file, Some(c)), "env_file"@, "High"@, 95),
        ({
            let n = after_last(file.path@, '/');
            !(n == ".env"@ || finishes(n, ".env"@) || begins(n, ".env."@)) && (finishes(n, ".pem"@)
                || finishes(n, ".key"@) || finishes(n, ".crt"@))
        }) ==> flags_as(secret_risk_of(file, Some(c)), "secret_leak"@, "Critical"@, 98),
        ({
            let lower = lowercase(c);
            &&& !secret_file_name(after_last(file.path@, '/'))
            &&& is_code_language(file.language@)
            &&& contains_text(lower, "="@)
            &&& likely_hardcoded_secret(c)
            &&& contains_text(lower, "api_key"@)
        }) ==> flags_as(secret_risk_of(file, Some(c)), "secret_leak"@, "High"@, 75),
        ({
            let lower = lowercase(c);
            &&& !secret_file_name(after_last(file.path@, '/'))
            &&& is_code_language(file.language@)
            &&& contains_text(lower, "="@)
            &&& likely_hardcoded_secret(c)
            &&& !contains_text(lower, "api_key"@)
            &&& (contains_text(lower, "token"@) || contains_text(lower, "secret"@))
        }) ==> flags_as(secret_risk_of(file, Some(c)), "secret_leak"@, "Medium"@, 65),
        ({
            &&& !secret_file_name(after_last(file.path@, '/'))
            &&& is_code_language(file.language@)
            &&& !likely_hardcoded_secret(c)
            &&& (contains_text(c, "AKIA"@) || contains_text(c, "sk-"@) || contains_text(c, "ghp_"@)
                || contains_text(c, "github_pat_"@))
        }) ==> flags_as(secret_risk_of(file, Some(c)), "secret_leak"@, "Critical"@, 90),
        !secret_file_name(after_last(file.path@, '/')) && !is_code_language(file.language@) ==> secret_risk_of(
            file,
            Some(c),
        ) is None,
{
}

} // verus!
