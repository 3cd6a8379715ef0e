//! Risks that come from the file itself: size, binary content, generation.

use vstd::prelude::*;
use crate::ir::schema::{FileObject, RiskFlagObject};
use crate::text::{chars_of, decimal, decimal_exec, owned, string_of};
use super::secrets::{risk_is, risk_record, RiskFacts};

verus! {

/// Reason text of a large file of `size` bytes.
pub open spec fn large_file_reason(size: u64) -> Seq<char> {
    "Large file ("@ + decimal(size as nat) + " bytes) - may waste tokens"@
}

/// The file-level risk: larger than 1 000 000 bytes, else binary, else
/// generated; the first that applies.
pub open spec fn file_risk_of(file: FileObject) -> Option<RiskFacts> {
    if file.size_bytes > 1_000_000 {
        Some(
            (
                "large_file"@,
                "Low"@,
                99u32,
                large_file_reason(file.size_bytes),
                "Consider excluding from LLM context unless necessary."@,
            ),
        )
    } else if file.is_binary {
        Some(
            (
                "binary_file"@,
                "Low"@,
                95u32,
                "Binary file detected - not suitable for LLM analysis"@,
                "Exclude from LLM context. Binary files cannot be analyzed as text."@,
            ),
        )
    } else if file.is_generated {
        Some(
            (
                "generated_noise"@,
                "Low"@,
                85u32,
                "Generated file detected - likely not useful for understanding logic"@,
                "Skip generated files when analyzing source code logic."@,
            ),
        )
    } else {
        None
    }
}

/// The file-level risk of `file` (see `file_risk_of`).
pub fn detect_file_risks(file: &FileObject) -> (r: Option<RiskFlagObject>)
    ensures
        match file_risk_of(*file) {
            Some(d) => r is Some && risk_is(r->0, file.path@, d),
            None => r is None,
        },
{
    if file.size_bytes > 1_000_000 {
        let mut v = chars_of("Large file (");
        let mut digits = decimal_exec(file.size_bytes);
        v.append(&mut digits);
        let mut tail = chars_of(" bytes) - may waste tokens");
        v.append(&mut tail);
        let reason = string_of(v.as_slice());
        return Some(
            risk_record(
                file,
                "large_file",
                "Low",
                99,
                reason,
                "Consider excluding from LLM context unless necessary.",
            ),
        );
    }
    if file.is_binary {
        return Some(
            risk_record(
                file,
                "binary_file",
                "Low",
                95,
                owned("Binary file detected - not suitable for LLM analysis"),
                "Exclude from LLM context. Binary files cannot be analyzed as text.",
            ),
        );
    }
    if file.is_generated {
        return Some(
            risk_record(
                file,
                "generated_noise",
                "Low",
                85,
                owned("Generated file detected - likely not useful for understanding logic"),
                "Skip generated files when analyzing source code logic.",
            ),
        );
    }
    None
}

/// The file-level rules in terms of the record: a file over 1 000 000 bytes
/// is `large_file` (Low, 99) whatever else holds; otherwise a binary file is
/// `binary_file` (Low, 95); otherwise a generated file is `generated_noise`
/// (Low, 85); any other file has no file-level risk. Only the size and the
/// two flags count.
pub proof fn lemma_file_risk_rules(file: FileObject, other: FileObject)
    ensures
        file.size_bytes > 1_000_000 ==> (file_risk_of(file) matches Some(d) && d.0 == "large_file"@ && d.1
            == "Low"@ && d.2 == 99),
        file.size_bytes <= 1_000_000 && file.is_binary ==> (file_risk_of(file) matches Some(d) && d.0
            == "binary_file"@ && d.1 == "Low"@ && d.2 == 95),
        file.size_bytes <= 1_000_000 && !file.is_binary && file.is_generated ==> (file_risk_of(file) matches Some(
            d,
        ) && d.0 == "generated_noise"@ && d.1 == "Low"@ && d.2 == 85),
        file.size_bytes <= 1_000_000 && !file.is_binary && !file.is_generated ==> file_risk_of(file) is None,
        file.size_bytes == other.size_bytes && file.is_binary == other.is_binary && file.is_generated
            == other.is_generated ==> file_risk_of(file) == file_risk_of(other),
{
}

} // verus!
