//! Assembling the project intermediate representation.

use vstd::prelude::*;
use crate::ir::schema::{
    ContextPlanItem, DependencyObject, EditZoneObject, EntrypointObject, FileObject, FileRoleObject,
    LanguageDetection, ProjectIR, ProjectObject, RiskFlagObject, StructureGraph, SummaryStats,
};
use crate::analyzer::language::{detect_frameworks, framework_list, get_dominant_language, is_dominant_language};
use crate::context::planner::is_risky;
use crate::text::{after_last, after_last_exec, chars_of, lex_lt, lex_lt_exec, owned, string_of, views};

verus! {

/// The languages of the files other than `Unknown`.
pub open spec fn has_known_language(fs: Seq<FileObject>, l: Seq<char>) -> bool {
    l != "Unknown"@ && exists|i: int| 0 <= i < fs.len() && (#[trigger] fs[i]).language@ == l
}

/// The texts are in strictly increasing order.
pub open spec fn strictly_sorted(v: Seq<Seq<char>>) -> bool {
    forall|i: int, j: int| 0 <= i < j < v.len() ==> lex_lt(#[trigger] v[i], #[trigger] v[j])
}

/// The distinct known languages of the files, in increasing order.
pub fn sorted_languages(files: &[FileObject]) -> (r: Vec<String>)
    ensures
        strictly_sorted(views(r@)),
        forall|l: Seq<char>| #[trigger] views(r@).contains(l) <==> has_known_language(files@, l),
{
    let mut list: Vec<String> = Vec::new();
    let unknown = owned("Unknown");
    let mut i: usize = 0;
    while i < files.len()
        invariant
            i <= files.len(),
            unknown@ == "Unknown"@,
            strictly_sorted(views(list@)),
            forall|l: Seq<char>| #[trigger] views(list@).contains(l) <==> has_known_language(files@.take(i as int), l),
        decreases files.len() - i,
    {
        let lang = &files[i].language;
        let ghost old_list = views(list@);
        proof {
            assert forall|l: Seq<char>| has_known_language(files@.take(i + 1), l) <==> (has_known_language(
                files@.take(i as int),
                l,
            ) || (l == lang@ && l != "Unknown"@)) by {
                if has_known_language(files@.take(i + 1), l) {
                    let k = choose|k: int| 0 <= k < i + 1 && (#[trigger] files@.take(i + 1)[k]).language@ == l;
                    if k < i {
                        assert(files@.take(i as int)[k] == files@.take(i + 1)[k]);
                    }
                }
                if has_known_language(files@.take(i as int), l) {
                    let k = choose|k: int| 0 <= k < i && (#[trigger] files@.take(i as int)[k]).language@ == l;
                    assert(files@.take(i as int)[k] == files@.take(i + 1)[k]);
                }
                if l == lang@ && l != "Unknown"@ {
                    assert(files@.take(i + 1)[i as int] == files@[i as int]);
                }
            }
        }
        if *lang != unknown {
            let lc = chars_of(lang.as_str());
            let mut p: usize = 0;
            while p < list.len()
                invariant
                    p <= list@.len(),
                    lc@ == lang@,
                    forall|q: int| 0 <= q < p ==> lex_lt(#[trigger] list@[q]@, lang@),
                ensures
                    p <= list@.len(),
                    forall|q: int| 0 <= q < p ==> lex_lt(#[trigger] list@[q]@, lang@),
                    p < list@.len() ==> !lex_lt(list@[p as int]@, lang@),
                decreases list.len() - p,
            {
                let pc = chars_of(list[p].as_str());
                if !lex_lt_exec(pc.as_slice(), lc.as_slice()) {
                    break;
                }
                p += 1;
            }
            let present = p < list.len() && list[p] == *lang;
            if !present {
                proof {
                    if p < list@.len() {
                        crate::text::lemma_lex_total(list@[p as int]@, lang@);
                    }
                }
                list.insert(p, lang.clone());
                proof {
                    let v = views(list@);
                    assert(v =~= old_list.insert(p as int, lang@));
                    assert forall|a: int, b: int| 0 <= a < b < v.len() implies lex_lt(#[trigger] v[a], #[trigger] v[b]) by {
                        if b < p {
                            assert(lex_lt(old_list[a], old_list[b]));
                        } else if b == p {
                            assert(lex_lt(old_list[a], lang@));
                        } else if a == p {
                            assert(lex_lt(lang@, old_list[p as int]));
                            if b - 1 > p {
                                assert(lex_lt(old_list[p as int], old_list[b - 1]));
                                crate::text::lemma_lex_transitive(lang@, old_list[p as int], old_list[b - 1]);
                            }
                        } else if a < p {
                            assert(lex_lt(old_list[a], old_list[b - 1]));
                        } else {
                            assert(lex_lt(old_list[a - 1], old_list[b - 1]));
                        }
                    }
                    assert forall|l: Seq<char>| #[trigger] v.contains(l) <==> (old_list.contains(l) || l == lang@) by {
                        if v.contains(l) {
                            let k = choose|k: int| 0 <= k < v.len() && v[k] == l;
                            if k < p {
                                assert(old_list[k] == l);
                            } else if k > p {
                                assert(old_list[k - 1] == l);
                            }
                        }
                        if old_list.contains(l) {
                            let k = choose|k: int| 0 <= k < old_list.len() && old_list[k] == l;
                            if k < p {
                                assert(v[k] == l);
                            } else {
                                assert(v[k + 1] == l);
                            }
                        }
                        if l == lang@ {
                            assert(v[p as int] == l);
                        }
                    }
                }
            } else {
                proof {
                    assert(old_list[p as int] == lang@);
                }
            }
        }
        i += 1;
    }
    proof {
        assert(files@.take(files@.len() as int) =~= files@);
    }
    list
}

/// Edit zone, risk level and reason of a file.
pub open spec fn zone_of(file: FileObject, risks: Seq<RiskFlagObject>) -> (Seq<char>, Seq<char>, Seq<char>) {
    if is_risky(risks, file.path@) {
        ("DO_NOT_TOUCH_YET"@, "High"@, "High-risk file - review before modification"@)
    } else if file.is_test {
        ("SAFE_TO_MODIFY"@, "Low"@, "Standard source file - safe to modify with tests"@)
    } else if file.is_config {
        ("MODIFY_WITH_CAUTION"@, "Medium"@, "Configuration changes may affect runtime behavior"@)
    } else {
        ("SAFE_TO_MODIFY"@, "Low"@, "Standard source file - safe to modify with tests"@)
    }
}

/// The edit zone record of `file` is `z`.
pub open spec fn zone_is(o: EditZoneObject, file: FileObject, z: (Seq<char>, Seq<char>, Seq<char>)) -> bool {
    o.file@ == file.path@ && o.zone@ == z.0 && o.risk_level@ == z.1 && o.reason@ == z.2
}

fn is_risky_file(risks: &[RiskFlagObject], f: &String) -> (r: bool)
    ensures
        r == is_risky(risks@, f@),
{
    let crit = owned("Critical");
    let high = owned("High");
    let mut i: usize = 0;
    while i < risks.len()
        invariant
            i <= risks.len(),
            crit@ == "Critical"@,
            high@ == "High"@,
            forall|j: int|
                0 <= j < i ==> !((#[trigger] risks@[j]).file@ == f@ && (risks@[j].severity@
                    == "Critical"@ || risks@[j].severity@ == "High"@)),
        decreases risks.len() - i,
    {
        if risks[i].file == *f && (risks[i].severity == crit || risks[i].severity == high) {
            return true;
        }
        i += 1;
    }
    false
}

/// One edit zone per file, in file order (see `zone_of`).
pub fn build_edit_zones(files: &[FileObject], file_roles: &[FileRoleObject], risks: &[RiskFlagObject]) -> (r: Vec<EditZoneObject>)
    ensures
        r@.len() == files@.len(),
        forall|i: int| 0 <= i < files@.len() ==> zone_is(#[trigger] r@[i], files@[i], zone_of(files@[i], risks@)),
{
    let mut zones: Vec<EditZoneObject> = Vec::new();
    let mut i: usize = 0;
    while i < files.len()
        invariant
            i <= files.len(),
            zones@.len() == i,
            forall|k: int| 0 <= k < i ==> zone_is(#[trigger] zones@[k], files@[k], zone_of(files@[k], risks@)),
        decreases files.len() - i,
    {
        let file = &files[i];
        let (zone, risk_level, reason) = if is_risky_file(risks, &file.path) {
            (owned("DO_NOT_TOUCH_YET"), owned("High"), owned("High-risk file - review before modification"))
        } else if file.is_test {
            (owned("SAFE_TO_MODIFY"), owned("Low"), owned("Standard source file - safe to modify with tests"))
        } else if file.is_config {
            (
                owned("MODIFY_WITH_CAUTION"),
                owned("Medium"),
                owned("Configuration changes may affect runtime behavior"),
            )
        } else {
            (owned("SAFE_TO_MODIFY"), owned("Low"), owned("Standard source file - safe to modify with tests"))
        };
        zones.push(EditZoneObject { file: file.path.clone(), zone, reason, risk_level });
        i += 1;
    }
    zones
}

/// Number of files with the `ignored` flag equal to `flag`.
pub open spec fn count_ignored(fs: Seq<FileObject>, flag: bool) -> nat
    decreases fs.len(),
{
    if fs.len() == 0 {
        0
    } else {
        count_ignored(fs.drop_last(), flag) + if fs.last().ignored == flag { 1nat } else { 0nat }
    }
}

/// Number of files larger than 1 000 000 bytes.
pub open spec fn count_large(fs: Seq<FileObject>) -> nat
    decreases fs.len(),
{
    if fs.len() == 0 {
        0
    } else {
        count_large(fs.drop_last()) + if fs.last().size_bytes > 1_000_000 { 1nat } else { 0nat }
    }
}

proof fn lemma_counts_step(fs: Seq<FileObject>, i: int)
    requires
        0 <= i < fs.len(),
    ensures
        count_ignored(fs.take(i + 1), true) == count_ignored(fs.take(i), true) + if fs[i].ignored { 1nat } else { 0nat },
        count_ignored(fs.take(i + 1), false) == count_ignored(fs.take(i), false) + if !fs[i].ignored { 1nat } else { 0nat },
        count_large(fs.take(i + 1)) == count_large(fs.take(i)) + if fs[i].size_bytes > 1_000_000 { 1nat } else { 0nat },
{
    assert(fs.take(i + 1).drop_last() =~= fs.take(i));
}

/// Every file is either analyzed or ignored, and at most all files are large.
pub proof fn lemma_counts_split(fs: Seq<FileObject>)
    ensures
        count_ignored(fs, true) + count_ignored(fs, false) == fs.len(),
        count_large(fs) <= fs.len(),
    decreases fs.len(),
{
    if fs.len() > 0 {
        lemma_counts_split(fs.drop_last());
    }
}

/// The counts over the files and risk flags.
pub fn summary_stats(files: &[FileObject], risk_count: usize) -> (r: SummaryStats)
    ensures
        r.total_files == files@.len(),
        r.analyzed_files == count_ignored(files@, false),
        r.ignored_files == count_ignored(files@, true),
        r.large_files == count_large(files@),
        r.risk_count == risk_count,
{
    let mut analyzed: usize = 0;
    let mut ignored: usize = 0;
    let mut large: usize = 0;
    let mut i: usize = 0;
    while i < files.len()
        invariant
            i <= files.len(),
            analyzed == count_ignored(files@.take(i as int), false),
            ignored == count_ignored(files@.take(i as int), true),
            large == count_large(files@.take(i as int)),
        decreases files.len() - i,
    {
        proof {
            lemma_counts_step(files@, i as int);
            lemma_counts_split(files@.take(i as int));
        }
        if files[i].ignored {
            ignored += 1;
        } else {
            analyzed += 1;
        }
        if files[i].size_bytes > 1_000_000 {
            large += 1;
        }
        i += 1;
    }
    assert(files@.take(files@.len() as int) =~= files@);
    SummaryStats { total_files: files.len(), analyzed_files: analyzed, ignored_files: ignored, large_files: large, risk_count }
}

/// The project intermediate representation: the analysis results as given,
/// the project name (the text after the last `/` of the path), the sorted
/// known languages, the dominant language, the frameworks, one edit zone per
/// file, and the counts.
pub fn build_project_ir(
    base_path: &str,
    files: Vec<FileObject>,
    languages: Vec<LanguageDetection>,
    entrypoints: Vec<EntrypointObject>,
    file_roles: Vec<FileRoleObject>,
    dependencies: Vec<DependencyObject>,
    risk_flags: Vec<RiskFlagObject>,
    structure_graph: StructureGraph,
    token_estimate: usize,
    context_plan: Vec<ContextPlanItem>,
) -> (r: ProjectIR)
    ensures
        r.project.name@ == after_last(base_path@, '/'),
        r.project.path@ == base_path@,
        strictly_sorted(views(r.project.languages@)),
        forall|l: Seq<char>| #[trigger] views(r.project.languages@).contains(l) <==> has_known_language(files@, l),
        is_dominant_language(files@, r.project.dominant_language@),
        views(r.project.detected_frameworks@) == framework_list(files@),
        r.files@ == files@,
        r.entrypoints@ == entrypoints@,
        r.dependencies@ == dependencies@,
        r.file_roles@ == file_roles@,
        r.risk_flags@ == risk_flags@,
        r.structure_graph == structure_graph,
        r.token_estimate == token_estimate,
        r.context_plan@ == context_plan@,
        r.edit_zones@.len() == files@.len(),
        forall|i: int| 0 <= i < files@.len() ==> zone_is(#[trigger] r.edit_zones@[i], files@[i], zone_of(files@[i], risk_flags@)),
        r.summary_stats.total_files == files@.len(),
        r.summary_stats.analyzed_files == count_ignored(files@, false),
        r.summary_stats.ignored_files == count_ignored(files@, true),
        r.summary_stats.large_files == count_large(files@),
        r.summary_stats.risk_count == risk_flags@.len(),
{
    let pc = chars_of(base_path);
    let name = after_last_exec(pc.as_slice(), '/');
    let name = string_of(name.as_slice());
    let langs = sorted_languages(files.as_slice());
    let dominant_language = get_dominant_language(files.as_slice());
    let detected_frameworks = detect_frameworks(files.as_slice(), base_path);
    let edit_zones = build_edit_zones(files.as_slice(), file_roles.as_slice(), risk_flags.as_slice());
    let summary_stats = summary_stats(files.as_slice(), risk_flags.len());
    ProjectIR {
        project: ProjectObject {
            name,
            path: owned(base_path),
            languages: langs,
            dominant_language,
            detected_frameworks,
        },
        files,
        entrypoints,
        dependencies,
        file_roles,
        risk_flags,
        edit_zones,
        structure_graph,
        token_estimate,
        context_plan,
        summary_stats,
    }
}

} // verus!
