//! Structure graph: one node per file, edges from entry points to the files
//! they likely relate to.

use vstd::prelude::*;
use crate::ir::schema::{EntrypointObject, FileObject, GraphEdge, GraphNode, StructureGraph};
use crate::paths::{last_index, last_index_exec};
use crate::text::{
    after_last, after_last_exec, chars_of, contains_text, finishes, lowercase, lowercase_chars, owned,
    str_contains, str_finishes, string_of,
};

verus! {

/// The graph role of a file: configuration and test flags first, then
/// keywords of its lowercase file name.
pub open spec fn graph_role_of(file: FileObject) -> Seq<char> {
    if file.is_config {
        "Config"@
    } else if file.is_test {
        "Test"@
    } else {
        let f = lowercase(after_last(file.path@, '/'));
        if contains_text(f, "main"@) || contains_text(f, "index"@) || contains_text(f, "app"@) {
            "Entry"@
        } else if contains_text(f, "util"@) || contains_text(f, "helper"@) {
            "Utility"@
        } else if contains_text(f, "test"@) {
            "Test"@
        } else {
            "Source"@
        }
    }
}

/// The graph role of `file` (see `graph_role_of`).
pub fn get_role_for_file(file: &FileObject) -> (r: String)
    ensures
        r@ == graph_role_of(*file),
{
    if file.is_config {
        owned("Config")
    } else if file.is_test {
        owned("Test")
    } else {
        let p = chars_of(file.path.as_str());
        let base = after_last_exec(p.as_slice(), '/');
        let base = string_of(base.as_slice());
        let fc = lowercase_chars(base.as_str());
        let f = fc.as_slice();
        if str_contains(f, "main") || str_contains(f, "index") || str_contains(f, "app") {
            owned("Entry")
        } else if str_contains(f, "util") || str_contains(f, "helper") {
            owned("Utility")
        } else if str_contains(f, "test") {
            owned("Test")
        } else {
            owned("Source")
        }
    }
}

/// The directory part of a path: the text before its last `/`, or nothing.
pub open spec fn dir_part(p: Seq<char>) -> Seq<char> {
    match last_index(p, '/') {
        Some(i) => p.take(i),
        None => Seq::empty(),
    }
}

/// The likely relationship from the file at `from` to the file at `to`.
pub open spec fn relationship_of(from: Seq<char>, to: Seq<char>) -> Seq<char> {
    let fl = lowercase(from);
    let tl = lowercase(to);
    if contains_text(fl, "config"@) || contains_text(fl, "toml"@) || contains_text(fl, "json"@) {
        "configures"@
    } else if contains_text(tl, "test"@) || finishes(tl, "_test"@) {
        "tests"@
    } else if dir_part(from) == dir_part(to) && from != to {
        "imports"@
    } else if contains_text(fl, "main"@) && !contains_text(tl, "main"@) {
        "calls_likely"@
    } else {
        "unknown"@
    }
}

fn dir_part_exec(p: &[char]) -> (r: Vec<char>)
    ensures
        r@ == dir_part(p@),
{
    match last_index_exec(p, '/') {
        Some(i) => {
            let d = crate::text::slice_copy(p, 0, i);
            assert(d@ =~= p@.take(i as int));
            d
        },
        None => Vec::new(),
    }
}

/// The likely relationship between two files (see `relationship_of`).
pub fn determine_relationship(from: &str, to: &str) -> (r: String)
    ensures
        r@ == relationship_of(from@, to@),
{
    let flc = lowercase_chars(from);
    let tlc = lowercase_chars(to);
    let fl = flc.as_slice();
    let tl = tlc.as_slice();
    if str_contains(fl, "config") || str_contains(fl, "toml") || str_contains(fl, "json") {
        return owned("configures");
    }
    if str_contains(tl, "test") || str_finishes(tl, "_test") {
        return owned("tests");
    }
    let fc = chars_of(from);
    let tc = chars_of(to);
    let fd = dir_part_exec(fc.as_slice());
    let td = dir_part_exec(tc.as_slice());
    if crate::text::same_exec(fd.as_slice(), td.as_slice()) && !crate::text::same_exec(fc.as_slice(), tc.as_slice()) {
        return owned("imports");
    }
    if str_contains(fl, "main") && !str_contains(tl, "main") {
        return owned("calls_likely");
    }
    owned("unknown")
}

/// An edge before it becomes a record: from, to, relationship.
pub type EdgeFacts = (Seq<char>, Seq<char>, Seq<char>);

/// The edges from the entry point file `e` to the files, in file order.
pub open spec fn edges_from(e: Seq<char>, fs: Seq<FileObject>) -> Seq<EdgeFacts>
    decreases fs.len(),
{
    if fs.len() == 0 {
        Seq::empty()
    } else {
        let acc = edges_from(e, fs.drop_last());
        let to = fs.last().path@;
        if to != e && relationship_of(e, to) != "unknown"@ {
            acc.push((e, to, relationship_of(e, to)))
        } else {
            acc
        }
    }
}

/// All candidate edges: those of each entry point in turn.
pub open spec fn candidate_edges(eps: Seq<EntrypointObject>, fs: Seq<FileObject>) -> Seq<EdgeFacts>
    decreases eps.len(),
{
    if eps.len() == 0 {
        Seq::empty()
    } else {
        candidate_edges(eps.drop_last(), fs) + edges_from(eps.last().file@, fs)
    }
}

/// The edges the graph keeps: the first 101 candidates.
pub open spec fn graph_edges(eps: Seq<EntrypointObject>, fs: Seq<FileObject>) -> Seq<EdgeFacts> {
    let c = candidate_edges(eps, fs);
    if c.len() > 101 {
        c.take(101)
    } else {
        c
    }
}

/// The node records the file: id and language from the file, label its file
/// name, role its graph role.
pub open spec fn node_is(n: GraphNode, f: FileObject) -> bool {
    &&& n.id@ == f.path@
    &&& n.label@ == after_last(f.path@, '/')
    &&& n.role@ == graph_role_of(f)
    &&& n.language@ == f.language@
}

/// The edge carries the facts `d` and confidence 60 hundredths.
pub open spec fn edge_is(e: GraphEdge, d: EdgeFacts) -> bool {
    e.from@ == d.0 && e.to@ == d.1 && e.relationship@ == d.2 && e.confidence == 60
}

proof fn lemma_edges_from_step(e: Seq<char>, fs: Seq<FileObject>, j: int)
    requires
        0 <= j < fs.len(),
    ensures
        edges_from(e, fs.take(j + 1)) == {
            let to = fs[j].path@;
            if to != e && relationship_of(e, to) != "unknown"@ {
                edges_from(e, fs.take(j)).push((e, to, relationship_of(e, to)))
            } else {
                edges_from(e, fs.take(j))
            }
        },
{
    assert(fs.take(j + 1).drop_last() =~= fs.take(j));
}

proof fn lemma_edges_from_prefix_len(e: Seq<char>, fs: Seq<FileObject>, j: int)
    requires
        0 <= j <= fs.len(),
    ensures
        edges_from(e, fs.take(j)).len() <= edges_from(e, fs).len(),
    decreases fs.len(),
{
    if j < fs.len() {
        assert(fs.drop_last().take(j) =~= fs.take(j));
        lemma_edges_from_prefix_len(e, fs.drop_last(), j);
    } else {
        assert(fs.take(j) =~= fs);
    }
}

/// The structure graph: a node per file, and the edges from each entry point
/// to every other file with a known relationship, cut after 101 edges.
#[verifier::loop_isolation(false)]
pub fn build_structure_graph(files: &[FileObject], entrypoints: &[EntrypointObject]) -> (r: StructureGraph)
    ensures
        r.nodes@.len() == files@.len(),
        forall|i: int| 0 <= i < files@.len() ==> node_is(#[trigger] r.nodes@[i], files@[i]),
        r.edges@.len() == graph_edges(entrypoints@, files@).len(),
        forall|i: int| 0 <= i < r.edges@.len() ==> edge_is(#[trigger] r.edges@[i], graph_edges(entrypoints@, files@)[i]),
{
    let mut nodes: Vec<GraphNode> = Vec::new();
    let mut i: usize = 0;
    while i < files.len()
        invariant
            i <= files.len(),
            nodes@.len() == i,
            forall|k: int| 0 <= k < i ==> node_is(#[trigger] nodes@[k], files@[k]),
        decreases files.len() - i,
    {
        let file = &files[i];
        let role = get_role_for_file(file);
        let p = chars_of(file.path.as_str());
        let label = after_last_exec(p.as_slice(), '/');
        nodes.push(
            GraphNode { id: file.path.clone(), label: string_of(label.as_slice()), role, language: file.language.clone() },
        );
        i += 1;
    }
    let mut edges: Vec<GraphEdge> = Vec::new();
    let ghost all = candidate_edges(entrypoints@, files@);
    let mut k: usize = 0;
    while k < entrypoints.len()
        invariant
            k <= entrypoints.len(),
            edges@.len() <= 100,
            edges@.len() == candidate_edges(entrypoints@.take(k as int), files@).len(),
            forall|m: int|
                0 <= m < edges@.len() ==> edge_is(#[trigger] edges@[m], candidate_edges(entrypoints@.take(k as int), files@)[m]),
        decreases entrypoints.len() - k,
    {
        let entry_path = &entrypoints[k].file;
        let ghost base = candidate_edges(entrypoints@.take(k as int), files@);
        let ghost e = entry_path@;
        proof {
            assert(entrypoints@.take(k + 1).drop_last() =~= entrypoints@.take(k as int));
            assert(entrypoints@.take(k + 1).last() == entrypoints@[k as int]);
        }
        let mut j: usize = 0;
        let mut full = false;
        while j < files.len()
            invariant
                j <= files.len(),
                !full,
                edges@.len() <= 100,
                edges@.len() == base.len() + edges_from(e, files@.take(j as int)).len(),
                forall|m: int|
                    0 <= m < edges@.len() ==> edge_is(#[trigger] edges@[m], (base + edges_from(e, files@.take(j as int)))[m]),
            decreases files.len() - j,
        {
            proof {
                lemma_edges_from_step(e, files@, j as int);
            }
            let file = &files[j];
            if file.path == *entry_path {
                j += 1;
                continue;
            }
            let relationship = determine_relationship(entry_path.as_str(), file.path.as_str());
            let unknown = owned("unknown");
            if relationship != unknown {
                let ghost before = base + edges_from(e, files@.take(j as int));
                edges.push(
                    GraphEdge { from: entry_path.clone(), to: file.path.clone(), relationship, confidence: 60 },
                );
                proof {
                    assert(base + edges_from(e, files@.take(j + 1)) =~= before.push(
                        (e, file.path@, relationship_of(e, file.path@)),
                    ));
                }
            }
            j += 1;
            if edges.len() > 100 {
                full = true;
                break;
            }
        }
        if full {
            proof {
                // The cut: the 101 edges found are the first 101 candidates.
                let c = candidate_edges(entrypoints@.take(k + 1), files@);
                assert(c == base + edges_from(e, files@));
                lemma_edges_from_prefix_len(e, files@, j as int);
                lemma_candidates_prefix(entrypoints@, files@, k + 1);
                let pre = base + edges_from(e, files@.take(j as int));
                lemma_edges_from_is_prefix(e, files@, j as int);
                assert(pre =~= c.take(101));
                lemma_candidate_prefix_of(entrypoints@, files@, k + 1);
                assert(all.take(101) =~= c.take(101));
                assert(c.is_prefix_of(all));
                assert(all.len() >= 101);
                assert(graph_edges(entrypoints@, files@) =~= all.take(101));
                assert(edges@.len() == 101);
                assert forall|m: int| 0 <= m < edges@.len() implies edge_is(#[trigger] edges@[m], graph_edges(entrypoints@, files@)[m]) by {
                    assert(pre[m] == c.take(101)[m]);
                }
            }
            return StructureGraph { nodes, edges };
        }
        proof {
            assert(files@.take(files@.len() as int) =~= files@);
        }
        k += 1;
    }
    proof {
        assert(entrypoints@.take(entrypoints@.len() as int) =~= entrypoints@);
    }
    StructureGraph { nodes, edges }
}

proof fn lemma_candidates_prefix(eps: Seq<EntrypointObject>, fs: Seq<FileObject>, k: int)
    requires
        0 <= k <= eps.len(),
    ensures
        candidate_edges(eps.take(k), fs).len() <= candidate_edges(eps, fs).len(),
    decreases eps.len(),
{
    if k < eps.len() {
        assert(eps.drop_last().take(k) =~= eps.take(k));
        lemma_candidates_prefix(eps.drop_last(), fs, k);
    } else {
        assert(eps.take(k) =~= eps);
    }
}

proof fn lemma_candidate_prefix_of(eps: Seq<EntrypointObject>, fs: Seq<FileObject>, k: int)
    requires
        0 <= k <= eps.len(),
    ensures
        candidate_edges(eps.take(k), fs).is_prefix_of(candidate_edges(eps, fs)),
    decreases eps.len(),
{
    if k < eps.len() {
        assert(eps.drop_last().take(k) =~= eps.take(k));
        lemma_candidate_prefix_of(eps.drop_last(), fs, k);
    } else {
        assert(eps.take(k) =~= eps);
    }
}

proof fn lemma_edges_from_is_prefix(e: Seq<char>, fs: Seq<FileObject>, j: int)
    requires
        0 <= j <= fs.len(),
    ensures
        edges_from(e, fs.take(j)).is_prefix_of(edges_from(e, fs)),
    decreases fs.len(),
{
    if j < fs.len() {
        assert(fs.drop_last().take(j) =~= fs.take(j));
        lemma_edges_from_is_prefix(e, fs.drop_last(), j);
    } else {
        assert(fs.take(j) =~= fs);
    }
}


/// Every edge starts at `e` and ends at another file of `fs`.
proof fn lemma_edges_from_shape(e: Seq<char>, fs: Seq<FileObject>)
    ensures
        forall|m: int|
            0 <= m < edges_from(e, fs).len() ==> (#[trigger] edges_from(e, fs)[m]).0 == e
                && edges_from(e, fs)[m].1 != e && exists|j: int|
                0 <= j < fs.len() && (#[trigger] fs[j]).path@ == edges_from(e, fs)[m].1,
    decreases fs.len(),
{
    if fs.len() > 0 {
        let t = fs.drop_last();
        lemma_edges_from_shape(e, t);
        let front = edges_from(e, t);
        let all = edges_from(e, fs);
        assert forall|m: int| 0 <= m < all.len() implies (#[trigger] all[m]).0 == e && all[m].1 != e
            && exists|j: int| 0 <= j < fs.len() && (#[trigger] fs[j]).path@ == all[m].1 by {
            if m < front.len() {
                assert(all[m] == front[m]);
                let j = choose|j: int| 0 <= j < t.len() && (#[trigger] t[j]).path@ == front[m].1;
                assert(fs[j] == t[j]);
            } else {
                assert(fs[fs.len() - 1] == fs.last());
            }
        }
    }
}

/// An edge of the structure graph.
pub open spec fn edge_ok(eps: Seq<EntrypointObject>, fs: Seq<FileObject>, d: EdgeFacts) -> bool {
    &&& d.0 != d.1
    &&& exists|k: int| 0 <= k < eps.len() && (#[trigger] eps[k]).file@ == d.0
    &&& exists|j: int| 0 <= j < fs.len() && (#[trigger] fs[j]).path@ == d.1
}

proof fn lemma_candidates_ok(eps: Seq<EntrypointObject>, fs: Seq<FileObject>)
    ensures
        forall|m: int|
            0 <= m < candidate_edges(eps, fs).len() ==> edge_ok(eps, fs, #[trigger] candidate_edges(eps, fs)[m]),
    decreases eps.len(),
{
    if eps.len() > 0 {
        let t = eps.drop_last();
        lemma_candidates_ok(t, fs);
        let e = eps.last().file@;
        lemma_edges_from_shape(e, fs);
        let a = candidate_edges(t, fs);
        let b = edges_from(e, fs);
        assert forall|m: int| 0 <= m < (a + b).len() implies edge_ok(eps, fs, #[trigger] (a + b)[m]) by {
            if m < a.len() {
                assert((a + b)[m] == a[m]);
                assert(edge_ok(t, fs, a[m]));
                let k = choose|k: int| 0 <= k < t.len() && (#[trigger] t[k]).file@ == a[m].0;
                assert(eps[k] == t[k]);
            } else {
                assert((a + b)[m] == b[m - a.len()]);
                assert(eps[eps.len() - 1] == eps.last());
            }
        }
    }
}

/// The structure graph keeps at most 101 edges, and each goes from an entry
/// point to another file of the project.
pub proof fn lemma_graph_edges(eps: Seq<EntrypointObject>, fs: Seq<FileObject>)
    ensures
        graph_edges(eps, fs).len() <= 101,
        forall|m: int| 0 <= m < graph_edges(eps, fs).len() ==> edge_ok(eps, fs, #[trigger] graph_edges(eps, fs)[m]),
{
    lemma_candidates_ok(eps, fs);
    let c = candidate_edges(eps, fs);
    let g = graph_edges(eps, fs);
    assert forall|m: int| 0 <= m < g.len() implies edge_ok(eps, fs, #[trigger] g[m]) by {
        assert(g[m] == c[m]);
    }
}

/// A file never "imports" itself, and two different files in the same
/// directory are related by "imports" unless the first looks like
/// configuration or the second like a test.
pub proof fn lemma_relationship_rules(from: Seq<char>, to: Seq<char>)
    ensures
        relationship_of(from, from) != "imports"@,
        ({
            let fl = lowercase(from);
            let tl = lowercase(to);
            &&& dir_part(from) == dir_part(to)
            &&& from != to
            &&& !(contains_text(fl, "config"@) || contains_text(fl, "toml"@) || contains_text(fl, "json"@))
            &&& !(contains_text(tl, "test"@) || finishes(tl, "_test"@))
        }) ==> relationship_of(from, to) == "imports"@,
        ({
            let fl = lowercase(from);
            contains_text(fl, "config"@) || contains_text(fl, "toml"@) || contains_text(fl, "json"@)
        }) ==> relationship_of(from, to) == "configures"@,
{
    reveal_strlit("imports");
    reveal_strlit("configures");
    reveal_strlit("tests");
    reveal_strlit("calls_likely");
    reveal_strlit("unknown");
    assert("imports"@.len() == 7 && "configures"@.len() == 10 && "tests"@.len() == 5 && "calls_likely"@.len()
        == 12 && "unknown"@.len() == 7 && "imports"@[0] != "unknown"@[0]);
}

} // verus!
