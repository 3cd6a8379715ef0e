use sourceclass::context::find_element;
use sourceclass::context::map_planner::{ratio_less_exec, ContextPlanner};
use sourceclass::map::builder::{
    compute_hash, detect_language_from_extension, extract_imports_from_symbols,
    extract_parent_class, generate_one_line_summary, get_file_base, get_parent_dir, is_ignored,
    EntryKind, ProjectMap, ScanEntry,
};
use sourceclass::map::schema::{
    CentralityLevel, FileNode, FileRole, Ratio, RelationshipKind, Symbol, SymbolKind, Visibility,
};
use sourceclass::role::classifier::RoleClassifier;

fn node(rel: &str) -> FileNode {
    FileNode {
        id: format!("file_{}", rel),
        path: rel.to_string(),
        relative_path: rel.to_string(),
        extension: String::new(),
        language: "Rust".to_string(),
        size_bytes: 0,
        line_count: 0,
        role: FileRole::Unknown,
        centrality_score: Ratio { num: 1, den: 4 },
        symbol_count: 0,
        hash: String::new(),
    }
}

fn symbol(name: &str, kind: SymbolKind) -> Symbol {
    Symbol {
        id: format!("id_{}", name),
        name: name.to_string(),
        kind,
        file_id: "f".to_string(),
        file_path: "p".to_string(),
        start_line: 0,
        end_line: 1,
        start_col: 0,
        end_col: 0,
        signature: String::new(),
        docstring: None,
        parent_id: None,
        visibility: Visibility::Public,
        is_async: false,
        is_static: false,
        parameters: vec![],
        return_type: None,
        type_parameters: vec![],
    }
}

fn entry(path: &str, rel: &str, kind: EntryKind, size: Option<u64>, content: &str) -> ScanEntry {
    ScanEntry {
        path: path.to_string(),
        relative_path: rel.to_string(),
        kind,
        size,
        content: content.to_string(),
    }
}

fn built_map() -> ProjectMap {
    let entries = vec![
        entry("/proj/src", "src", EntryKind::Directory, Some(0), ""),
        entry("/proj/src/main.rs", "src/main.rs", EntryKind::File, Some(40), "use crate::util;\nfn main() {}\n"),
        entry("/proj/src/util.rs", "src/util.rs", EntryKind::File, Some(8), "pub fn helper() {}\n"),
        entry("/proj/bad.bin", "bad.bin", EntryKind::File, None, ""),
    ];
    let mut map = ProjectMap::new("/proj".to_string());
    assert!(map.build(&entries).is_ok());
    map
}

#[test]
fn roles_follow_the_order_of_checks() {
    let c = RoleClassifier::new();
    let cases = [
        ("tests/test_api.py", FileRole::Test),
        ("Cargo.toml", FileRole::Config),
        ("README.md", FileRole::Documentation),
        ("src/main.rs", FileRole::Entry),
        ("src/engine.rs", FileRole::Brain),
        ("src/routes/users.py", FileRole::Interface),
        ("lib/db_client.go", FileRole::Connector),
        ("app/models/user.ts", FileRole::DataModel),
        ("models/user.ts", FileRole::Unknown),
        ("x/helpers.py", FileRole::Utility),
        ("x/report.py", FileRole::Output),
        ("x/thing.py", FileRole::Unknown),
    ];
    for (rel, role) in cases {
        assert_eq!(c.classify(&node(rel)), role, "{}", rel);
    }
}

#[test]
fn ignored_names() {
    assert!(is_ignored("a/node_modules"));
    assert!(is_ignored("dist"));
    assert!(is_ignored("x/app.min.js"));
    assert!(is_ignored("/home/u/.DS_Store"));
    assert!(!is_ignored("src"));
    assert!(!is_ignored(""));
}

#[test]
fn languages_by_extension() {
    assert_eq!(detect_language_from_extension("RS"), "Rust");
    assert_eq!(detect_language_from_extension("hpp"), "C++");
    assert_eq!(detect_language_from_extension("yml"), "YAML");
    assert_eq!(detect_language_from_extension("xyz"), "Unknown");
}

#[test]
fn parent_directories_and_bases() {
    assert_eq!(get_parent_dir("src/main.rs").as_deref(), Some("src"));
    assert_eq!(get_parent_dir("main.rs"), None);
    assert_eq!(get_parent_dir("/a").as_deref(), Some("/"));
    assert_eq!(get_parent_dir("a//b/").as_deref(), Some("a"));
    assert_eq!(get_parent_dir("./a").as_deref(), Some("."));
    assert_eq!(get_parent_dir("a/./b").as_deref(), Some("a"));
    assert_eq!(get_file_base("src/util.rs"), "util");
    assert_eq!(get_file_base("README"), "README");
    assert_eq!(get_file_base(""), "");
}

#[test]
fn parent_classes_from_signatures() {
    assert_eq!(extract_parent_class("class A extends B implements C").as_deref(), Some("B"));
    assert_eq!(extract_parent_class("class A implements C").as_deref(), Some("C"));
    assert_eq!(extract_parent_class("x: Foo").as_deref(), Some("Foo"));
    assert_eq!(extract_parent_class("class A(Base):"), None);
}

#[test]
fn hash_of_empty_text() {
    assert_eq!(
        compute_hash(""),
        "e3b0c44298fc1c149afbf4c8996fb92427ae41e4649b934ca495991b7852b855"
    );
}

#[test]
fn imports_are_relative_or_external() {
    let syms = vec![
        symbol("./a/b", SymbolKind::Import),
        symbol("react", SymbolKind::Import),
        symbol("/abs/x", SymbolKind::Import),
        symbol("f", SymbolKind::Function),
    ];
    let infos = extract_imports_from_symbols(&syms);
    assert_eq!(infos.len(), 3);
    assert!(infos[0].is_relative && !infos[0].is_external);
    assert_eq!(infos[0].names, vec!["b".to_string()]);
    assert!(infos[1].is_external && !infos[1].is_relative);
    assert!(!infos[2].is_external && !infos[2].is_relative);
    assert_eq!(infos[2].names, vec!["x".to_string()]);
}

#[test]
fn one_line_summaries() {
    let mut f = node("a.rs");
    f.role = FileRole::Brain;
    f.centrality_score = Ratio { num: 1, den: 8 };
    let syms = vec![symbol("A", SymbolKind::Class), symbol("g", SymbolKind::Method)];
    assert_eq!(
        generate_one_line_summary(&f, &syms),
        "Brain file with 1 classes and 1 functions (Rust, 12%)"
    );
    let only_fn = vec![symbol("g", SymbolKind::Function)];
    f.centrality_score = Ratio { num: 3, den: 8 };
    assert_eq!(generate_one_line_summary(&f, &only_fn), "Brain file with 1 functions (Rust, 38%)");
    assert_eq!(generate_one_line_summary(&f, &[]), "Rust Brain file (38% central)");
}

#[test]
fn build_counts_files_directories_and_relationships() {
    let map = built_map();
    let ir = map.to_ir();
    assert_eq!(ir.root_path, "/proj");
    assert_eq!(ir.files.len(), 2);
    assert_eq!(ir.files[0].id, "file_src_main.rs");
    assert_eq!(ir.files[0].role, FileRole::Entry);
    assert_eq!(ir.files[1].role, FileRole::Utility);
    assert_eq!(ir.files[0].line_count, 2);
    assert_eq!(ir.files[1].line_count, 1);
    assert_eq!(ir.files[0].centrality_score, Ratio { num: 0, den: 2 });
    assert_eq!(ir.files[1].centrality_score, Ratio { num: 2, den: 2 });
    // Symbols carry ids made from the full path, files from the relative path.
    assert_eq!(ir.files[0].symbol_count, 0);
    assert_eq!(ir.symbols.len(), 3);
    assert_eq!(ir.symbols[0].file_id, "file__proj_src_main.rs");
    assert_eq!(ir.relationships.len(), 1);
    assert_eq!(ir.relationships[0].from_id, "file__proj_src_main.rs");
    assert_eq!(ir.relationships[0].to_id, "file_src_util.rs");
    assert_eq!(ir.relationships[0].kind, RelationshipKind::Imports);
    assert_eq!(ir.relationships[0].confidence, 80);
    assert_eq!(ir.directories.len(), 1);
    let d = &ir.directories[0];
    assert_eq!(d.id, "dir_0");
    assert_eq!((d.file_count, d.dir_count, d.children_count), (2, 0, 2));
    assert_eq!(ir.stats.total_files, 2);
    assert_eq!(ir.stats.total_directories, 1);
    assert_eq!(ir.stats.total_symbols, 3);
    assert_eq!(ir.stats.total_lines, 3);
    assert_eq!(ir.stats.total_size_bytes, 48);
    assert_eq!(ir.stats.languages, vec![("Rust".to_string(), 2)]);
    assert_eq!(
        ir.stats.roles,
        vec![("Entry".to_string(), 1), ("Utility".to_string(), 1)]
    );
}

#[test]
fn file_summaries() {
    let map = built_map();
    let main = map.get_file_summary("src/main.rs").unwrap();
    assert_eq!(main.one_line_summary, "Rust Entry file (0% central)");
    assert!(main.symbols.is_empty());
    assert!(main.dependencies.is_empty());
    let util = map.get_file_summary("util.rs").unwrap();
    assert_eq!(util.file.relative_path, "src/util.rs");
    assert_eq!(util.one_line_summary, "Rust Utility file (100% central)");
    assert_eq!(util.dependents.len(), 1);
    assert_eq!(util.dependents[0].target_id, "file__proj_src_main.rs");
    assert_eq!(util.dependents[0].target_path, "");
    match map.get_file_summary("nope") {
        Err(e) => assert_eq!(e, "File not found: nope"),
        Ok(_) => panic!("expected an error"),
    }
}

#[test]
fn skeleton_and_centrality() {
    let map = built_map();
    let sk = map.get_skeleton();
    assert_eq!(sk.root_name, "proj");
    assert_eq!(sk.top_level_dirs, vec!["src".to_string()]);
    assert_eq!(sk.key_files.len(), 1);
    assert_eq!(sk.key_files[0].path, "src/util.rs");
    assert_eq!(sk.symbol_index.len(), 2);
    assert_eq!(sk.symbol_index[0].name, "main");
    let mut s = symbol("util", SymbolKind::Module);
    s.id = "file_src_util.rs".to_string();
    let c = map.calculate_centrality(&s);
    assert_eq!(c.incoming_edges, 1);
    assert_eq!(c.outgoing_edges, 0);
    assert_eq!(c.level, CentralityLevel::Low);
    assert_eq!(c.score, Ratio { num: 2, den: 9 });
    assert_eq!(c.description, "Incidental element: referenced by 1 elements, calls 0 others");
}

#[test]
fn centrality_levels_follow_incoming_references() {
    let mut entries = vec![];
    let mut content = String::new();
    for i in 0..10 {
        content.push_str(&format!("use m{}::target;\n", i));
    }
    entries.push(entry("/p/target.rs", "target.rs", EntryKind::File, Some(1), ""));
    entries.push(entry("/p/user.rs", "user.rs", EntryKind::File, Some(1), &content));
    let mut map = ProjectMap::new("/p".to_string());
    assert!(map.build(&entries).is_ok());
    let mut s = symbol("target", SymbolKind::Module);
    s.id = "file_target.rs".to_string();
    let c = map.calculate_centrality(&s);
    assert_eq!(c.incoming_edges, 10);
    assert_eq!(c.level, CentralityLevel::High);
    assert_eq!(c.description, "Critical element: referenced by 10 other elements, calls 0 others");
}

#[test]
fn plan_runs_from_the_most_central_file() {
    let map = built_map();
    let plan = ContextPlanner::new().plan(&map).unwrap();
    assert_eq!(plan.len(), 2);
    assert_eq!(plan[0].rank, 0);
    assert_eq!(plan[0].file, "src/util.rs");
    assert_eq!(plan[0].priority, "MustSend");
    assert_eq!(
        plan[0].reason,
        "Critical Utility: 100% centrality score, essential for understanding project structure"
    );
    assert_eq!(plan[0].estimated_tokens, 2);
    assert_eq!(plan[1].rank, 1);
    assert_eq!(plan[1].file, "src/main.rs");
    assert_eq!(plan[1].estimated_tokens, 10);
}

#[test]
fn priorities_and_reasons() {
    let p = ContextPlanner::new();
    let mut f = node("x.rs");
    f.role = FileRole::Unknown;
    f.centrality_score = Ratio { num: 1, den: 2 };
    assert_eq!(p.determine_priority(&f), "IgnoreFirst");
    f.centrality_score = Ratio { num: 51, den: 100 };
    assert_eq!(p.determine_priority(&f), "ShouldSend");
    assert_eq!(
        p.generate_priority_reason(&f, "ShouldSend"),
        "Important Unknown: 51% centrality, provides key context for Rust"
    );
    f.role = FileRole::Test;
    assert_eq!(p.determine_priority(&f), "IgnoreFirst");
    f.centrality_score = Ratio { num: 81, den: 100 };
    assert_eq!(p.determine_priority(&f), "MustSend");
    f.role = FileRole::Config;
    f.centrality_score = Ratio { num: 1, den: 200 };
    assert_eq!(p.determine_priority(&f), "SendIfNeeded");
    assert_eq!(p.generate_priority_reason(&f, "Other"), "Config with 0% centrality");
}

#[test]
fn percentages_round_half_to_even() {
    assert_eq!(Ratio { num: 1, den: 8 }.percent_exec(), 12);
    assert_eq!(Ratio { num: 3, den: 8 }.percent_exec(), 38);
    assert_eq!(Ratio { num: 1, den: 200 }.percent_exec(), 0);
    assert_eq!(Ratio { num: 3, den: 200 }.percent_exec(), 2);
    assert_eq!(Ratio { num: 2, den: 3 }.percent_exec(), 67);
}

#[test]
fn ratios_compare_without_products() {
    let big = u128::MAX / 2;
    assert!(ratio_less_exec(Ratio { num: 1, den: 3 }, Ratio { num: 1, den: 2 }));
    assert!(!ratio_less_exec(Ratio { num: 2, den: 4 }, Ratio { num: 1, den: 2 }));
    assert!(ratio_less_exec(Ratio { num: big - 1, den: big }, Ratio { num: big, den: big - 1 }));
    assert!(!ratio_less_exec(Ratio { num: 0, den: 1 }, Ratio { num: 0, den: 7 }));
}

#[test]
fn build_checked_refuses_unparsable_files() {
    let entries = vec![entry("/p/a.rs", "a.rs", EntryKind::File, Some(1), "fn a) b(;\n")];
    let mut map = ProjectMap::new("/p".to_string());
    assert!(!map.build_checked(&entries));
    assert!(map.to_ir().files.is_empty());
    let ok = vec![entry("/p/a.rs", "a.rs", EntryKind::File, Some(1), "fn a() {}\n")];
    assert!(map.build_checked(&ok));
    assert_eq!(map.to_ir().files.len(), 1);
}

#[test]
fn totals_and_element_lookup() {
    let map = built_map();
    assert!(map.totals_fit());
    let mut huge = ProjectMap::new("/q".to_string());
    let entries = vec![
        entry("/q/a.txt", "a.txt", EntryKind::File, Some(u64::MAX), ""),
        entry("/q/b.txt", "b.txt", EntryKind::File, Some(1), ""),
    ];
    assert!(huge.build(&entries).is_ok());
    assert!(!huge.totals_fit());
    let mut a = symbol("alpha", SymbolKind::Function);
    a.id = "file_x_alpha_3".to_string();
    let b = symbol("beta", SymbolKind::Function);
    let syms = vec![a, b];
    assert_eq!(find_element(&syms, "beta"), Some(1));
    assert_eq!(find_element(&syms, "alpha_3"), Some(0));
    assert_eq!(find_element(&syms, "id_"), Some(1));
    assert_eq!(find_element(&syms, "gamma"), None);
}

#[test]
fn centralities_above_one_are_accepted() {
    let p = ContextPlanner::new();
    let mut f = node("x.rs");
    f.role = FileRole::Unknown;
    f.centrality_score = Ratio { num: 3, den: 2 };
    assert_eq!(p.determine_priority(&f), "MustSend");
    assert_eq!(
        p.generate_priority_reason(&f, "MustSend"),
        "Critical Unknown: 150% centrality score, essential for understanding project structure"
    );
    assert_eq!(generate_one_line_summary(&f, &[]), "Rust Unknown file (150% central)");
    f.centrality_score = Ratio { num: 1, den: 200 };
    assert_eq!(generate_one_line_summary(&f, &[]), "Rust Unknown file (0% central)");
}

#[test]
fn roles_depend_on_the_lowercased_path() {
    let c = RoleClassifier::new();
    let mut upper = node("SRC/Main.RS");
    upper.language = "Python".to_string();
    upper.size_bytes = 99;
    assert_eq!(c.classify(&upper), c.classify(&node("src/main.rs")));
    assert_eq!(c.classify(&upper), FileRole::Entry);
    assert_eq!(c.classify(&node("Docs/README")), FileRole::Documentation);
}
