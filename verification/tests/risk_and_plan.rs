use sourceclass::analyzer::dependency::{are_manifests_readable, is_cargo_manifest_readable};
use sourceclass::context::planner::plan_context;
use sourceclass::context::priority::get_priority_for_role;
use sourceclass::context::token_estimator::{
    estimate_file_tokens, estimate_tokens_for_content, estimate_total_tokens,
    estimate_total_tokens_checked,
};
use sourceclass::graph::builder::{build_structure_graph, determine_relationship, get_role_for_file};
use sourceclass::ir::builder::{build_edit_zones, build_project_ir, sorted_languages, summary_stats};
use sourceclass::ir::schema::{
    EntrypointObject, FileObject, FileRoleObject, RiskFlagObject, StructureGraph,
};
use sourceclass::risk::detect_risks;
use sourceclass::risk::file_risks::detect_file_risks;
use sourceclass::risk::secrets::{detect_secret_risks, is_likely_hardcoded_secret};
use sourceclass::risk::unsafe_patterns::detect_unsafe_patterns;
use sourceclass::scanner::ignore::should_ignore;
use sourceclass::scanner::metadata::collect_file_metadata;
use sourceclass::utils::error::new_error;
use sourceclass::utils::hash::{compute_sha256, compute_sha256_string, to_hex};

fn file(path: &str, language: &str) -> FileObject {
    FileObject {
        path: path.to_string(),
        absolute_path: format!("/abs/{}", path),
        extension: String::new(),
        language: language.to_string(),
        size_bytes: 0,
        line_count: 0,
        hash: String::new(),
        is_binary: false,
        is_generated: false,
        is_test: false,
        is_config: false,
        ignored: false,
    }
}

fn sized(path: &str, size: u64) -> FileObject {
    let mut f = file(path, "Rust");
    f.size_bytes = size;
    f
}

fn entry(path: &str) -> EntrypointObject {
    EntrypointObject { file: path.to_string(), kind: "k".to_string(), confidence: 90, reason: String::new() }
}

fn role(path: &str, r: &str) -> FileRoleObject {
    FileRoleObject {
        file: path.to_string(),
        role: r.to_string(),
        importance: String::new(),
        confidence: 50,
        reason: String::new(),
    }
}

fn risk(path: &str, severity: &str) -> RiskFlagObject {
    RiskFlagObject {
        file: path.to_string(),
        risk_type: String::new(),
        severity: severity.to_string(),
        confidence: 50,
        reason: String::new(),
        safe_action: String::new(),
    }
}

#[test]
fn readable_manifests() {
    assert!(is_cargo_manifest_readable("[dependencies]\na = \"1\"\n"));
    assert!(!is_cargo_manifest_readable("[dependencies]\na = \"\n"));
    assert!(is_cargo_manifest_readable("[package]\na = \"\n"));
    let files = vec![file("x/Cargo.toml", "Rust"), file("notes.txt", "Unknown")];
    assert!(!are_manifests_readable(&files, &[Some("[dependencies]\nb =  \" \n".to_string()), None]));
    assert!(are_manifests_readable(&files, &[None, Some("[dependencies]\nb = \"\n".to_string())]));
}

#[test]
fn graph_roles_and_relationships() {
    let mut cfg = file("Cargo.toml", "Rust");
    cfg.is_config = true;
    assert_eq!(get_role_for_file(&cfg), "Config");
    assert_eq!(get_role_for_file(&file("src/App.tsx", "TypeScript React")), "Entry");
    assert_eq!(get_role_for_file(&file("src/string_util.rs", "Rust")), "Utility");
    assert_eq!(get_role_for_file(&file("src/test_x.rs", "Rust")), "Test");
    assert_eq!(get_role_for_file(&file("src/x.rs", "Rust")), "Source");
    assert_eq!(determine_relationship("config.toml", "src/a.rs"), "configures");
    assert_eq!(determine_relationship("src/main.rs", "src/Test_x.rs"), "tests");
    assert_eq!(determine_relationship("src/main.rs", "src/lib.rs"), "imports");
    assert_eq!(determine_relationship("main.rs", "lib.rs"), "imports");
    assert_eq!(determine_relationship("src/main.rs", "lib/x.rs"), "calls_likely");
    assert_eq!(determine_relationship("app/a.rs", "lib/x.rs"), "unknown");
}

#[test]
fn structure_graph_from_entrypoints() {
    let files = vec![file("src/main.rs", "Rust"), file("src/util.rs", "Rust"), file("docs/readme.md", "Markdown")];
    let g = build_structure_graph(&files, &[entry("src/main.rs")]);
    let nodes: Vec<(&str, &str, &str)> =
        g.nodes.iter().map(|n| (n.id.as_str(), n.label.as_str(), n.role.as_str())).collect();
    assert_eq!(
        nodes,
        vec![
            ("src/main.rs", "main.rs", "Entry"),
            ("src/util.rs", "util.rs", "Utility"),
            ("docs/readme.md", "readme.md", "Source"),
        ]
    );
    let edges: Vec<(&str, &str, &str, u32)> = g
        .edges
        .iter()
        .map(|e| (e.from.as_str(), e.to.as_str(), e.relationship.as_str(), e.confidence))
        .collect();
    assert_eq!(
        edges,
        vec![
            ("src/main.rs", "src/util.rs", "imports", 60),
            ("src/main.rs", "docs/readme.md", "calls_likely", 60),
        ]
    );
}

#[test]
fn structure_graph_stops_after_one_hundred_and_one_edges() {
    let mut files = vec![file("src/main.rs", "Rust")];
    for i in 0..150 {
        files.push(file(&format!("src/m{}.rs", i), "Rust"));
    }
    let g = build_structure_graph(&files, &[entry("src/main.rs"), entry("src/m0.rs")]);
    assert_eq!(g.nodes.len(), 151);
    assert_eq!(g.edges.len(), 101);
    assert!(g.edges.iter().all(|e| e.from == "src/main.rs" && e.to != "src/main.rs"));
}

#[test]
fn file_risks() {
    let big = detect_file_risks(&sized("big.bin", 2_000_000)).unwrap();
    assert_eq!(big.risk_type, "large_file");
    assert_eq!(big.severity, "Low");
    assert_eq!(big.confidence, 99);
    assert_eq!(big.reason, "Large file (2000000 bytes) - may waste tokens");
    assert!(detect_file_risks(&sized("edge.rs", 1_000_000)).is_none());
    let mut bin = file("a.o", "Unknown");
    bin.is_binary = true;
    bin.is_generated = true;
    assert_eq!(detect_file_risks(&bin).unwrap().risk_type, "binary_file");
    let mut gen = file("a.min.js", "JavaScript");
    gen.is_generated = true;
    let g = detect_file_risks(&gen).unwrap();
    assert_eq!((g.risk_type.as_str(), g.confidence), ("generated_noise", 85));
    assert!(detect_unsafe_patterns(&gen, "/base").is_none());
}

#[test]
fn secret_risks() {
    let env = detect_secret_risks(&file("config/.env", "Unknown"), None).unwrap();
    assert_eq!((env.risk_type.as_str(), env.severity.as_str(), env.confidence), ("env_file", "High", 95));
    assert_eq!(env.safe_action, "Do not send this file to LLM. Add to ignore rules.");
    assert_eq!(detect_secret_risks(&file("prod.env", "Unknown"), None).unwrap().risk_type, "env_file");
    assert_eq!(detect_secret_risks(&file(".env.local", "Unknown"), None).unwrap().risk_type, "env_file");
    let key = detect_secret_risks(&file("certs/server.key", "Unknown"), None).unwrap();
    assert_eq!((key.risk_type.as_str(), key.severity.as_str(), key.confidence), ("secret_leak", "Critical", 98));
    let api = detect_secret_risks(&file("a.py", "Python"), Some("API_KEY = \"abcd\"\n")).unwrap();
    assert_eq!((api.severity.as_str(), api.confidence), ("High", 75));
    let tok = detect_secret_risks(&file("a.js", "JavaScript"), Some("const token = 'x';")).unwrap();
    assert_eq!((tok.severity.as_str(), tok.confidence), ("Medium", 65));
    let aws = detect_secret_risks(&file("a.go", "Go"), Some("key := AKIA123")).unwrap();
    assert_eq!((aws.severity.as_str(), aws.confidence), ("Critical", 90));
    assert!(detect_secret_risks(&file("a.py", "Python"), Some("api_key = os.environ[\"KEY\"]")).is_none());
    assert!(detect_secret_risks(&file("a.md", "Markdown"), Some("AKIA123")).is_none());
    assert!(detect_secret_risks(&file("a.py", "Python"), None).is_none());
}

#[test]
fn hardcoded_secret_heuristic() {
    assert!(is_likely_hardcoded_secret("x = \"abc\""));
    assert!(is_likely_hardcoded_secret("x = 'a' + 'b'"));
    assert!(!is_likely_hardcoded_secret("x = \"abc"));
    assert!(!is_likely_hardcoded_secret("token = os.getenv(\"T\")"));
    let mut late = String::new();
    for _ in 0..20 {
        late.push_str("plain\n");
    }
    late.push_str("s = \"hidden\"\n");
    assert!(!is_likely_hardcoded_secret(&late));
}

#[test]
fn risks_come_most_severe_first() {
    let files = vec![sized("big.rs", 3_000_000), file("a.py", "Python"), file("x.pem", "Unknown"), file(".env", "Unknown")];
    let contents = vec![None, Some("token = \"t\"".to_string()), None, None];
    let rs = detect_risks(&files, &contents);
    let got: Vec<(&str, &str)> = rs.iter().map(|r| (r.file.as_str(), r.severity.as_str())).collect();
    assert_eq!(got, vec![("x.pem", "Critical"), (".env", "High"), ("a.py", "Medium"), ("big.rs", "Low")]);
}

#[test]
fn priorities_and_tokens() {
    assert_eq!(
        get_priority_for_role("Brain"),
        ("MustSend".to_string(), "Core logic file - essential for understanding project behavior".to_string())
    );
    assert_eq!(get_priority_for_role("Dangerous").0, "NeverSend");
    assert_eq!(
        get_priority_for_role("Other"),
        ("IgnoreFirst".to_string(), "Unclassified - low priority for initial analysis".to_string())
    );
    assert_eq!(estimate_file_tokens(&sized("a", 10)), 2);
    assert_eq!(estimate_file_tokens(&sized("a", 3)), 0);
    assert_eq!(estimate_tokens_for_content("abcdefgh"), 2);
    assert_eq!(estimate_tokens_for_content("h\u{e9}llo"), 1);
    assert_eq!(estimate_total_tokens(&[sized("a", 10), sized("b", 7), sized("c", 4)]), 4);
    assert_eq!(estimate_total_tokens_checked(&[sized("a", 10), sized("b", 7)]), Some(3));
    if usize::BITS == 64 {
        let big = vec![sized("a", u64::MAX); 4];
        assert_eq!(estimate_total_tokens_checked(&big), Some(4 * (u64::MAX / 4) as usize));
        let bigger = vec![sized("a", u64::MAX); 5];
        assert_eq!(estimate_total_tokens_checked(&bigger), None);
    }
}

#[test]
fn context_plan_skips_risky_files_and_ranks_from_one() {
    let files = vec![sized("a.rs", 40), sized("x/main.rs", 8), sized(".env", 4), sized("util.rs", 0), sized("cfg.toml", 12)];
    let plan = plan_context(
        &files,
        &[entry("x/main.rs")],
        &[role("a.rs", "Brain"), role("util.rs", "Utility"), role("cfg.toml", "Config")],
        &[risk(".env", "High"), risk("a.rs", "Low")],
    );
    let got: Vec<(usize, &str, &str, usize)> = plan
        .iter()
        .map(|p| (p.rank, p.file.as_str(), p.priority.as_str(), p.estimated_tokens))
        .collect();
    assert_eq!(
        got,
        vec![
            (1, "a.rs", "MustSend", 10),
            (2, "x/main.rs", "MustSend", 2),
            (3, "cfg.toml", "SendIfNeeded", 3),
            (4, "util.rs", "IgnoreFirst", 0),
        ]
    );
    assert_eq!(plan[1].reason, "Execution entrypoint - essential for understanding");
}

#[test]
fn edit_zones_and_stats() {
    let mut t = file("tests/a.rs", "Rust");
    t.is_test = true;
    let mut c = file("app.toml", "TOML");
    c.is_config = true;
    let mut ign = sized("huge.rs", 1_000_001);
    ign.ignored = true;
    let files = vec![file("key.pem", "Unknown"), t, c, ign];
    let zones = build_edit_zones(&files, &[], &[risk("key.pem", "Critical")]);
    let got: Vec<(&str, &str, &str)> =
        zones.iter().map(|z| (z.file.as_str(), z.zone.as_str(), z.risk_level.as_str())).collect();
    assert_eq!(
        got,
        vec![
            ("key.pem", "DO_NOT_TOUCH_YET", "High"),
            ("tests/a.rs", "SAFE_TO_MODIFY", "Low"),
            ("app.toml", "MODIFY_WITH_CAUTION", "Medium"),
            ("huge.rs", "SAFE_TO_MODIFY", "Low"),
        ]
    );
    assert_eq!(zones[0].reason, "High-risk file - review before modification");
    assert_eq!(zones[2].reason, "Configuration changes may affect runtime behavior");
    let s = summary_stats(&files, 7);
    assert_eq!((s.total_files, s.analyzed_files, s.ignored_files, s.large_files, s.risk_count), (4, 3, 1, 1, 7));
}

#[test]
fn project_ir_collects_the_analysis() {
    let files = vec![file("b.py", "Python"), file("a.rs", "Rust"), file("c.rs", "Rust"), file("x", "Unknown"), file("Cargo.toml", "Rust")];
    assert_eq!(sorted_languages(&files), vec!["Python", "Rust"]);
    let ir = build_project_ir(
        "/home/u/proj",
        files.clone(),
        vec![],
        vec![entry("a.rs")],
        vec![],
        vec![],
        vec![risk("b.py", "High")],
        StructureGraph { nodes: vec![], edges: vec![] },
        42,
        vec![],
    );
    assert_eq!(ir.project.name, "proj");
    assert_eq!(ir.project.path, "/home/u/proj");
    assert_eq!(ir.project.languages, vec!["Python", "Rust"]);
    assert_eq!(ir.project.dominant_language, "Rust");
    assert_eq!(ir.project.detected_frameworks, vec!["Cargo"]);
    assert_eq!(ir.files, files);
    assert_eq!(ir.token_estimate, 42);
    assert_eq!(ir.edit_zones.len(), 5);
    assert_eq!(ir.edit_zones[0].zone, "DO_NOT_TOUCH_YET");
    assert_eq!(ir.summary_stats.total_files, 5);
    assert_eq!(ir.summary_stats.risk_count, 1);
}

#[test]
fn ignored_paths() {
    assert!(should_ignore("/p/node_modules/x.js", "/p"));
    assert!(should_ignore("/p/.git", "/p"));
    assert!(should_ignore("/p/src/a.png", "/p"));
    assert!(should_ignore("/p/src/yarn.lock", "/p"));
    assert!(!should_ignore("/p/src/a.rs", "/p"));
    assert!(!should_ignore("/p/src/my.target", "/p"));
}

#[test]
fn file_metadata_record() {
    let f = collect_file_metadata(
        "/p/src/gen.min.js",
        "src/gen.min.js",
        "/abs/src/gen.min.js",
        12,
        Some("a\nb\n"),
        Some(b"abc"),
    );
    assert_eq!(f.path, "src/gen.min.js");
    assert_eq!(f.absolute_path, "/abs/src/gen.min.js");
    assert_eq!(f.extension, "js");
    assert_eq!(f.language, "JavaScript");
    assert_eq!(f.size_bytes, 12);
    assert_eq!(f.line_count, 2);
    assert_eq!(f.hash, "ba7816bf8f01cfea414140de5dae2223b00361a396177a9cb410ff61f20015ad");
    assert!(!f.is_binary);
    assert!(f.is_generated);
    assert!(!f.is_test);
    assert!(!f.is_config);
    assert!(!f.ignored);
    let t = collect_file_metadata("/p/src/tests/x.yaml", "src/tests/x.yaml", "/abs", 0, Some("a\0b"), None);
    assert_eq!(t.hash, "unknown");
    assert!(t.is_binary);
    assert!(t.is_test);
    assert!(t.is_config);
    assert_eq!(t.line_count, 1);
    let n = collect_file_metadata("/p/README", "README", "/abs", 0, None, None);
    assert_eq!((n.extension.as_str(), n.language.as_str(), n.line_count), ("", "Unknown", 0));
}

#[test]
fn hashes_and_errors() {
    assert_eq!(to_hex(&[0x00, 0xab, 0x10]), "00ab10");
    assert_eq!(to_hex(&[]), "");
    assert_eq!(compute_sha256(b""), "e3b0c44298fc1c149afbf4c8996fb92427ae41e4649b934ca495991b7852b855");
    assert_eq!(compute_sha256_string("abc"), "ba7816bf8f01cfea414140de5dae2223b00361a396177a9cb410ff61f20015ad");
    assert_eq!(compute_sha256_string("abc").len(), 64);
    assert!(compute_sha256_string("x").chars().all(|c| c.is_ascii_digit() || ('a'..='f').contains(&c)));
    let e = new_error("boom");
    assert_eq!(e.message, "boom");
    assert_eq!(e.describe(), "ScanError: boom");
}

#[test]
fn secret_files_stay_out_of_the_plan() {
    let files = vec![file(".env", "Unknown"), file("k/server.key", "Unknown"), file("a.rs", "Rust"), file("prod.env", "Unknown")];
    let contents = vec![None, None, Some("fn f() {}".to_string()), None];
    let risks = detect_risks(&files, &contents);
    let plan = plan_context(&files, &[entry(".env")], &[role(".env", "Brain")], &risks);
    let got: Vec<&str> = plan.iter().map(|p| p.file.as_str()).collect();
    assert_eq!(got, vec!["a.rs"]);
}

#[test]
fn dangerous_files_are_never_sent_even_as_entry_points() {
    let files = vec![file("auth.rs", "Rust"), file("deploy.rs", "Rust")];
    let plan = plan_context(
        &files,
        &[entry("deploy.rs")],
        &[role("auth.rs", "Dangerous"), role("deploy.rs", "Dangerous")],
        &[],
    );
    let got: Vec<(&str, &str)> = plan.iter().map(|p| (p.file.as_str(), p.priority.as_str())).collect();
    assert_eq!(got, vec![("auth.rs", "NeverSend"), ("deploy.rs", "NeverSend")]);
    assert_eq!(plan[1].reason, "Security-sensitive - do not send to LLM without explicit approval");
}
