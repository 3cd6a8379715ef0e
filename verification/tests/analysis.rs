use sourceclass::analyzer::dependency::{
    extract_dependencies, extract_version, parse_cargo_toml, parse_dependency_file, parse_go_mod,
    parse_package_json, parse_requirements_txt,
};
use sourceclass::analyzer::entrypoint::{check_file_for_entrypoint, detect_entrypoints};
use sourceclass::analyzer::file_role::{classify_file_roles, determine_file_role};
use sourceclass::analyzer::language::{
    detect_frameworks, detect_language_from_path, detect_languages, get_dominant_language,
};
use sourceclass::ir::schema::{DependencyInfo, FileObject};

fn file(path: &str, language: &str) -> FileObject {
    let ext = match path.rsplit_once('.') {
        Some((_, e)) if !e.contains('/') => e.to_string(),
        _ => String::new(),
    };
    FileObject {
        path: path.to_string(),
        absolute_path: format!("/abs/{}", path),
        extension: ext,
        language: language.to_string(),
        size_bytes: 0,
        line_count: 0,
        hash: String::new(),
        is_binary: false,
        is_generated: false,
        is_test: false,
        is_config: false,
        ignored: false,
    }
}

fn dep(name: &str, version: &str, kind: &str) -> DependencyInfo {
    DependencyInfo { name: name.to_string(), version: version.to_string(), kind: kind.to_string() }
}

#[test]
fn versions_from_manifest_values() {
    assert_eq!(extract_version(" \"1.0\" "), "1.0");
    assert_eq!(extract_version("{ version = \"1.5\", features = [\"x\"] }"), "1.5");
    assert_eq!(extract_version("{ path = \"../x\" }"), "{ path = \"../x\" }");
    assert_eq!(extract_version(" bare "), "bare");
    assert_eq!(extract_version("\"\""), "");
}

#[test]
fn cargo_manifest_dependencies() {
    let text = "[package]\nname = \"x\"\n\n[dependencies]\nserde = \"1.0\"\nregex = { version = \"1.5\", features = [\"x\"] }\nfoo = bar\nnot a dependency\n[dev-dependencies]\nbaz = \"2\"\n";
    let (manager, deps) = parse_cargo_toml(text);
    assert_eq!(manager, "cargo");
    assert_eq!(
        deps,
        vec![dep("serde", "1.0", "runtime"), dep("regex", "1.5", "runtime"), dep("foo", "bar", "runtime")]
    );
}

#[test]
fn requirements_dependencies() {
    let text = "# comment\n\nrequests==2.28.0\nflask>=2.0\nnumpy<=1.2\ndjango\n";
    let (manager, deps) = parse_requirements_txt(text);
    assert_eq!(manager, "pip");
    assert_eq!(
        deps,
        vec![
            dep("requests", "2.28.0", "runtime"),
            dep("flask", "*", "runtime"),
            dep("numpy", "*", "runtime"),
            dep("django", "*", "runtime"),
        ]
    );
}

#[test]
fn go_module_dependencies() {
    let text = "module x\n\ngo 1.21\n\nrequire (\n\tgithub.com/a/b v1.2.3\n\tgithub.com/c/d v0.1.0 // indirect\n\tlonely\n)\nrequire github.com/e/f v2.0.0\n";
    let (manager, deps) = parse_go_mod(text);
    assert_eq!(manager, "go");
    assert_eq!(
        deps,
        vec![
            dep("github.com/a/b", "v1.2.3", "runtime"),
            dep("github.com/c/d", "v0.1.0", "runtime"),
            dep("github.com/e/f", "v2.0.0", "runtime"),
        ]
    );
}

#[test]
fn package_json_dependencies() {
    let text = r#"{"dependencies": {"react": "^18.0.0", "lodash": "4"}, "devDependencies": {"jest": 29}}"#;
    let (manager, deps) = parse_package_json(text).unwrap();
    assert_eq!(manager, "npm");
    assert_eq!(
        deps,
        vec![dep("lodash", "4", "runtime"), dep("react", "^18.0.0", "runtime"), dep("jest", "*", "dev")]
    );
    assert_eq!(parse_package_json("{\"dependencies\": 5}").unwrap().1, vec![]);
    assert!(parse_package_json("not json").is_none());
}

#[test]
fn manifests_by_file_name() {
    let go = file("sub/go.mod", "Go");
    let got = parse_dependency_file(&go, Some("require a v1\n")).unwrap();
    assert_eq!(got.source, "sub/go.mod");
    assert_eq!(got.manager, "go");
    assert_eq!(got.dependencies, vec![dep("a", "v1", "runtime")]);
    assert!(parse_dependency_file(&go, None).is_none());
    assert!(parse_dependency_file(&file("README.md", "Markdown"), Some("x = 1")).is_none());
    let files = vec![file("Cargo.toml", "Rust"), file("src/main.rs", "Rust"), file("requirements.txt", "Python")];
    let contents = vec![
        Some("[dependencies]\nrand = \"0.8\"\n".to_string()),
        Some("fn main() {}".to_string()),
        Some("six\n".to_string()),
    ];
    let all = extract_dependencies(&files, &contents);
    assert_eq!(all.len(), 2);
    assert_eq!(all[0].manager, "cargo");
    assert_eq!(all[0].dependencies, vec![dep("rand", "0.8", "runtime")]);
    assert_eq!(all[1].source, "requirements.txt");
    assert_eq!(all[1].dependencies, vec![dep("six", "*", "runtime")]);
}

#[test]
fn entrypoints_by_name_and_content() {
    let m = check_file_for_entrypoint(&file("src/main.rs", "Rust"), None).unwrap();
    assert_eq!(m.kind, "rust_main");
    assert_eq!(m.confidence, 95);
    assert_eq!(m.reason, "Rust main.rs - standard entry point");
    let b = check_file_for_entrypoint(&file("src/bin/tool.rs", "Rust"), Some("fn main() {}")).unwrap();
    assert_eq!((b.kind.as_str(), b.confidence), ("rust_fn_main", 98));
    let p = check_file_for_entrypoint(&file("run.py", "Python"), Some("if __name__ == '__main__':\n    go()")).unwrap();
    assert_eq!((p.kind.as_str(), p.confidence), ("python_main_block", 95));
    let j = check_file_for_entrypoint(&file("A.java", "Java"), Some("public static void main(String[] a)")).unwrap();
    assert_eq!((j.kind.as_str(), j.confidence), ("java_main", 96));
    assert!(check_file_for_entrypoint(&file("a.go", "Go"), Some("func main() {}")).is_none());
    let g = check_file_for_entrypoint(&file("a.go", "Go"), Some("package main\nfunc main() {}")).unwrap();
    assert_eq!((g.kind.as_str(), g.confidence), ("go_main", 97));
    let w = check_file_for_entrypoint(&file("web/index.html", "HTML"), None).unwrap();
    assert_eq!((w.kind.as_str(), w.confidence), ("web_entry", 92));
    assert!(check_file_for_entrypoint(&file("src/lib.rs", "Rust"), Some("pub fn f() {}")).is_none());
    assert!(check_file_for_entrypoint(&file("src/lib.rs", "Rust"), None).is_none());
}

#[test]
fn entrypoints_come_most_confident_first() {
    let files = vec![
        file("web/index.html", "HTML"),
        file("src/main.rs", "Rust"),
        file("cmd/a.go", "Go"),
        file("server.js", "JavaScript"),
        file("main.py", "Python"),
    ];
    let contents = vec![None, None, Some("package main\nfunc main() {}".to_string()), None, None];
    let eps = detect_entrypoints(&files, &contents);
    let got: Vec<(&str, u32)> = eps.iter().map(|e| (e.file.as_str(), e.confidence)).collect();
    assert_eq!(
        got,
        vec![("cmd/a.go", 97), ("src/main.rs", 95), ("web/index.html", 92), ("main.py", 90), ("server.js", 88)]
    );
}

#[test]
fn file_roles_by_keywords() {
    let brain = determine_file_role(&file("src/analyzer/x.rs", "Rust")).unwrap();
    assert_eq!(
        (brain.role.as_str(), brain.importance.as_str(), brain.confidence, brain.reason.as_str()),
        ("Brain", "High", 85, "Core logic/analyzer/engine file")
    );
    let entry = determine_file_role(&file("src/Main.rs", "Rust")).unwrap();
    assert_eq!((entry.role.as_str(), entry.confidence), ("Entry", 90));
    let util = determine_file_role(&file("src/utils.rs", "Rust")).unwrap();
    assert_eq!((util.role.as_str(), util.importance.as_str(), util.confidence), ("Utility", "Low", 75));
    let plain = determine_file_role(&file("src/foo.rs", "Rust")).unwrap();
    assert_eq!((plain.role.as_str(), plain.confidence, plain.reason.as_str()), ("Utility", 50, "General purpose file"));
    let danger = determine_file_role(&file("src/auth.rs", "Rust")).unwrap();
    assert_eq!((danger.role.as_str(), danger.importance.as_str(), danger.confidence), ("Dangerous", "High", 88));
    let mut cfg = file("x.yaml", "YAML");
    cfg.is_config = true;
    assert_eq!(determine_file_role(&cfg).unwrap().role, "Config");
    let mut t = file("src/foo.rs", "Rust");
    t.is_test = true;
    assert!(determine_file_role(&t).is_none());
    let roles = classify_file_roles(&[t, file("src/foo.rs", "Rust"), file("src/api/x.rs", "Rust")]);
    let got: Vec<&str> = roles.iter().map(|r| r.role.as_str()).collect();
    assert_eq!(got, vec!["Utility", "Interface"]);
}

#[test]
fn languages_from_paths() {
    assert_eq!(detect_language_from_path("src/Cargo.toml"), ("Rust".to_string(), 98));
    assert_eq!(detect_language_from_path("other.toml"), ("TOML".to_string(), 99));
    assert_eq!(detect_language_from_path("a/b.tsx"), ("TypeScript React".to_string(), 92));
    assert_eq!(detect_language_from_path("Makefile"), ("Unknown".to_string(), 50));
    assert_eq!(detect_language_from_path("x.tar.gz"), ("Unknown".to_string(), 50));
    assert_eq!(detect_language_from_path("lib/x.h"), ("C".to_string(), 98));
    let d = detect_languages(&[file("a.rs", "Rust")]);
    assert_eq!(d.len(), 1);
    assert_eq!((d[0].file.as_str(), d[0].language.as_str(), d[0].confidence), ("a.rs", "Rust", 95));
}

#[test]
fn dominant_language_and_frameworks() {
    let files = vec![
        file("a.rs", "Rust"),
        file("b.rs", "Rust"),
        file("c.py", "Python"),
        file("d.json", "JSON"),
        file("e.json", "JSON"),
        file("f.json", "JSON"),
    ];
    assert_eq!(get_dominant_language(&files), "Rust");
    assert_eq!(get_dominant_language(&[file("x.md", "Markdown"), file("y", "Unknown")]), "Unknown");
    assert_eq!(get_dominant_language(&[]), "Unknown");
    let tied = vec![file("a.py", "Python"), file("b.rs", "Rust"), file("c.rs", "Rust"), file("d.py", "Python")];
    assert_eq!(get_dominant_language(&tied), "Python");
    assert_eq!(get_dominant_language(&[file("m.md", "Markdown"), file("a.go", "Go"), file("b.rs", "Rust")]), "Go");
    let fw = detect_frameworks(
        &[
            file("Cargo.toml", "Rust"),
            file("a/package.json", "JavaScript"),
            file("b/package.json", "JavaScript"),
            file("requirements.txt", "Python"),
            file("pyproject.toml", "Python"),
            file("build.gradle", "Unknown"),
        ],
        "/base",
    );
    assert_eq!(fw, vec!["Cargo", "Node.js", "Python", "Gradle"]);
}
