use sourceclass::map::schema::{Symbol, SymbolKind, Visibility};
use sourceclass::symbol::extractor::SymbolExtractor;
use sourceclass::symbol::signature::{
    extract_python_fn_signature, extract_rust_fn_signature, find_brace_block,
    parse_python_fn_params, parse_rust_fn_params_return,
};

fn names(syms: &[Symbol]) -> Vec<&str> {
    syms.iter().map(|s| s.name.as_str()).collect()
}

const RUST_SOURCE: &str = "pub struct Point {\n    x: i32,\n}\n\nimpl Point {\n    pub fn new(x: i32) -> Self { Point { x } }\n    fn norm(&self) -> f64 { 0.0 }\n}\n\nuse std::fmt;\n";

#[test]
fn rust_struct_is_found() {
    let ex = SymbolExtractor::new();
    let content = "pub struct Point {\n    x: i32,\n}\n";
    let syms = ex.extract_from_file("src/geo.rs", content).unwrap();
    assert_eq!(syms.len(), 1);
    assert_eq!(syms[0].name, "Point");
    assert_eq!(syms[0].id, "file_src_geo.rs_struct_Point");
    assert_eq!(syms[0].signature, "pub struct Point");
    assert_eq!(syms[0].visibility, Visibility::Public);
    assert_eq!(syms[0].start_line, 0);
    assert_eq!(syms[0].end_line, 1);
    assert_eq!(syms[0].file_path, "src/geo.rs");
}

#[test]
fn rust_impl_methods_have_parent_and_signature() {
    let ex = SymbolExtractor::new();
    let syms = ex.extract_from_file("src/geo.rs", RUST_SOURCE).unwrap();
    assert_eq!(names(&syms), vec!["Point", "new", "norm", "std::fmt"]);

    let new = &syms[1];
    assert_eq!(new.kind, SymbolKind::Method);
    assert_eq!(new.id, "file_src_geo.rs_method_Point_new");
    assert_eq!(new.parent_id.as_deref(), Some("file_src_geo.rs_struct_Point"));
    assert_eq!(new.signature, "pub fn new(x: i32) -> Self");
    assert_eq!(new.visibility, Visibility::Public);
    assert!(new.is_static);
    assert_eq!(new.start_line, 5);
    assert_eq!(new.parameters.len(), 1);
    assert_eq!(new.parameters[0].name, "x");
    assert_eq!(new.parameters[0].type_annotation.as_deref(), Some("i32"));
    assert_eq!(new.return_type.as_deref(), Some("Self"));

    let norm = &syms[2];
    assert_eq!(norm.visibility, Visibility::Private);
    assert!(!norm.is_static);
    assert_eq!(norm.start_line, 5);
    assert_eq!(norm.parameters[0].name, "&self");
    assert_eq!(norm.parameters[0].type_annotation, None);
    assert_eq!(norm.return_type.as_deref(), Some("f64"));

    let import = &syms[3];
    assert_eq!(import.kind, SymbolKind::Import);
    assert_eq!(import.id, "file_src_geo.rs_use_9");
    assert_eq!(import.start_line, 9);
    assert_eq!(import.signature, "use std::fmt;");
}

#[test]
fn rust_top_level_functions_and_async() {
    let ex = SymbolExtractor::new();
    let content = "pub async fn fetch(url: &str, n: u8) -> Result<(), E> {\n}\nenum Mode { A }\ntrait Run {}\n";
    let syms = ex.extract_rust_symbols(content, "f", "p.rs").unwrap();
    assert_eq!(names(&syms), vec!["Mode", "Run", "fetch"]);
    assert_eq!(syms[0].kind, SymbolKind::Enum);
    assert_eq!(syms[0].visibility, Visibility::Private);
    assert_eq!(syms[1].kind, SymbolKind::Trait);
    let f = &syms[2];
    assert!(f.is_async);
    assert_eq!(f.id, "f_fn_fetch");
    assert_eq!(f.signature, "pub async fn fetch(url: &str, n: u8) -> Result<(), E>");
    assert_eq!(f.parameters.len(), 2);
    assert_eq!(f.parameters[1].name, "n");
    // The parameter text runs to the last `)`, the one inside `()`.
    assert_eq!(f.parameters[1].type_annotation.as_deref(), Some("u8) -> Result<("));
    assert_eq!(f.return_type, None);
}

#[test]
fn python_classes_functions_and_imports() {
    let ex = SymbolExtractor::new();
    let content = "import os\nfrom pkg.mod import thing\n\nclass Dog(Animal):\n    pass\n\ndef bark(self, times: int = 2, *args):\n    return 1\n";
    let syms = ex.extract_from_file("app.py", content).unwrap();
    assert_eq!(names(&syms), vec!["Dog", "bark", "os", "pkg.mod"]);
    assert_eq!(syms[0].signature, "class Dog(Animal)");
    assert_eq!(syms[0].start_line, 3);
    let bark = &syms[1];
    assert_eq!(bark.kind, SymbolKind::Function);
    assert_eq!(bark.signature, "def bark(self, times");
    assert_eq!(bark.parameters.len(), 1);
    assert_eq!(bark.parameters[0].name, "times");
    assert_eq!(bark.start_line, 6);
    assert_eq!(syms[2].id, "file_app.py_import_0");
    assert_eq!(syms[3].id, "file_app.py_import_1");
}

#[test]
fn python_dunder_is_static() {
    let ex = SymbolExtractor::new();
    let content = "def __init__(self, name: str = \"x\"):\n    pass\n";
    let syms = ex.extract_python_symbols(content, "m", "m.py").unwrap();
    assert_eq!(syms.len(), 1);
    assert!(syms[0].is_static);
    assert_eq!(syms[0].parameters.len(), 1);
    assert_eq!(syms[0].parameters[0].name, "name");
}

#[test]
fn javascript_classes_functions_arrows_imports() {
    let ex = SymbolExtractor::new();
    let content = "import x from './util';\nexport default class App {}\nexport async function load() {}\nconst add = (a, b) => a + b;\n";
    let syms = ex.extract_from_file("web/app.js", content).unwrap();
    assert_eq!(names(&syms), vec!["App", "load", "add", "./util"]);
    assert_eq!(syms[0].visibility, Visibility::Public);
    assert_eq!(syms[0].start_line, 1);
    assert!(syms[1].is_async);
    assert_eq!(syms[1].visibility, Visibility::Public);
    assert_eq!(syms[2].id, "file_web_app.js_arrow_add");
    assert_eq!(syms[2].visibility, Visibility::Private);
    assert_eq!(syms[3].id, "file_web_app.js_import_0");
}

#[test]
fn typescript_interfaces_and_types() {
    let ex = SymbolExtractor::new();
    let content = "export interface Shape {}\ntype Id = string;\n";
    let syms = ex.extract_from_file("a.TS", content).unwrap();
    assert_eq!(names(&syms), vec!["Shape", "Id"]);
    assert_eq!(syms[0].kind, SymbolKind::Interface);
    assert_eq!(syms[1].kind, SymbolKind::TypeAlias);
    assert_eq!(syms[1].visibility, Visibility::Private);
    assert_eq!(syms[1].start_line, 1);
}

#[test]
fn go_functions_and_methods() {
    let ex = SymbolExtractor::new();
    let content = "package main\n\ntype Server struct {}\n\ntype Handler interface {}\n\nfunc (s *Server) Start() {}\n\nfunc main() {}\n";
    let syms = ex.extract_from_file("main.go", content).unwrap();
    assert_eq!(names(&syms), vec!["Server", "Handler", "Start", "main"]);
    assert_eq!(syms[2].kind, SymbolKind::Method);
    assert_eq!(syms[3].kind, SymbolKind::Function);
    assert_eq!(syms[2].start_line, 6);
}

#[test]
fn java_classes_and_methods() {
    let ex = SymbolExtractor::new();
    let content = "public class Shop {\n    private static int count(int a) { return a; }\n}\n";
    let syms = ex.extract_from_file("Shop.java", content).unwrap();
    assert_eq!(names(&syms), vec!["Shop", "count"]);
    assert_eq!(syms[0].visibility, Visibility::Public);
    let m = &syms[1];
    assert_eq!(m.visibility, Visibility::Private);
    assert!(m.is_static);
    assert_eq!(m.return_type.as_deref(), Some("int"));
    assert_eq!(m.start_line, 2);
    assert_eq!(m.id, "file_Shop.java_method_count");
}

#[test]
fn other_languages_use_function_keywords() {
    let ex = SymbolExtractor::new();
    let content = "function greet(name)\nlocal function hidden()\n";
    let syms = ex.extract_from_file("x.lua", content).unwrap();
    assert_eq!(names(&syms), vec!["greet", "hidden"]);
    assert_eq!(syms[1].start_line, 2);
    assert_eq!(syms[1].kind, SymbolKind::Function);
}

#[test]
fn checked_extraction_refuses_a_cut_inside_a_character() {
    let ex = SymbolExtractor::new();
    let mut content = String::from("def f(x");
    for _ in 0..150 {
        content.push('é');
    }
    assert!(ex.extract_from_file_checked("m.py", &content).is_none());
    assert!(!ex.can_extract("m.py", &content));
    let fine = "def f(x):\n    pass\n";
    let r = ex.extract_from_file_checked("m.py", fine).unwrap().unwrap();
    assert_eq!(r.len(), 1);
}

#[test]
fn checked_extraction_refuses_a_broken_parameter_window() {
    let ex = SymbolExtractor::new();
    assert!(ex.extract_from_file_checked("a.rs", "fn a) b(;\n").is_none());
    assert!(ex.extract_from_file_checked("a.rs", "fn a(b: u8);\n").is_some());
}

#[test]
fn signature_helpers() {
    assert_eq!(extract_rust_fn_signature("xx fn a(b: u8) { }", 3), "fn a(b: u8)");
    assert_eq!(extract_python_fn_signature("def g(a, b=1): pass", 0), "def g(a, b=1)");
    let (ps, ret) = parse_rust_fn_params_return("fn a(b: u8, , c) -> u8 -> x");
    assert_eq!(ps.len(), 2);
    assert_eq!(ps[1].name, "c");
    assert_eq!(ret.as_deref(), Some("u8"));
    let (_, none) = parse_rust_fn_params_return("fn a(b)");
    assert_eq!(none, None);
    let py = parse_python_fn_params("def g(self, a: int = 3, b)");
    assert_eq!(py.len(), 2);
    assert_eq!(py[0].name, "a");
    assert_eq!(py[0].type_annotation.as_deref(), Some("int"));
    assert_eq!(py[0].default_value.as_deref(), Some("3"));
    assert_eq!(py[1].default_value, None);
}

#[test]
fn brace_blocks() {
    let cs: Vec<char> = "x } { a { b } c } d".chars().collect();
    assert_eq!(find_brace_block(&cs, 0), Some((9, 12)));
    let none: Vec<char> = "{ never closed".chars().collect();
    assert_eq!(find_brace_block(&none, 0), None);
}

#[test]
fn every_symbol_belongs_to_its_file() {
    let ex = SymbolExtractor::new();
    let syms = ex.extract_from_file("src/geo.rs", RUST_SOURCE).unwrap();
    for s in &syms {
        assert_eq!(s.file_id, "file_src_geo.rs");
        assert_eq!(s.file_path, "src/geo.rs");
        assert_eq!(s.end_line, s.start_line + 1);
    }
}

#[test]
fn rust_methods_without_a_declared_owner_have_no_parent() {
    let ex = SymbolExtractor::new();
    let content = "impl Shape {\n    fn area(&self) -> u32 { 0 }\n}\ntrait Shape {}\n";
    let syms = ex.extract_from_file("s.rs", content).unwrap();
    assert_eq!(names(&syms), vec!["Shape", "area"]);
    assert_eq!(syms[0].kind, SymbolKind::Trait);
    assert_eq!(syms[1].parent_id.as_deref(), Some("file_s.rs_trait_Shape"));
    let lone = ex.extract_from_file("t.rs", "impl Other {\n    fn f() {}\n}\n").unwrap();
    assert_eq!(names(&lone), vec!["f"]);
    assert_eq!(lone[0].parent_id, None);
}
