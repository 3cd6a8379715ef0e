//! Records of the project map: files, directories, symbols and the
//! relationships between them.
//!
//! Centrality scores are exact ratios; relationship confidences are whole
//! hundredths (`80` stands for 0.8).

use vstd::prelude::*;

verus! {

/// A non-negative ratio `num / den`.
#[derive(Debug, Clone, Copy, PartialEq, Eq)]
pub struct Ratio {
    pub num: u128,
    pub den: u128,
}

impl Ratio {
    /// The ratio is a number between 0 and 1 whose denominator leaves room for
    /// percentages.
    pub open spec fn unit(self) -> bool {
        self.den > 0 && self.num <= self.den && self.den <= u128::MAX / 200
    }

    /// `100 * num / den`, rounded to the nearest whole number, ties to even.
    pub open spec fn percent(self) -> nat {
        let q = (100 * self.num) / (self.den as int);
        let rem = (100 * self.num) % (self.den as int);
        if 2 * rem > self.den || (2 * rem == self.den && q % 2 == 1) {
            (q + 1) as nat
        } else {
            q as nat
        }
    }

    /// The ratio has a positive denominator and its percentage can be
    /// computed within `u128` and returned as a `u64`.
    pub open spec fn percent_fits(self) -> bool {
        &&& self.den > 0
        &&& self.den <= u128::MAX / 200
        &&& (self.num <= self.den || 100 * self.num < u64::MAX)
    }

    /// The percentage of the ratio, as `{:.0}` prints `100 * num / den`.
    pub fn percent_exec(self) -> (r: u64)
        requires
            self.percent_fits(),
        ensures
            r == self.percent(),
            self.unit() ==> r <= 100,
    {
        let hundred = 100 * self.num;
        let q = hundred / self.den;
        let rem = hundred % self.den;
        if self.num <= self.den {
            assert(q <= 100) by (nonlinear_arith)
                requires
                    q == hundred / self.den,
                    hundred == 100 * self.num,
                    self.num <= self.den,
                    self.den > 0,
            ;
        } else {
            assert(q <= hundred) by (nonlinear_arith)
                requires
                    q == hundred / self.den,
                    hundred >= 0,
                    self.den > 0,
            ;
        }
        let up = 2 * rem > self.den || (2 * rem == self.den && q % 2 == 1);
        if up {
            if self.num <= self.den {
                assert(q < 100) by (nonlinear_arith)
                    requires
                        q == hundred / self.den,
                        rem == hundred % self.den,
                        hundred == 100 * self.num,
                        self.num <= self.den,
                        self.den > 0,
                        2 * rem >= self.den,
                ;
            }
            (q + 1) as u64
        } else {
            q as u64
        }
    }

    /// The ratio `0 / 1`.
    pub fn zero() -> (r: Ratio)
        ensures
            r.num == 0 && r.den == 1,
    {
        Ratio { num: 0, den: 1 }
    }
}

/// The complete project map.
#[derive(Debug, Clone)]
pub struct ProjectMapIR {
    pub root_path: String,
    pub files: Vec<FileNode>,
    pub directories: Vec<DirectoryNode>,
    pub symbols: Vec<Symbol>,
    pub relationships: Vec<Relationship>,
    pub stats: MapStats,
}

/// A file in the project map.
#[derive(Debug, Clone)]
pub struct FileNode {
    pub id: String,
    pub path: String,
    pub relative_path: String,
    pub extension: String,
    pub language: String,
    pub size_bytes: u64,
    pub line_count: usize,
    pub role: FileRole,
    pub centrality_score: Ratio,
    pub symbol_count: usize,
    pub hash: String,
}

/// A directory in the project map.
#[derive(Debug, Clone)]
pub struct DirectoryNode {
    pub id: String,
    pub path: String,
    pub relative_path: String,
    pub children_count: usize,
    pub file_count: usize,
    pub dir_count: usize,
    pub role_hint: Option<String>,
}

/// A symbol found in code: a class, function, method, import and so on.
#[derive(Debug, Clone)]
pub struct Symbol {
    pub id: String,
    pub name: String,
    pub kind: SymbolKind,
    pub file_id: String,
    pub file_path: String,
    pub start_line: usize,
    pub end_line: usize,
    pub start_col: usize,
    pub end_col: usize,
    pub signature: String,
    pub docstring: Option<String>,
    pub parent_id: Option<String>,
    pub visibility: Visibility,
    pub is_async: bool,
    pub is_static: bool,
    pub parameters: Vec<Parameter>,
    pub return_type: Option<String>,
    pub type_parameters: Vec<String>,
}

/// A parameter of a function or method.
#[derive(Debug, Clone)]
pub struct Parameter {
    pub name: String,
    pub type_annotation: Option<String>,
    pub default_value: Option<String>,
}

/// The kind of a symbol.
#[derive(Debug, Clone, Copy, PartialEq, Eq, Hash)]
pub enum SymbolKind {
    Class,
    Interface,
    Trait,
    Struct,
    Enum,
    Function,
    Method,
    Constructor,
    Property,
    Field,
    Variable,
    Constant,
    TypeAlias,
    Import,
    Module,
    Namespace,
    Package,
}

/// A visibility modifier.
#[derive(Debug, Clone, Copy, PartialEq, Eq)]
pub enum Visibility {
    Public,
    Private,
    Protected,
    Internal,
}

/// The role of a file in the project.
#[derive(Debug, Clone, Copy, PartialEq, Eq)]
pub enum FileRole {
    Entry,
    Brain,
    Interface,
    Connector,
    Config,
    Utility,
    DataModel,
    Output,
    Test,
    Documentation,
    Unknown,
}

/// A relationship between two elements.
#[derive(Debug, Clone)]
pub struct Relationship {
    pub from_id: String,
    pub to_id: String,
    pub kind: RelationshipKind,
    /// In hundredths.
    pub confidence: u32,
}

/// The kind of a relationship.
#[derive(Debug, Clone, Copy, PartialEq, Eq)]
pub enum RelationshipKind {
    Imports,
    Extends,
    Implements,
    Calls,
    Uses,
    Contains,
    Exports,
    DependsOn,
    References,
}

/// Counts over the map. Languages and roles are listed with their file
/// counts in the order in which they first occur; the mean centrality is a
/// floating-point figure derived from the files where the map is rendered.
#[derive(Debug, Clone)]
pub struct MapStats {
    pub total_files: usize,
    pub total_directories: usize,
    pub total_symbols: usize,
    pub total_lines: usize,
    pub total_size_bytes: u64,
    pub languages: Vec<(String, usize)>,
    pub roles: Vec<(String, usize)>,
}

/// The structural summary of one file.
#[derive(Debug, Clone)]
pub struct FileSummary {
    pub file: FileNode,
    pub symbols: Vec<Symbol>,
    pub imports: Vec<ImportInfo>,
    pub dependencies: Vec<DependencyInfo>,
    pub dependents: Vec<DependencyInfo>,
    pub one_line_summary: String,
}

/// One import of a file.
#[derive(Debug, Clone)]
pub struct ImportInfo {
    pub source: String,
    pub names: Vec<String>,
    pub is_external: bool,
    pub is_relative: bool,
}

/// One dependency edge seen from a file.
#[derive(Debug, Clone)]
pub struct DependencyInfo {
    pub target_id: String,
    pub target_path: String,
    pub relationship: RelationshipKind,
}

/// A compact outline of the project.
#[derive(Debug, Clone)]
pub struct ProjectSkeleton {
    pub root_name: String,
    pub top_level_dirs: Vec<String>,
    pub key_files: Vec<KeyFile>,
    pub symbol_index: Vec<SymbolIndexEntry>,
}

/// A file that matters to the project as a whole.
#[derive(Debug, Clone)]
pub struct KeyFile {
    pub path: String,
    pub role: FileRole,
    pub centrality: Ratio,
}

/// One entry of the compact symbol index.
#[derive(Debug, Clone)]
pub struct SymbolIndexEntry {
    pub id: String,
    pub name: String,
    pub kind: SymbolKind,
    pub file_path: String,
    pub centrality: Ratio,
}

/// How central an element is.
#[derive(Debug, Clone)]
pub struct Centrality {
    pub score: Ratio,
    pub level: CentralityLevel,
    pub incoming_edges: usize,
    pub outgoing_edges: usize,
    pub description: String,
}

/// A centrality class.
#[derive(Debug, Clone, Copy, PartialEq, Eq)]
pub enum CentralityLevel {
    High,
    Medium,
    Low,
}

impl Default for FileRole {
    fn default() -> (r: Self)
        ensures
            r == FileRole::Unknown,
    {
        FileRole::Unknown
    }
}

impl Default for Visibility {
    fn default() -> (r: Self)
        ensures
            r == Visibility::Public,
    {
        Visibility::Public
    }
}

impl Default for CentralityLevel {
    fn default() -> (r: Self)
        ensures
            r == CentralityLevel::Low,
    {
        CentralityLevel::Low
    }
}

// ---------------------------------------------------------------------------
// Mathematical views
// ---------------------------------------------------------------------------

/// A parameter as text.
pub struct ParameterView {
    pub name: Seq<char>,
    pub type_annotation: Option<Seq<char>>,
    pub default_value: Option<Seq<char>>,
}

/// A symbol as text and numbers.
pub struct SymbolView {
    pub id: Seq<char>,
    pub name: Seq<char>,
    pub kind: SymbolKind,
    pub file_id: Seq<char>,
    pub file_path: Seq<char>,
    pub start_line: nat,
    pub end_line: nat,
    pub start_col: nat,
    pub end_col: nat,
    pub signature: Seq<char>,
    pub docstring: Option<Seq<char>>,
    pub parent_id: Option<Seq<char>>,
    pub visibility: Visibility,
    pub is_async: bool,
    pub is_static: bool,
    pub parameters: Seq<ParameterView>,
    pub return_type: Option<Seq<char>>,
    pub type_parameters: Seq<Seq<char>>,
}

/// The text of an optional string.
pub open spec fn opt_text(o: Option<String>) -> Option<Seq<char>> {
    match o {
        Some(s) => Some(s@),
        None => None,
    }
}

impl View for Parameter {
    type V = ParameterView;

    open spec fn view(&self) -> ParameterView {
        ParameterView {
            name: self.name@,
            type_annotation: opt_text(self.type_annotation),
            default_value: opt_text(self.default_value),
        }
    }
}

/// The views of a list of parameters.
pub open spec fn parameter_views(ps: Seq<Parameter>) -> Seq<ParameterView> {
    ps.map_values(|p: Parameter| p@)
}

impl View for Symbol {
    type V = SymbolView;

    open spec fn view(&self) -> SymbolView {
        SymbolView {
            id: self.id@,
            name: self.name@,
            kind: self.kind,
            file_id: self.file_id@,
            file_path: self.file_path@,
            start_line: self.start_line as nat,
            end_line: self.end_line as nat,
            start_col: self.start_col as nat,
            end_col: self.end_col as nat,
            signature: self.signature@,
            docstring: opt_text(self.docstring),
            parent_id: opt_text(self.parent_id),
            visibility: self.visibility,
            is_async: self.is_async,
            is_static: self.is_static,
            parameters: parameter_views(self.parameters@),
            return_type: opt_text(self.return_type),
            type_parameters: self.type_parameters@.map_values(|t: String| t@),
        }
    }
}

/// The views of a list of symbols.
pub open spec fn symbol_views(ss: Seq<Symbol>) -> Seq<SymbolView> {
    ss.map_values(|s: Symbol| s@)
}

/// A file node as text and numbers.
pub struct FileNodeView {
    pub id: Seq<char>,
    pub path: Seq<char>,
    pub relative_path: Seq<char>,
    pub extension: Seq<char>,
    pub language: Seq<char>,
    pub size_bytes: u64,
    pub line_count: nat,
    pub role: FileRole,
    pub centrality_score: Ratio,
    pub symbol_count: nat,
    pub hash: Seq<char>,
}

impl View for FileNode {
    type V = FileNodeView;

    open spec fn view(&self) -> FileNodeView {
        FileNodeView {
            id: self.id@,
            path: self.path@,
            relative_path: self.relative_path@,
            extension: self.extension@,
            language: self.language@,
            size_bytes: self.size_bytes,
            line_count: self.line_count as nat,
            role: self.role,
            centrality_score: self.centrality_score,
            symbol_count: self.symbol_count as nat,
            hash: self.hash@,
        }
    }
}

/// The views of a list of file nodes.
pub open spec fn file_views(fs: Seq<FileNode>) -> Seq<FileNodeView> {
    fs.map_values(|f: FileNode| f@)
}

/// A directory node as text and numbers.
pub struct DirectoryNodeView {
    pub id: Seq<char>,
    pub path: Seq<char>,
    pub relative_path: Seq<char>,
    pub children_count: nat,
    pub file_count: nat,
    pub dir_count: nat,
    pub role_hint: Option<Seq<char>>,
}

impl View for DirectoryNode {
    type V = DirectoryNodeView;

    open spec fn view(&self) -> DirectoryNodeView {
        DirectoryNodeView {
            id: self.id@,
            path: self.path@,
            relative_path: self.relative_path@,
            children_count: self.children_count as nat,
            file_count: self.file_count as nat,
            dir_count: self.dir_count as nat,
            role_hint: opt_text(self.role_hint),
        }
    }
}

/// The views of a list of directory nodes.
pub open spec fn dir_views(ds: Seq<DirectoryNode>) -> Seq<DirectoryNodeView> {
    ds.map_values(|d: DirectoryNode| d@)
}

/// A relationship as text and numbers.
pub struct RelationshipView {
    pub from_id: Seq<char>,
    pub to_id: Seq<char>,
    pub kind: RelationshipKind,
    pub confidence: u32,
}

impl View for Relationship {
    type V = RelationshipView;

    open spec fn view(&self) -> RelationshipView {
        RelationshipView {
            from_id: self.from_id@,
            to_id: self.to_id@,
            kind: self.kind,
            confidence: self.confidence,
        }
    }
}

/// The views of a list of relationships.
pub open spec fn rel_views(rs: Seq<Relationship>) -> Seq<RelationshipView> {
    rs.map_values(|r: Relationship| r@)
}

/// An import as text.
pub struct ImportInfoView {
    pub source: Seq<char>,
    pub names: Seq<Seq<char>>,
    pub is_external: bool,
    pub is_relative: bool,
}

impl View for ImportInfo {
    type V = ImportInfoView;

    open spec fn view(&self) -> ImportInfoView {
        ImportInfoView {
            source: self.source@,
            names: self.names@.map_values(|n: String| n@),
            is_external: self.is_external,
            is_relative: self.is_relative,
        }
    }
}

/// The name under which a role is printed (its `Debug` form).
pub open spec fn role_text(r: FileRole) -> Seq<char> {
    match r {
        FileRole::Entry => "Entry"@,
        FileRole::Brain => "Brain"@,
        FileRole::Interface => "Interface"@,
        FileRole::Connector => "Connector"@,
        FileRole::Config => "Config"@,
        FileRole::Utility => "Utility"@,
        FileRole::DataModel => "DataModel"@,
        FileRole::Output => "Output"@,
        FileRole::Test => "Test"@,
        FileRole::Documentation => "Documentation"@,
        FileRole::Unknown => "Unknown"@,
    }
}

/// The name under which a role is printed.
pub fn role_name(r: FileRole) -> (s: &'static str)
    ensures
        s@ == role_text(r),
{
    match r {
        FileRole::Entry => "Entry",
        FileRole::Brain => "Brain",
        FileRole::Interface => "Interface",
        FileRole::Connector => "Connector",
        FileRole::Config => "Config",
        FileRole::Utility => "Utility",
        FileRole::DataModel => "DataModel",
        FileRole::Output => "Output",
        FileRole::Test => "Test",
        FileRole::Documentation => "Documentation",
        FileRole::Unknown => "Unknown",
    }
}

/// A dependency edge as text.
pub struct DependencyInfoView {
    pub target_id: Seq<char>,
    pub target_path: Seq<char>,
    pub relationship: RelationshipKind,
}

impl View for DependencyInfo {
    type V = DependencyInfoView;

    open spec fn view(&self) -> DependencyInfoView {
        DependencyInfoView {
            target_id: self.target_id@,
            target_path: self.target_path@,
            relationship: self.relationship,
        }
    }
}

/// The views of a list of dependency edges.
pub open spec fn dep_views(v: Seq<DependencyInfo>) -> Seq<DependencyInfoView> {
    v.map_values(|d: DependencyInfo| d@)
}

/// A key file as text.
pub struct KeyFileView {
    pub path: Seq<char>,
    pub role: FileRole,
    pub centrality: Ratio,
}

impl View for KeyFile {
    type V = KeyFileView;

    open spec fn view(&self) -> KeyFileView {
        KeyFileView { path: self.path@, role: self.role, centrality: self.centrality }
    }
}

/// An index entry as text.
pub struct SymbolIndexEntryView {
    pub id: Seq<char>,
    pub name: Seq<char>,
    pub kind: SymbolKind,
    pub file_path: Seq<char>,
    pub centrality: Ratio,
}

impl View for SymbolIndexEntry {
    type V = SymbolIndexEntryView;

    open spec fn view(&self) -> SymbolIndexEntryView {
        SymbolIndexEntryView {
            id: self.id@,
            name: self.name@,
            kind: self.kind,
            file_path: self.file_path@,
            centrality: self.centrality,
        }
    }
}

/// A centrality as text and numbers.
pub struct CentralityView {
    pub score: Ratio,
    pub level: CentralityLevel,
    pub incoming_edges: nat,
    pub outgoing_edges: nat,
    pub description: Seq<char>,
}

impl View for Centrality {
    type V = CentralityView;

    open spec fn view(&self) -> CentralityView {
        CentralityView {
            score: self.score,
            level: self.level,
            incoming_edges: self.incoming_edges as nat,
            outgoing_edges: self.outgoing_edges as nat,
            description: self.description@,
        }
    }
}

/// Counts by name, as text and numbers.
pub open spec fn tally_views(v: Seq<(String, usize)>) -> Seq<(Seq<char>, nat)> {
    v.map_values(|p: (String, usize)| (p.0@, p.1 as nat))
}

} // verus!
