//! Records of the project intermediate representation.
//!
//! Confidences are whole hundredths: `95` stands for a confidence of 0.95.

use vstd::prelude::*;

verus! {

/// Everything one analysis run reports about a project.
#[derive(Debug, Clone, PartialEq, Eq)]
pub struct ProjectIR {
    pub project: ProjectObject,
    pub files: Vec<FileObject>,
    pub entrypoints: Vec<EntrypointObject>,
    pub dependencies: Vec<DependencyObject>,
    pub file_roles: Vec<FileRoleObject>,
    pub risk_flags: Vec<RiskFlagObject>,
    pub edit_zones: Vec<EditZoneObject>,
    pub structure_graph: StructureGraph,
    pub token_estimate: usize,
    pub context_plan: Vec<ContextPlanItem>,
    pub summary_stats: SummaryStats,
}

/// Project-level facts. The analysis confidence, a ratio, is derived from the
/// number of files where the report is rendered.
#[derive(Debug, Clone, PartialEq, Eq)]
pub struct ProjectObject {
    pub name: String,
    pub path: String,
    pub languages: Vec<String>,
    pub dominant_language: String,
    pub detected_frameworks: Vec<String>,
}

/// One scanned file.
#[derive(Debug, Clone, PartialEq, Eq)]
pub struct FileObject {
    pub path: String,
    pub absolute_path: String,
    pub extension: String,
    pub language: String,
    pub size_bytes: u64,
    pub line_count: usize,
    pub hash: String,
    pub is_binary: bool,
    pub is_generated: bool,
    pub is_test: bool,
    pub is_config: bool,
    pub ignored: bool,
}

/// The language of one file.
#[derive(Debug, Clone, PartialEq, Eq)]
pub struct LanguageDetection {
    pub file: String,
    pub language: String,
    /// In hundredths.
    pub confidence: u32,
}

/// A file that starts execution.
#[derive(Debug, Clone, PartialEq, Eq)]
pub struct EntrypointObject {
    pub file: String,
    pub kind: String,
    /// In hundredths.
    pub confidence: u32,
    pub reason: String,
}

/// The dependencies one manifest declares.
#[derive(Debug, Clone, PartialEq, Eq)]
pub struct DependencyObject {
    pub source: String,
    pub manager: String,
    pub dependencies: Vec<DependencyInfo>,
}

/// One declared dependency.
#[derive(Debug, Clone, PartialEq, Eq)]
pub struct DependencyInfo {
    pub name: String,
    pub version: String,
    pub kind: String,
}

/// The role of one file.
#[derive(Debug, Clone, PartialEq, Eq)]
pub struct FileRoleObject {
    pub file: String,
    pub role: String,
    pub importance: String,
    /// In hundredths.
    pub confidence: u32,
    pub reason: String,
}

/// One risk found in a file.
#[derive(Debug, Clone, PartialEq, Eq)]
pub struct RiskFlagObject {
    pub file: String,
    pub risk_type: String,
    pub severity: String,
    /// In hundredths.
    pub confidence: u32,
    pub reason: String,
    pub safe_action: String,
}

/// How safely one file can be edited.
#[derive(Debug, Clone, PartialEq, Eq)]
pub struct EditZoneObject {
    pub file: String,
    pub zone: String,
    pub reason: String,
    pub risk_level: String,
}

/// Files as nodes, likely relationships as edges.
#[derive(Debug, Clone, PartialEq, Eq)]
pub struct StructureGraph {
    pub nodes: Vec<GraphNode>,
    pub edges: Vec<GraphEdge>,
}

/// One file of the structure graph.
#[derive(Debug, Clone, PartialEq, Eq)]
pub struct GraphNode {
    pub id: String,
    pub label: String,
    pub role: String,
    pub language: String,
}

/// One likely relationship between two files.
#[derive(Debug, Clone, PartialEq, Eq)]
pub struct GraphEdge {
    pub from: String,
    pub to: String,
    pub relationship: String,
    /// In hundredths.
    pub confidence: u32,
}

/// One entry of the plan of what to send to a language model.
#[derive(Debug, Clone, PartialEq, Eq)]
pub struct ContextPlanItem {
    pub rank: usize,
    pub file: String,
    pub priority: String,
    pub reason: String,
    pub estimated_tokens: usize,
}

/// Counts over the scanned files.
#[derive(Debug, Clone, PartialEq, Eq)]
pub struct SummaryStats {
    pub total_files: usize,
    pub analyzed_files: usize,
    pub ignored_files: usize,
    pub large_files: usize,
    pub risk_count: usize,
}

} // verus!
