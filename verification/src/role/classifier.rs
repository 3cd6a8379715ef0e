//! Role of a file in the project, from its path and name.
//!
//! The checks run in a fixed order and the first that holds decides: tests,
//! configuration, documentation, entry points, core logic, interfaces,
//! connectors, data models, utilities, output.

use vstd::prelude::*;
use crate::map::schema::{FileNode, FileRole};
use crate::text::{
    after_last, after_last_exec, ascii_lowercase, begins, chars_of, contains_text, finishes,
    is_ascii_text, lemma_after_last_ascii, lemma_after_last_lower, lowercase, str_begins,
    str_contains, str_finishes, string_of,
};

verus! {

/// The lowercase name `b` and path `f` are those of a test file.
pub open spec fn test_like(b: Seq<char>, f: Seq<char>) -> bool {
    ||| contains_text(b, "test"@)
    ||| contains_text(b, "spec"@)
    ||| begins(b, "test_"@)
    ||| finishes(b, "_test.rs"@)
    ||| finishes(b, "_test.go"@)
    ||| contains_text(f, "/tests/"@)
    ||| contains_text(f, "/test/"@)
    ||| contains_text(f, "__tests__"@)
    ||| contains_text(f, "specs"@)
}

/// The lowercase name `b` and path `f` are those of a configuration file.
pub open spec fn config_like(b: Seq<char>, f: Seq<char>) -> bool {
    ||| contains_text(b, "config"@)
    ||| contains_text(b, "configuration"@)
    ||| contains_text(b, "settings"@)
    ||| contains_text(b, "options"@)
    ||| contains_text(b, "prefs"@)
    ||| contains_text(b, ".env"@)
    ||| contains_text(b, ".env.example"@)
    ||| contains_text(b, ".env.sample"@)
    ||| contains_text(b, "cargo.toml"@)
    ||| contains_text(b, "package.json"@)
    ||| contains_text(b, "pyproject.toml"@)
    ||| contains_text(b, "setup.py"@)
    ||| contains_text(b, "go.mod"@)
    ||| contains_text(b, "go.sum"@)
    ||| contains_text(b, "requirements.txt"@)
    ||| contains_text(b, "pipfile"@)
    ||| contains_text(b, "tsconfig.json"@)
    ||| contains_text(b, "jsconfig.json"@)
    ||| contains_text(b, "webpack.config"@)
    ||| contains_text(b, "vite.config"@)
    ||| contains_text(b, "rollup.config"@)
    ||| contains_text(b, "babel.config"@)
    ||| contains_text(b, ".gitignore"@)
    ||| contains_text(b, ".dockerignore"@)
    ||| contains_text(b, ".prettierignore"@)
    ||| contains_text(b, "dockerfile"@)
    ||| contains_text(b, "docker-compose"@)
    ||| contains_text(b, "makefile"@)
    ||| contains_text(b, "cmakelists.txt"@)
    ||| contains_text(b, ".eslintrc"@)
    ||| contains_text(b, ".stylelintrc"@)
    ||| contains_text(b, ".editorconfig"@)
    ||| finishes(b, ".toml"@)
    ||| finishes(b, ".yaml"@)
    ||| finishes(b, ".yml"@)
    ||| finishes(b, ".ini"@)
    ||| finishes(b, ".cfg"@)
    ||| finishes(b, ".conf"@)
    ||| contains_text(f, "/config/"@)
    ||| contains_text(f, "/configs/"@)
    ||| contains_text(f, "/configuration/"@)
    ||| contains_text(f, "/.github/"@)
}

/// The lowercase name `b` and path `f` are those of documentation.
pub open spec fn doc_like(b: Seq<char>, f: Seq<char>) -> bool {
    ||| finishes(b, ".md"@)
    ||| finishes(b, ".rst"@)
    ||| (finishes(b, ".txt"@) && (contains_text(b, "readme"@) || contains_text(b, "license"@) || contains_text(b, "changelog"@)))
    ||| contains_text(b, "readme"@)
    ||| contains_text(b, "license"@)
    ||| contains_text(b, "changelog"@)
    ||| contains_text(b, "contributing"@)
    ||| contains_text(b, "authors"@)
    ||| contains_text(b, "history"@)
    ||| contains_text(f, "/docs/"@)
    ||| contains_text(f, "/documentation/"@)
}

/// The lowercase name `b` and path `f` are those of an entry point.
pub open spec fn entry_like(b: Seq<char>, f: Seq<char>) -> bool {
    ||| begins(b, "main"@)
    ||| begins(b, "index"@)
    ||| begins(b, "app"@)
    ||| begins(b, "cli"@)
    ||| begins(b, "server"@)
    ||| begins(b, "start"@)
    ||| begins(b, "entrypoint"@)
    ||| begins(b, "bootstrap"@)
    ||| begins(b, "launcher"@)
    ||| begins(b, "runner"@)
    ||| ((contains_text(f, "/bin/"@) || contains_text(f, "/cmd/"@)) && !contains_text(b, "test"@))
}

/// The lowercase name `b` and path `f` are those of core logic.
pub open spec fn brain_like(b: Seq<char>, f: Seq<char>) -> bool {
    ||| contains_text(b, "engine"@)
    ||| contains_text(b, "core"@)
    ||| contains_text(b, "analyzer"@)
    ||| contains_text(b, "processor"@)
    ||| contains_text(b, "interpreter"@)
    ||| contains_text(b, "compiler"@)
    ||| contains_text(b, "executor"@)
    ||| contains_text(b, "scheduler"@)
    ||| contains_text(b, "orchestrator"@)
    ||| contains_text(b, "controller"@)
    ||| contains_text(b, "manager"@)
    ||| contains_text(b, "service"@)
    ||| contains_text(b, "handler"@)
    ||| contains_text(b, "logic"@)
    ||| contains_text(b, "business"@)
    ||| contains_text(b, "domain"@)
    ||| contains_text(b, "algorithm"@)
    ||| (contains_text(f, "/src/"@) && (contains_text(b, "lib"@) || contains_text(b, "mod"@)))
}

/// The lowercase name `b` and path `f` are those of an interface (API, routes, commands).
pub open spec fn interface_like(b: Seq<char>, f: Seq<char>) -> bool {
    ||| contains_text(b, "api"@)
    ||| contains_text(b, "route"@)
    ||| contains_text(b, "router"@)
    ||| contains_text(b, "endpoint"@)
    ||| contains_text(b, "controller"@)
    ||| contains_text(b, "command"@)
    ||| contains_text(b, "query"@)
    ||| contains_text(b, "request"@)
    ||| contains_text(b, "response"@)
    ||| contains_text(b, "graphql"@)
    ||| contains_text(b, "rest"@)
    ||| contains_text(b, "rpc"@)
    ||| contains_text(b, "grpc"@)
    ||| contains_text(b, "view"@)
    ||| contains_text(b, "template"@)
    ||| contains_text(b, "page"@)
    ||| contains_text(f, "/api/"@)
    ||| contains_text(f, "/routes/"@)
    ||| contains_text(f, "/handlers/"@)
    ||| contains_text(f, "/commands/"@)
    ||| contains_text(f, "/views/"@)
    ||| contains_text(f, "/templates/"@)
}

/// The lowercase name `b` and path `f` are those of a connector to an outside service.
pub open spec fn connector_like(b: Seq<char>, f: Seq<char>) -> bool {
    ||| contains_text(b, "client"@)
    ||| contains_text(b, "connector"@)
    ||| contains_text(b, "adapter"@)
    ||| contains_text(b, "integration"@)
    ||| contains_text(b, "database"@)
    ||| contains_text(b, "db"@)
    ||| contains_text(b, "repository"@)
    ||| contains_text(b, "dao"@)
    ||| contains_text(b, "cache"@)
    ||| contains_text(b, "queue"@)
    ||| contains_text(b, "broker"@)
    ||| contains_text(b, "publisher"@)
    ||| contains_text(b, "subscriber"@)
    ||| contains_text(b, "http"@)
    ||| contains_text(b, "grpc"@)
    ||| contains_text(b, "websocket"@)
    ||| contains_text(b, "socket"@)
    ||| contains_text(b, "aws"@)
    ||| contains_text(b, "gcp"@)
    ||| contains_text(b, "azure"@)
    ||| contains_text(b, "cloud"@)
    ||| contains_text(b, "stripe"@)
    ||| contains_text(b, "paypal"@)
    ||| contains_text(b, "sendgrid"@)
    ||| contains_text(b, "twilio"@)
    ||| contains_text(f, "/clients/"@)
    ||| contains_text(f, "/connectors/"@)
    ||| contains_text(f, "/integrations/"@)
    ||| contains_text(f, "/repositories/"@)
    ||| contains_text(f, "/infrastructure/"@)
}

/// The lowercase name `b` and path `f` are those of a data model.
pub open spec fn model_like(b: Seq<char>, f: Seq<char>) -> bool {
    ||| contains_text(b, "model"@)
    ||| contains_text(b, "schema"@)
    ||| contains_text(b, "entity"@)
    ||| contains_text(b, "struct"@)
    ||| contains_text(b, "type"@)
    ||| contains_text(b, "record"@)
    ||| contains_text(b, "document"@)
    ||| contains_text(b, "table"@)
    ||| contains_text(f, "/models/"@)
    ||| contains_text(f, "/schemas/"@)
    ||| contains_text(f, "/entities/"@)
    ||| contains_text(f, "/types/"@)
    ||| contains_text(f, "/migrations/"@)
}

/// The lowercase name `b` and path `f` are those of a utility.
pub open spec fn utility_like(b: Seq<char>, f: Seq<char>) -> bool {
    ||| contains_text(b, "util"@)
    ||| contains_text(b, "helper"@)
    ||| contains_text(b, "common"@)
    ||| contains_text(b, "shared"@)
    ||| contains_text(b, "base"@)
    ||| contains_text(b, "extension"@)
    ||| contains_text(b, "mixin"@)
    ||| contains_text(b, "trait"@)
    ||| contains_text(b, "abstract"@)
    ||| contains_text(b, "constant"@)
    ||| contains_text(b, "enum"@)
    ||| contains_text(b, "flag"@)
    ||| contains_text(f, "/utils/"@)
    ||| contains_text(f, "/helpers/"@)
    ||| contains_text(f, "/common/"@)
    ||| contains_text(f, "/shared/"@)
    ||| contains_text(f, "/libs/"@)
    ||| contains_text(f, "/internal/"@)
}

/// The lowercase name `b` and path `f` are those of output or rendering.
pub open spec fn output_like(b: Seq<char>, f: Seq<char>) -> bool {
    ||| contains_text(b, "render"@)
    ||| contains_text(b, "report"@)
    ||| contains_text(b, "export"@)
    ||| contains_text(b, "print"@)
    ||| contains_text(b, "format"@)
    ||| contains_text(b, "serializer"@)
    ||| contains_text(b, "deserializer"@)
    ||| contains_text(b, "parser"@)
    ||| contains_text(b, "generator"@)
    ||| contains_text(b, "builder"@)
    ||| contains_text(b, "factory"@)
    ||| contains_text(f, "/render/"@)
    ||| contains_text(f, "/reports/"@)
    ||| contains_text(f, "/exports/"@)
    ||| contains_text(f, "/output/"@)
}

/// The role of a file from its lowercase name `b` and lowercase path `f`:
/// the first check that holds decides.
pub open spec fn role_from(b: Seq<char>, f: Seq<char>) -> FileRole {
    if test_like(b, f) {
        FileRole::Test
    } else if config_like(b, f) {
        FileRole::Config
    } else if doc_like(b, f) {
        FileRole::Documentation
    } else if entry_like(b, f) {
        FileRole::Entry
    } else if brain_like(b, f) {
        FileRole::Brain
    } else if interface_like(b, f) {
        FileRole::Interface
    } else if connector_like(b, f) {
        FileRole::Connector
    } else if model_like(b, f) {
        FileRole::DataModel
    } else if utility_like(b, f) {
        FileRole::Utility
    } else if output_like(b, f) {
        FileRole::Output
    } else {
        FileRole::Unknown
    }
}

/// The role of the file at the relative path `rel`. The name is the text
/// after the last `/`; both are compared in lowercase.
pub open spec fn role_of(rel: Seq<char>) -> FileRole {
    role_from(lowercase(after_last(rel, '/')), lowercase(rel))
}

/// The role of a file whose lowercased relative path is `l`.
pub open spec fn role_of_lowered(l: Seq<char>) -> FileRole {
    role_from(after_last(l, '/'), l)
}

/// Classifies files by role.
pub struct RoleClassifier {}

impl RoleClassifier {
    /// A new classifier.
    pub fn new() -> (r: Self) {
        RoleClassifier {}
    }

    /// The role of `file`, from its relative path alone. For an ASCII path the
    /// role depends only on the lowercased path: two files whose paths lower
    /// to the same text get the same role.
    pub fn classify(&self, file: &FileNode) -> (r: FileRole)
        ensures
            r == role_of(file.relative_path@),
            is_ascii_text(file.relative_path@) ==> r == role_of_lowered(ascii_lowercase(file.relative_path@)),
    {
        proof {
            if is_ascii_text(file.relative_path@) {
                lemma_after_last_ascii(file.relative_path@);
                lemma_after_last_lower(file.relative_path@);
            }
        }
        let rel = file.relative_path.as_str();
        let filename = crate::text::to_lowercase_string(rel);
        let rc = chars_of(rel);
        let last = after_last_exec(rc.as_slice(), '/');
        let last_string = string_of(last.as_slice());
        let basename = crate::text::to_lowercase_string(last_string.as_str());
        let b = basename.as_str();
        let f = filename.as_str();
        if self.is_test_file(b, f) {
            return FileRole::Test;
        }
        if self.is_config_file(b, f) {
            return FileRole::Config;
        }
        if self.is_doc_file(b, f) {
            return FileRole::Documentation;
        }
        if self.is_entry_file(b, f) {
            return FileRole::Entry;
        }
        if self.is_brain_file(b, f) {
            return FileRole::Brain;
        }
        if self.is_interface_file(b, f) {
            return FileRole::Interface;
        }
        if self.is_connector_file(b, f) {
            return FileRole::Connector;
        }
        if self.is_data_model_file(b, f) {
            return FileRole::DataModel;
        }
        if self.is_utility_file(b, f) {
            return FileRole::Utility;
        }
        if self.is_output_file(b, f) {
            return FileRole::Output;
        }
        FileRole::Unknown
    }

    /// Whether the lowercase name and path are those of a test file.
    pub fn is_test_file(&self, basename: &str, filename: &str) -> (r: bool)
        ensures
            r == test_like(basename@, filename@),
    {
        let bc = chars_of(basename);
        let fc = chars_of(filename);
        str_contains(bc.as_slice(), "test") ||
            str_contains(bc.as_slice(), "spec") ||
            str_begins(bc.as_slice(), "test_") ||
            str_finishes(bc.as_slice(), "_test.rs") ||
            str_finishes(bc.as_slice(), "_test.go") ||
            str_contains(fc.as_slice(), "/tests/") ||
            str_contains(fc.as_slice(), "/test/") ||
            str_contains(fc.as_slice(), "__tests__") ||
            str_contains(fc.as_slice(), "specs")
    }

    /// Whether the lowercase name and path are those of a configuration file.
    pub fn is_config_file(&self, basename: &str, filename: &str) -> (r: bool)
        ensures
            r == config_like(basename@, filename@),
    {
        let bc = chars_of(basename);
        let fc = chars_of(filename);
        str_contains(bc.as_slice(), "config") ||
            str_contains(bc.as_slice(), "configuration") ||
            str_contains(bc.as_slice(), "settings") ||
            str_contains(bc.as_slice(), "options") ||
            str_contains(bc.as_slice(), "prefs") ||
            str_contains(bc.as_slice(), ".env") ||
            str_contains(bc.as_slice(), ".env.example") ||
            str_contains(bc.as_slice(), ".env.sample") ||
            str_contains(bc.as_slice(), "cargo.toml") ||
            str_contains(bc.as_slice(), "package.json") ||
            str_contains(bc.as_slice(), "pyproject.toml") ||
            str_contains(bc.as_slice(), "setup.py") ||
            str_contains(bc.as_slice(), "go.mod") ||
            str_contains(bc.as_slice(), "go.sum") ||
            str_contains(bc.as_slice(), "requirements.txt") ||
            str_contains(bc.as_slice(), "pipfile") ||
            str_contains(bc.as_slice(), "tsconfig.json") ||
            str_contains(bc.as_slice(), "jsconfig.json") ||
            str_contains(bc.as_slice(), "webpack.config") ||
            str_contains(bc.as_slice(), "vite.config") ||
            str_contains(bc.as_slice(), "rollup.config") ||
            str_contains(bc.as_slice(), "babel.config") ||
            str_contains(bc.as_slice(), ".gitignore") ||
            str_contains(bc.as_slice(), ".dockerignore") ||
            str_contains(bc.as_slice(), ".prettierignore") ||
            str_contains(bc.as_slice(), "dockerfile") ||
            str_contains(bc.as_slice(), "docker-compose") ||
            str_contains(bc.as_slice(), "makefile") ||
            str_contains(bc.as_slice(), "cmakelists.txt") ||
            str_contains(bc.as_slice(), ".eslintrc") ||
            str_contains(bc.as_slice(), ".stylelintrc") ||
            str_contains(bc.as_slice(), ".editorconfig") ||
            str_finishes(bc.as_slice(), ".toml") ||
            str_finishes(bc.as_slice(), ".yaml") ||
            str_finishes(bc.as_slice(), ".yml") ||
            str_finishes(bc.as_slice(), ".ini") ||
            str_finishes(bc.as_slice(), ".cfg") ||
            str_finishes(bc.as_slice(), ".conf") ||
            str_contains(fc.as_slice(), "/config/") ||
            str_contains(fc.as_slice(), "/configs/") ||
            str_contains(fc.as_slice(), "/configuration/") ||
            str_contains(fc.as_slice(), "/.github/")
    }

    /// Whether the lowercase name and path are those of documentation.
    pub fn is_doc_file(&self, basename: &str, filename: &str) -> (r: bool)
        ensures
            r == doc_like(basename@, filename@),
    {
        let bc = chars_of(basename);
        let fc = chars_of(filename);
        str_finishes(bc.as_slice(), ".md") ||
            str_finishes(bc.as_slice(), ".rst") ||
            (str_finishes(bc.as_slice(), ".txt") && (str_contains(bc.as_slice(), "readme") || str_contains(bc.as_slice(), "license") || str_contains(bc.as_slice(), "changelog"))) ||
            str_contains(bc.as_slice(), "readme") ||
            str_contains(bc.as_slice(), "license") ||
            str_contains(bc.as_slice(), "changelog") ||
            str_contains(bc.as_slice(), "contributing") ||
            str_contains(bc.as_slice(), "authors") ||
            str_contains(bc.as_slice(), "history") ||
            str_contains(fc.as_slice(), "/docs/") ||
            str_contains(fc.as_slice(), "/documentation/")
    }

    /// Whether the lowercase name and path are those of an entry point.
    pub fn is_entry_file(&self, basename: &str, filename: &str) -> (r: bool)
        ensures
            r == entry_like(basename@, filename@),
    {
        let bc = chars_of(basename);
        let fc = chars_of(filename);
        str_begins(bc.as_slice(), "main") ||
            str_begins(bc.as_slice(), "index") ||
            str_begins(bc.as_slice(), "app") ||
            str_begins(bc.as_slice(), "cli") ||
            str_begins(bc.as_slice(), "server") ||
            str_begins(bc.as_slice(), "start") ||
            str_begins(bc.as_slice(), "entrypoint") ||
            str_begins(bc.as_slice(), "bootstrap") ||
            str_begins(bc.as_slice(), "launcher") ||
            str_begins(bc.as_slice(), "runner") ||
            ((str_contains(fc.as_slice(), "/bin/") || str_contains(fc.as_slice(), "/cmd/")) && !str_contains(bc.as_slice(), "test"))
    }

    /// Whether the lowercase name and path are those of core logic.
    pub fn is_brain_file(&self, basename: &str, filename: &str) -> (r: bool)
        ensures
            r == brain_like(basename@, filename@),
    {
        let bc = chars_of(basename);
        let fc = chars_of(filename);
        str_contains(bc.as_slice(), "engine") ||
            str_contains(bc.as_slice(), "core") ||
            str_contains(bc.as_slice(), "analyzer") ||
            str_contains(bc.as_slice(), "processor") ||
            str_contains(bc.as_slice(), "interpreter") ||
            str_contains(bc.as_slice(), "compiler") ||
            str_contains(bc.as_slice(), "executor") ||
            str_contains(bc.as_slice(), "scheduler") ||
            str_contains(bc.as_slice(), "orchestrator") ||
            str_contains(bc.as_slice(), "controller") ||
            str_contains(bc.as_slice(), "manager") ||
            str_contains(bc.as_slice(), "service") ||
            str_contains(bc.as_slice(), "handler") ||
            str_contains(bc.as_slice(), "logic") ||
            str_contains(bc.as_slice(), "business") ||
            str_contains(bc.as_slice(), "domain") ||
            str_contains(bc.as_slice(), "algorithm") ||
            (str_contains(fc.as_slice(), "/src/") && (str_contains(bc.as_slice(), "lib") || str_contains(bc.as_slice(), "mod")))
    }

    /// Whether the lowercase name and path are those of an interface (API, routes, commands).
    pub fn is_interface_file(&self, basename: &str, filename: &str) -> (r: bool)
        ensures
            r == interface_like(basename@, filename@),
    {
        let bc = chars_of(basename);
        let fc = chars_of(filename);
        str_contains(bc.as_slice(), "api") ||
            str_contains(bc.as_slice(), "route") ||
            str_contains(bc.as_slice(), "router") ||
            str_contains(bc.as_slice(), "endpoint") ||
            str_contains(bc.as_slice(), "controller") ||
            str_contains(bc.as_slice(), "command") ||
            str_contains(bc.as_slice(), "query") ||
            str_contains(bc.as_slice(), "request") ||
            str_contains(bc.as_slice(), "response") ||
            str_contains(bc.as_slice(), "graphql") ||
            str_contains(bc.as_slice(), "rest") ||
            str_contains(bc.as_slice(), "rpc") ||
            str_contains(bc.as_slice(), "grpc") ||
            str_contains(bc.as_slice(), "view") ||
            str_contains(bc.as_slice(), "template") ||
            str_contains(bc.as_slice(), "page") ||
            str_contains(fc.as_slice(), "/api/") ||
            str_contains(fc.as_slice(), "/routes/") ||
            str_contains(fc.as_slice(), "/handlers/") ||
            str_contains(fc.as_slice(), "/commands/") ||
            str_contains(fc.as_slice(), "/views/") ||
            str_contains(fc.as_slice(), "/templates/")
    }

    /// Whether the lowercase name and path are those of a connector to an outside service.
    pub fn is_connector_file(&self, basename: &str, filename: &str) -> (r: bool)
        ensures
            r == connector_like(basename@, filename@),
    {
        let bc = chars_of(basename);
        let fc = chars_of(filename);
        str_contains(bc.as_slice(), "client") ||
            str_contains(bc.as_slice(), "connector") ||
            str_contains(bc.as_slice(), "adapter") ||
            str_contains(bc.as_slice(), "integration") ||
            str_contains(bc.as_slice(), "database") ||
            str_contains(bc.as_slice(), "db") ||
            str_contains(bc.as_slice(), "repository") ||
            str_contains(bc.as_slice(), "dao") ||
            str_contains(bc.as_slice(), "cache") ||
            str_contains(bc.as_slice(), "queue") ||
            str_contains(bc.as_slice(), "broker") ||
            str_contains(bc.as_slice(), "publisher") ||
            str_contains(bc.as_slice(), "subscriber") ||
            str_contains(bc.as_slice(), "http") ||
            str_contains(bc.as_slice(), "grpc") ||
            str_contains(bc.as_slice(), "websocket") ||
            str_contains(bc.as_slice(), "socket") ||
            str_contains(bc.as_slice(), "aws") ||
            str_contains(bc.as_slice(), "gcp") ||
            str_contains(bc.as_slice(), "azure") ||
            str_contains(bc.as_slice(), "cloud") ||
            str_contains(bc.as_slice(), "stripe") ||
            str_contains(bc.as_slice(), "paypal") ||
            str_contains(bc.as_slice(), "sendgrid") ||
            str_contains(bc.as_slice(), "twilio") ||
            str_contains(fc.as_slice(), "/clients/") ||
            str_contains(fc.as_slice(), "/connectors/") ||
            str_contains(fc.as_slice(), "/integrations/") ||
            str_contains(fc.as_slice(), "/repositories/") ||
            str_contains(fc.as_slice(), "/infrastructure/")
    }

    /// Whether the lowercase name and path are those of a data model.
    pub fn is_data_model_file(&self, basename: &str, filename: &str) -> (r: bool)
        ensures
            r == model_like(basename@, filename@),
    {
        let bc = chars_of(basename);
        let fc = chars_of(filename);
        str_contains(bc.as_slice(), "model") ||
            str_contains(bc.as_slice(), "schema") ||
            str_contains(bc.as_slice(), "entity") ||
            str_contains(bc.as_slice(), "struct") ||
            str_contains(bc.as_slice(), "type") ||
            str_contains(bc.as_slice(), "record") ||
            str_contains(bc.as_slice(), "document") ||
            str_contains(bc.as_slice(), "table") ||
            str_contains(fc.as_slice(), "/models/") ||
            str_contains(fc.as_slice(), "/schemas/") ||
            str_contains(fc.as_slice(), "/entities/") ||
            str_contains(fc.as_slice(), "/types/") ||
            str_contains(fc.as_slice(), "/migrations/")
    }

    /// Whether the lowercase name and path are those of a utility.
    pub fn is_utility_file(&self, basename: &str, filename: &str) -> (r: bool)
        ensures
            r == utility_like(basename@, filename@),
    {
        let bc = chars_of(basename);
        let fc = chars_of(filename);
        str_contains(bc.as_slice(), "util") ||
            str_contains(bc.as_slice(), "helper") ||
            str_contains(bc.as_slice(), "common") ||
            str_contains(bc.as_slice(), "shared") ||
            str_contains(bc.as_slice(), "base") ||
            str_contains(bc.as_slice(), "extension") ||
            str_contains(bc.as_slice(), "mixin") ||
            str_contains(bc.as_slice(), "trait") ||
            str_contains(bc.as_slice(), "abstract") ||
            str_contains(bc.as_slice(), "constant") ||
            str_contains(bc.as_slice(), "enum") ||
            str_contains(bc.as_slice(), "flag") ||
            str_contains(fc.as_slice(), "/utils/") ||
            str_contains(fc.as_slice(), "/helpers/") ||
            str_contains(fc.as_slice(), "/common/") ||
            str_contains(fc.as_slice(), "/shared/") ||
            str_contains(fc.as_slice(), "/libs/") ||
            str_contains(fc.as_slice(), "/internal/")
    }

    /// Whether the lowercase name and path are those of output or rendering.
    pub fn is_output_file(&self, basename: &str, filename: &str) -> (r: bool)
        ensures
            r == output_like(basename@, filename@),
    {
        let bc = chars_of(basename);
        let fc = chars_of(filename);
        str_contains(bc.as_slice(), "render") ||
            str_contains(bc.as_slice(), "report") ||
            str_contains(bc.as_slice(), "export") ||
            str_contains(bc.as_slice(), "print") ||
            str_contains(bc.as_slice(), "format") ||
            str_contains(bc.as_slice(), "serializer") ||
            str_contains(bc.as_slice(), "deserializer") ||
            str_contains(bc.as_slice(), "parser") ||
            str_contains(bc.as_slice(), "generator") ||
            str_contains(bc.as_slice(), "builder") ||
            str_contains(bc.as_slice(), "factory") ||
            str_contains(fc.as_slice(), "/render/") ||
            str_contains(fc.as_slice(), "/reports/") ||
            str_contains(fc.as_slice(), "/exports/") ||
            str_contains(fc.as_slice(), "/output/")
    }
}


impl Default for RoleClassifier {
    fn default() -> (r: Self)
        ensures
            r == (RoleClassifier {}),
    {
        RoleClassifier {}
    }
}

} // verus!
