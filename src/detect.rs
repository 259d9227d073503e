//! The kind of project in a directory, from the files it holds.
use vstd::prelude::*;

use crate::text::{lower_of, lowercase, str_eq};

verus! {

#[derive(Debug, Clone, Copy, PartialEq, Eq, Structural)]
pub enum ProjectType {
    Rust,
    Bun,
    Pnpm,
    NextJs,
    NodeJs,
    ReactNative,
    Xcode,
    Go,
    Python,
    Generic,
}

/// What a directory holds, as far as detection looks.
#[derive(Debug, Clone, Copy, Default)]
pub struct ProjectFiles {
    pub cargo_toml: bool,
    pub go_mod: bool,
    /// Some `*.xcodeproj` or `*.xcworkspace`.
    pub xcode_project: bool,
    pub pyproject_toml: bool,
    pub setup_py: bool,
    pub package_json: bool,
    /// Some `next.config.*`.
    pub next_config: bool,
    pub app_json: bool,
    /// `package.json` lists `react-native` among its dependencies or dev-dependencies.
    pub react_native_dep: bool,
    pub bun_lockb: bool,
    pub pnpm_lock: bool,
    pub package_lock: bool,
}

/// The project type, more specific kinds first; `None` where nothing is recognised.
pub open spec fn detected(f: ProjectFiles) -> Option<ProjectType> {
    if f.cargo_toml {
        Some(ProjectType::Rust)
    } else if f.go_mod {
        Some(ProjectType::Go)
    } else if f.xcode_project {
        Some(ProjectType::Xcode)
    } else if f.pyproject_toml || f.setup_py {
        Some(ProjectType::Python)
    } else if f.package_json {
        if f.next_config {
            Some(ProjectType::NextJs)
        } else if f.app_json && f.react_native_dep {
            Some(ProjectType::ReactNative)
        } else if f.bun_lockb {
            Some(ProjectType::Bun)
        } else if f.pnpm_lock {
            Some(ProjectType::Pnpm)
        } else {
            Some(ProjectType::NodeJs)
        }
    } else {
        None
    }
}

pub fn detect_project_type(files: &ProjectFiles) -> (r: Option<ProjectType>)
    ensures
        r == detected(*files),
{
    if files.cargo_toml {
        return Some(ProjectType::Rust);
    }
    if files.go_mod {
        return Some(ProjectType::Go);
    }
    if files.xcode_project {
        return Some(ProjectType::Xcode);
    }
    if files.pyproject_toml || files.setup_py {
        return Some(ProjectType::Python);
    }
    if files.package_json {
        if files.next_config {
            return Some(ProjectType::NextJs);
        }
        if files.app_json && files.react_native_dep {
            return Some(ProjectType::ReactNative);
        }
        if files.bun_lockb {
            return Some(ProjectType::Bun);
        }
        if files.pnpm_lock {
            return Some(ProjectType::Pnpm);
        }
        return Some(ProjectType::NodeJs);
    }
    None
}

pub open spec fn project_name(t: ProjectType) -> Seq<char> {
    match t {
        ProjectType::Rust => "Rust"@,
        ProjectType::Bun => "Bun"@,
        ProjectType::Pnpm => "Node.js (pnpm)"@,
        ProjectType::NextJs => "Next.js"@,
        ProjectType::NodeJs => "Node.js (npm)"@,
        ProjectType::ReactNative => "React Native"@,
        ProjectType::Xcode => "Xcode (iOS/macOS)"@,
        ProjectType::Go => "Go"@,
        ProjectType::Python => "Python"@,
        ProjectType::Generic => "Generic"@,
    }
}

/// The project type of a lowercase name or alias.
pub open spec fn project_named(s: Seq<char>) -> Option<ProjectType> {
    if s == "rust"@ {
        Some(ProjectType::Rust)
    } else if s == "bun"@ {
        Some(ProjectType::Bun)
    } else if s == "pnpm"@ {
        Some(ProjectType::Pnpm)
    } else if s == "nextjs"@ || s == "next"@ || s == "next.js"@ {
        Some(ProjectType::NextJs)
    } else if s == "nodejs"@ || s == "node"@ || s == "npm"@ {
        Some(ProjectType::NodeJs)
    } else if s == "react-native"@ || s == "reactnative"@ || s == "rn"@ {
        Some(ProjectType::ReactNative)
    } else if s == "xcode"@ || s == "ios"@ || s == "macos"@ || s == "swift"@ {
        Some(ProjectType::Xcode)
    } else if s == "go"@ || s == "golang"@ {
        Some(ProjectType::Go)
    } else if s == "python"@ || s == "py"@ {
        Some(ProjectType::Python)
    } else if s == "generic"@ {
        Some(ProjectType::Generic)
    } else {
        None
    }
}

impl ProjectType {
    pub fn name(&self) -> (r: &'static str)
        ensures
            r@ == project_name(*self),
    {
        match self {
            ProjectType::Rust => "Rust",
            ProjectType::Bun => "Bun",
            ProjectType::Pnpm => "Node.js (pnpm)",
            ProjectType::NextJs => "Next.js",
            ProjectType::NodeJs => "Node.js (npm)",
            ProjectType::ReactNative => "React Native",
            ProjectType::Xcode => "Xcode (iOS/macOS)",
            ProjectType::Go => "Go",
            ProjectType::Python => "Python",
            ProjectType::Generic => "Generic",
        }
    }

    /// Every project type, in the order a prompt offers them.
    pub fn all() -> (r: Vec<ProjectType>)
        ensures
            r@ == seq![
                ProjectType::Rust,
                ProjectType::Bun,
                ProjectType::Pnpm,
                ProjectType::NextJs,
                ProjectType::NodeJs,
                ProjectType::ReactNative,
                ProjectType::Xcode,
                ProjectType::Go,
                ProjectType::Python,
                ProjectType::Generic,
            ],
    {
        let r = vec![
            ProjectType::Rust,
            ProjectType::Bun,
            ProjectType::Pnpm,
            ProjectType::NextJs,
            ProjectType::NodeJs,
            ProjectType::ReactNative,
            ProjectType::Xcode,
            ProjectType::Go,
            ProjectType::Python,
            ProjectType::Generic,
        ];
        assert(r@ =~= seq![
            ProjectType::Rust,
            ProjectType::Bun,
            ProjectType::Pnpm,
            ProjectType::NextJs,
            ProjectType::NodeJs,
            ProjectType::ReactNative,
            ProjectType::Xcode,
            ProjectType::Go,
            ProjectType::Python,
            ProjectType::Generic,
        ]);
        r
    }

    /// The project type of a name or alias given in any case.
    pub fn from_str(s: &str) -> (r: Option<ProjectType>)
        ensures
            r == project_named(lower_of(s@)),
    {
        let lower = lowercase(s);
        ProjectType::from_lowercase(lower.as_str())
    }

    /// The project type of a lowercase name or alias.
    pub fn from_lowercase(s: &str) -> (r: Option<ProjectType>)
        ensures
            r == project_named(s@),
    {
        if str_eq(s, "rust") {
            Some(ProjectType::Rust)
        } else if str_eq(s, "bun") {
            Some(ProjectType::Bun)
        } else if str_eq(s, "pnpm") {
            Some(ProjectType::Pnpm)
        } else if str_eq(s, "nextjs") || str_eq(s, "next") || str_eq(s, "next.js") {
            Some(ProjectType::NextJs)
        } else if str_eq(s, "nodejs") || str_eq(s, "node") || str_eq(s, "npm") {
            Some(ProjectType::NodeJs)
        } else if str_eq(s, "react-native") || str_eq(s, "reactnative") || str_eq(s, "rn") {
            Some(ProjectType::ReactNative)
        } else if str_eq(s, "xcode") || str_eq(s, "ios") || str_eq(s, "macos") || str_eq(s, "swift") {
            Some(ProjectType::Xcode)
        } else if str_eq(s, "go") || str_eq(s, "golang") {
            Some(ProjectType::Go)
        } else if str_eq(s, "python") || str_eq(s, "py") {
            Some(ProjectType::Python)
        } else if str_eq(s, "generic") {
            Some(ProjectType::Generic)
        } else {
            None
        }
    }
}

} // verus!
