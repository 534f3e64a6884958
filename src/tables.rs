//! The fixed tables of known script API names and engine capabilities, each
//! with a catch-all for names outside the table.
use vstd::prelude::*;

use crate::text::same_text;

verus! {

/// A first-party script API that a package may depend on by name.
#[derive(Clone, Debug, Eq, PartialEq)]
pub enum ScriptManifestDependency {
    MinecraftServer,
    MinecraftServerUi,
    MinecraftServerNet,
    MinecraftServerGametest,
    MinecraftServerAdmin,
    MinecraftServerEditor,
    MinecraftDebugUtilities,
    Custom(String),
}

/// An engine capability that a package may request.
#[derive(Clone, Debug, Eq, PartialEq)]
pub enum ManifestCapability {
    Chemistry,
    EditorExtension,
    ExperimentalCustomUi,
    PBR,
    ScriptEval,
    Raytraced,
    Custom(String),
}

/// The table of known script API names (exact, case-sensitive match).
pub open spec fn known_script_name(s: Seq<char>) -> Option<ScriptManifestDependency> {
    if s == "@minecraft/server"@ {
        Some(ScriptManifestDependency::MinecraftServer)
    } else if s == "@minecraft/server-ui"@ {
        Some(ScriptManifestDependency::MinecraftServerUi)
    } else if s == "@minecraft/server-gametest"@ {
        Some(ScriptManifestDependency::MinecraftServerGametest)
    } else if s == "@minecraft/server-net"@ {
        Some(ScriptManifestDependency::MinecraftServerNet)
    } else if s == "@minecraft/server-admin"@ {
        Some(ScriptManifestDependency::MinecraftServerAdmin)
    } else if s == "@minecraft/server-editor"@ {
        Some(ScriptManifestDependency::MinecraftServerEditor)
    } else if s == "@minecraft/debug-utilities"@ {
        Some(ScriptManifestDependency::MinecraftDebugUtilities)
    } else {
        None
    }
}

/// `n` is what the name `s` resolves to: its table entry, or `Custom(s)` when
/// the table has none.
pub open spec fn resolves_script_name(s: Seq<char>, n: ScriptManifestDependency) -> bool {
    match known_script_name(s) {
        Some(k) => n == k,
        None => n is Custom && n->Custom_0@ == s,
    }
}

/// The table of known capabilities (exact, case-sensitive match).
pub open spec fn known_capability(s: Seq<char>) -> Option<ManifestCapability> {
    if s == "raytraced"@ {
        Some(ManifestCapability::Raytraced)
    } else if s == "chemistry"@ {
        Some(ManifestCapability::Chemistry)
    } else if s == "editorExtension"@ {
        Some(ManifestCapability::EditorExtension)
    } else if s == "experimental_custom_ui"@ {
        Some(ManifestCapability::ExperimentalCustomUi)
    } else if s == "pbr"@ {
        Some(ManifestCapability::PBR)
    } else if s == "script_eval"@ {
        Some(ManifestCapability::ScriptEval)
    } else {
        None
    }
}

/// `c` is what the name `s` resolves to: its table entry, or `Custom(s)` when
/// the table has none.
pub open spec fn resolves_capability(s: Seq<char>, c: ManifestCapability) -> bool {
    match known_capability(s) {
        Some(k) => c == k,
        None => c is Custom && c->Custom_0@ == s,
    }
}

impl ScriptManifestDependency {
    /// Resolves a script API name against the table of known names.
    pub fn from_name(name: &str) -> (r: ScriptManifestDependency)
        ensures
            resolves_script_name(name@, r),
    {
        if same_text(name, "@minecraft/server") {
            ScriptManifestDependency::MinecraftServer
        } else if same_text(name, "@minecraft/server-ui") {
            ScriptManifestDependency::MinecraftServerUi
        } else if same_text(name, "@minecraft/server-gametest") {
            ScriptManifestDependency::MinecraftServerGametest
        } else if same_text(name, "@minecraft/server-net") {
            ScriptManifestDependency::MinecraftServerNet
        } else if same_text(name, "@minecraft/server-admin") {
            ScriptManifestDependency::MinecraftServerAdmin
        } else if same_text(name, "@minecraft/server-editor") {
            ScriptManifestDependency::MinecraftServerEditor
        } else if same_text(name, "@minecraft/debug-utilities") {
            ScriptManifestDependency::MinecraftDebugUtilities
        } else {
            ScriptManifestDependency::Custom(name.to_owned())
        }
    }
}

impl ManifestCapability {
    /// Resolves a capability name against the table of known capabilities.
    pub fn from_name(name: &str) -> (r: ManifestCapability)
        ensures
            resolves_capability(name@, r),
    {
        if same_text(name, "raytraced") {
            ManifestCapability::Raytraced
        } else if same_text(name, "chemistry") {
            ManifestCapability::Chemistry
        } else if same_text(name, "editorExtension") {
            ManifestCapability::EditorExtension
        } else if same_text(name, "experimental_custom_ui") {
            ManifestCapability::ExperimentalCustomUi
        } else if same_text(name, "pbr") {
            ManifestCapability::PBR
        } else if same_text(name, "script_eval") {
            ManifestCapability::ScriptEval
        } else {
            ManifestCapability::Custom(name.to_owned())
        }
    }
}

} // verus!
