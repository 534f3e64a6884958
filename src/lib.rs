//! Normalization of game-addon manifests into a closed, typed model.
pub mod identity;
pub mod manifest;
pub mod tables;
pub mod text;
pub mod utils;

pub use manifest::{
    normalize_manifest, Manifest, ManifestDependency, ManifestError, ManifestField,
    ManifestHeader, ManifestModule, ManifestSubpack, PreManifest, PreManifestDependency,
    PreManifestHeader, PreManifestModule, PreVer, ScriptManifestModule,
};
pub use tables::{ManifestCapability, ScriptManifestDependency};
pub use utils::{parse_semver_from_str, parse_semver_from_vec, SemVer, VersionError, VersionField};
