use addon_manifest::{
    normalize_manifest, ManifestCapability, ManifestDependency, ManifestError, ManifestField,
    ManifestModule, ManifestSubpack, PreManifest, PreManifestDependency, PreManifestHeader,
    PreManifestModule, PreVer, ScriptManifestDependency, ScriptManifestModule, SemVer,
    VersionError, VersionField,
};

const HEADER_UUID: &str = "5f6b4c2e-1a2b-4c3d-8e9f-0a1b2c3d4e5f";
const HEADER_VALUE: u128 = 0x5f6b4c2e_1a2b_4c3d_8e9f_0a1b2c3d4e5f;
const MODULE_UUID: &str = "0c1d2e3f-4a5b-4c6d-9e7f-8a9b0c1d2e3f";
const MODULE_VALUE: u128 = 0x0c1d2e3f_4a5b_4c6d_9e7f_8a9b0c1d2e3f;

fn v(major: i32, minor: i32, patch: i32, beta: bool) -> SemVer {
    SemVer { major, minor, patch, beta }
}

fn header() -> PreManifestHeader {
    PreManifestHeader {
        name: "Pack".to_string(),
        description: "A pack".to_string(),
        min_engine_version: PreVer::Triple(vec![1, 20, 0]),
        uuid: HEADER_UUID.to_string(),
        version: PreVer::Triple(vec![1, 0, 0]),
    }
}

fn module(kind: &str, uuid: &str, entry: Option<&str>) -> PreManifestModule {
    PreManifestModule {
        type_id: kind.to_string(),
        uuid: uuid.to_string(),
        version: vec![2, 3, 4],
        language: None,
        entry: entry.map(|e| e.to_string()),
        description: None,
    }
}

fn by_name(name: &str, version: Option<PreVer>) -> PreManifestDependency {
    PreManifestDependency { uuid: None, module_name: Some(name.to_string()), version }
}

fn document() -> PreManifest {
    PreManifest {
        format_version: 2,
        header: header(),
        modules: vec![],
        dependencies: vec![],
        capabilities: vec![],
        subpacks: vec![],
    }
}

#[test]
fn end_to_end_minimal_document() {
    let mut d = document();
    d.modules = vec![module("script", MODULE_UUID, Some("main.js"))];
    d.dependencies = vec![by_name(
        "@minecraft/server",
        Some(PreVer::Text("1.2.0-beta".to_string())),
    )];
    d.capabilities = vec!["raytraced".to_string(), "mystery".to_string()];
    let m = normalize_manifest(d).unwrap();
    assert_eq!(m.header.version, v(1, 0, 0, false));
    assert_eq!(m.header.min_engine_version, v(1, 20, 0, false));
    assert_eq!(m.header.uuid, HEADER_VALUE);
    assert_eq!(m.header.name, "Pack");
    assert_eq!(m.header.description, "A pack");
    assert_eq!(
        m.modules,
        vec![ManifestModule::Script(
            MODULE_VALUE,
            v(2, 3, 4, false),
            ScriptManifestModule { entry: "main.js".to_string() }
        )]
    );
    assert_eq!(
        m.dependencies,
        vec![ManifestDependency::ScriptDependency(
            ScriptManifestDependency::MinecraftServer,
            v(1, 2, 0, true)
        )]
    );
    assert_eq!(
        m.capabilities,
        vec![ManifestCapability::Raytraced, ManifestCapability::Custom("mystery".to_string())]
    );
}

#[test]
fn header_text_versions() {
    let mut d = document();
    d.header.version = PreVer::Text("2.1.7".to_string());
    d.header.min_engine_version = PreVer::Text("1.21.0-beta".to_string());
    let m = normalize_manifest(d).unwrap();
    assert_eq!(m.header.version, v(2, 1, 7, false));
    assert_eq!(m.header.min_engine_version, v(1, 21, 0, true));
}

#[test]
fn resources_and_data_both_become_data() {
    let mut d = document();
    d.modules = vec![module("resources", MODULE_UUID, None), module("data", MODULE_UUID, None)];
    let m = normalize_manifest(d).unwrap();
    let expected = ManifestModule::Data(MODULE_VALUE, v(2, 3, 4, false));
    assert_eq!(m.modules, vec![expected.clone(), expected]);
}

#[test]
fn unknown_module_type_dropped_in_order() {
    let mut d = document();
    d.modules = vec![
        module("data", MODULE_UUID, None),
        module("plugin", "not a uuid", None),
        module("script", HEADER_UUID, Some("index.js")),
    ];
    let m = normalize_manifest(d).unwrap();
    assert_eq!(
        m.modules,
        vec![
            ManifestModule::Data(MODULE_VALUE, v(2, 3, 4, false)),
            ManifestModule::Script(
                HEADER_VALUE,
                v(2, 3, 4, false),
                ScriptManifestModule { entry: "index.js".to_string() }
            ),
        ]
    );
}

#[test]
fn capability_lookup_with_fallback() {
    assert_eq!(ManifestCapability::from_name("raytraced"), ManifestCapability::Raytraced);
    assert_eq!(ManifestCapability::from_name("pbr"), ManifestCapability::PBR);
    assert_eq!(
        ManifestCapability::from_name("editorExtension"),
        ManifestCapability::EditorExtension
    );
    assert_eq!(
        ManifestCapability::from_name("custom_flag"),
        ManifestCapability::Custom("custom_flag".to_string())
    );
    assert_eq!(
        ManifestCapability::from_name("Raytraced"),
        ManifestCapability::Custom("Raytraced".to_string())
    );
}

#[test]
fn script_name_lookup_with_fallback() {
    assert_eq!(
        ScriptManifestDependency::from_name("@minecraft/server"),
        ScriptManifestDependency::MinecraftServer
    );
    assert_eq!(
        ScriptManifestDependency::from_name("@minecraft/server-ui"),
        ScriptManifestDependency::MinecraftServerUi
    );
    assert_eq!(
        ScriptManifestDependency::from_name("@minecraft/debug-utilities"),
        ScriptManifestDependency::MinecraftDebugUtilities
    );
    assert_eq!(
        ScriptManifestDependency::from_name("@acme/tools"),
        ScriptManifestDependency::Custom("@acme/tools".to_string())
    );
}

#[test]
fn dependency_by_unknown_name_is_custom() {
    let mut d = document();
    d.dependencies = vec![by_name("@acme/tools", Some(PreVer::Triple(vec![0, 1, 0])))];
    let m = normalize_manifest(d).unwrap();
    assert_eq!(
        m.dependencies,
        vec![ManifestDependency::ScriptDependency(
            ScriptManifestDependency::Custom("@acme/tools".to_string()),
            v(0, 1, 0, false)
        )]
    );
}

#[test]
fn dependency_by_uuid() {
    let mut d = document();
    d.dependencies = vec![PreManifestDependency {
        uuid: Some(MODULE_UUID.to_string()),
        module_name: None,
        version: Some(PreVer::Triple(vec![3, 2, 1])),
    }];
    let m = normalize_manifest(d).unwrap();
    assert_eq!(
        m.dependencies,
        vec![ManifestDependency::UuidDependency(MODULE_VALUE, v(3, 2, 1, false))]
    );
}

#[test]
fn dependency_name_takes_precedence() {
    let mut d = document();
    d.dependencies = vec![PreManifestDependency {
        uuid: Some("not a uuid".to_string()),
        module_name: Some("@minecraft/server-net".to_string()),
        version: Some(PreVer::Triple(vec![1, 0, 0])),
    }];
    let m = normalize_manifest(d).unwrap();
    assert_eq!(
        m.dependencies,
        vec![ManifestDependency::ScriptDependency(
            ScriptManifestDependency::MinecraftServerNet,
            v(1, 0, 0, false)
        )]
    );
}

#[test]
fn dependency_version_falls_back_to_default() {
    let mut d = document();
    d.dependencies = vec![
        by_name("@minecraft/server", None),
        by_name("@minecraft/server", Some(PreVer::Text("1.2".to_string()))),
        by_name("@minecraft/server", Some(PreVer::Triple(vec![5]))),
    ];
    let m = normalize_manifest(d).unwrap();
    let expected = ManifestDependency::ScriptDependency(
        ScriptManifestDependency::MinecraftServer,
        v(1, 0, 0, false),
    );
    assert_eq!(m.dependencies, vec![expected.clone(), expected.clone(), expected]);
}

#[test]
fn dependency_without_reference_fails() {
    let mut d = document();
    d.dependencies = vec![
        by_name("@minecraft/server", None),
        PreManifestDependency { uuid: None, module_name: None, version: None },
    ];
    assert_eq!(
        normalize_manifest(d),
        Err(ManifestError::MissingRequiredVariantField(ManifestField::DependencyReference(1)))
    );
}

#[test]
fn dependency_bad_uuid_fails() {
    let mut d = document();
    d.dependencies = vec![PreManifestDependency {
        uuid: Some("1234".to_string()),
        module_name: None,
        version: None,
    }];
    assert_eq!(
        normalize_manifest(d),
        Err(ManifestError::MalformedIdentifier(ManifestField::DependencyUuid(0)))
    );
}

#[test]
fn header_bad_uuid_fails() {
    let mut d = document();
    d.header.uuid = "zzzz".to_string();
    assert_eq!(
        normalize_manifest(d),
        Err(ManifestError::MalformedIdentifier(ManifestField::HeaderUuid))
    );
}

#[test]
fn header_bad_version_fails() {
    let mut d = document();
    d.header.version = PreVer::Text("1.2".to_string());
    assert_eq!(
        normalize_manifest(d),
        Err(ManifestError::MalformedVersion(
            ManifestField::HeaderVersion,
            VersionError::MissingComponents
        ))
    );
    let mut d = document();
    d.header.min_engine_version = PreVer::Text("1.a.0".to_string());
    assert_eq!(
        normalize_manifest(d),
        Err(ManifestError::MalformedVersion(
            ManifestField::HeaderMinEngineVersion,
            VersionError::InvalidComponent(VersionField::Minor)
        ))
    );
}

#[test]
fn module_errors() {
    let mut d = document();
    d.modules = vec![module("data", MODULE_UUID, None), module("script", MODULE_UUID, None)];
    assert_eq!(
        normalize_manifest(d),
        Err(ManifestError::MissingRequiredVariantField(ManifestField::ModuleEntry(1)))
    );
    let mut d = document();
    d.modules = vec![module("resources", "bad", None)];
    assert_eq!(
        normalize_manifest(d),
        Err(ManifestError::MalformedIdentifier(ManifestField::ModuleUuid(0)))
    );
    let mut d = document();
    let mut short = module("data", MODULE_UUID, None);
    short.version = vec![1, 0];
    d.modules = vec![short];
    assert_eq!(
        normalize_manifest(d),
        Err(ManifestError::MalformedVersion(
            ManifestField::ModuleVersion(0),
            VersionError::MissingComponents
        ))
    );
}

#[test]
fn lists_keep_order_and_duplicates() {
    let mut d = document();
    d.capabilities = vec![
        "pbr".to_string(),
        "chemistry".to_string(),
        "pbr".to_string(),
        "script_eval".to_string(),
        "experimental_custom_ui".to_string(),
    ];
    let packs = vec![
        ManifestSubpack { folder_name: "hi".to_string(), name: "High".to_string(), memory_tier: 2 },
        ManifestSubpack { folder_name: "lo".to_string(), name: "Low".to_string(), memory_tier: 0 },
        ManifestSubpack { folder_name: "hi".to_string(), name: "High".to_string(), memory_tier: 2 },
    ];
    d.subpacks = packs.clone();
    d.dependencies = vec![
        by_name("@minecraft/server-admin", None),
        by_name("@minecraft/server-gametest", None),
        by_name("@minecraft/server-admin", None),
    ];
    let m = normalize_manifest(d).unwrap();
    assert_eq!(
        m.capabilities,
        vec![
            ManifestCapability::PBR,
            ManifestCapability::Chemistry,
            ManifestCapability::PBR,
            ManifestCapability::ScriptEval,
            ManifestCapability::ExperimentalCustomUi,
        ]
    );
    assert_eq!(m.subpacks, packs);
    let names: Vec<ScriptManifestDependency> = m
        .dependencies
        .into_iter()
        .map(|d| match d {
            ManifestDependency::ScriptDependency(n, _) => n,
            ManifestDependency::UuidDependency(_, _) => panic!("unexpected dependency by uuid"),
        })
        .collect();
    assert_eq!(
        names,
        vec![
            ScriptManifestDependency::MinecraftServerAdmin,
            ScriptManifestDependency::MinecraftServerGametest,
            ScriptManifestDependency::MinecraftServerAdmin,
        ]
    );
}

#[test]
fn uuid_forms_accepted() {
    let mut d = document();
    d.header.uuid = "5F6B4C2E1A2B4C3D8E9F0A1B2C3D4E5F".to_string();
    let m = normalize_manifest(d).unwrap();
    assert_eq!(m.header.uuid, HEADER_VALUE);
}
