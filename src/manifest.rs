//! The manifest: its raw, loosely-typed form as decoded from a document, its
//! normalized form, and the normalization from one to the other.
use vstd::prelude::*;

use crate::identity::{parse_uuid, uuid_of_text};
use crate::tables::{
    resolves_capability, resolves_script_name, ManifestCapability, ScriptManifestDependency,
};
use crate::text::same_text;
use crate::utils::{
    parse_semver_from_str, parse_semver_from_vec, version_of_text, version_of_triple, SemVer,
    VersionError,
};

verus! {

/// A version field as written in a document: an integer triple or dotted text.
#[derive(Clone, Debug, PartialEq, Eq)]
pub enum PreVer {
    Triple(Vec<i32>),
    Text(String),
}

/// The header block of a document, as written.
#[derive(Clone, Debug, PartialEq, Eq)]
pub struct PreManifestHeader {
    pub name: String,
    pub description: String,
    pub min_engine_version: PreVer,
    pub uuid: String,
    pub version: PreVer,
}

/// A module record of a document, as written.
#[derive(Clone, Debug, PartialEq, Eq)]
pub struct PreManifestModule {
    pub type_id: String,
    pub uuid: String,
    pub version: Vec<i32>,
    pub language: Option<String>,
    pub entry: Option<String>,
    pub description: Option<String>,
}

/// A dependency record of a document, as written. `version` is `None` when
/// the record holds no version in either recognized form.
#[derive(Clone, Debug, PartialEq, Eq)]
pub struct PreManifestDependency {
    pub uuid: Option<String>,
    pub module_name: Option<String>,
    pub version: Option<PreVer>,
}

/// A subpack record; it is passed through normalization unchanged.
#[derive(Clone, Debug, PartialEq, Eq)]
pub struct ManifestSubpack {
    pub folder_name: String,
    pub name: String,
    pub memory_tier: i32,
}

/// A whole document, as written.
#[derive(Clone, Debug, PartialEq, Eq)]
pub struct PreManifest {
    pub format_version: i32,
    pub header: PreManifestHeader,
    pub modules: Vec<PreManifestModule>,
    pub dependencies: Vec<PreManifestDependency>,
    pub capabilities: Vec<String>,
    pub subpacks: Vec<ManifestSubpack>,
}

/// The normalized manifest.
#[derive(Clone, Debug, PartialEq, Eq)]
pub struct Manifest {
    pub header: ManifestHeader,
    pub modules: Vec<ManifestModule>,
    pub dependencies: Vec<ManifestDependency>,
    pub subpacks: Vec<ManifestSubpack>,
    pub capabilities: Vec<ManifestCapability>,
}

/// The normalized header; `uuid` is the 128-bit value of the package's UUID.
#[derive(Clone, Debug, PartialEq, Eq)]
pub struct ManifestHeader {
    pub uuid: u128,
    pub name: String,
    pub description: String,
    pub min_engine_version: SemVer,
    pub version: SemVer,
}

/// A normalized module: its UUID value, its version, and for a script module
/// its entry point.
#[derive(Clone, Debug, PartialEq, Eq)]
pub enum ManifestModule {
    Data(u128, SemVer),
    Resources(u128, SemVer),
    Script(u128, SemVer, ScriptManifestModule),
}

/// What a script module adds to the others.
#[derive(Clone, Debug, PartialEq, Eq)]
pub struct ScriptManifestModule {
    pub entry: String,
}

/// A normalized dependency, on a named script API or on a package by UUID.
#[derive(Clone, Debug, PartialEq, Eq)]
pub enum ManifestDependency {
    ScriptDependency(ScriptManifestDependency, SemVer),
    UuidDependency(u128, SemVer),
}

/// The field of a document that an error is about; an index counts the
/// records of its list as written, from zero.
#[derive(Clone, Copy, Debug, PartialEq, Eq, Structural)]
pub enum ManifestField {
    HeaderUuid,
    HeaderMinEngineVersion,
    HeaderVersion,
    ModuleUuid(usize),
    ModuleVersion(usize),
    ModuleEntry(usize),
    DependencyReference(usize),
    DependencyUuid(usize),
}

/// Why a document could not be normalized.
#[derive(Clone, Debug, PartialEq, Eq)]
pub enum ManifestError {
    /// The text is not a document of the expected shape.
    StructuralDecode(String),
    /// A UUID field does not hold a UUID.
    MalformedIdentifier(ManifestField),
    /// A version field does not hold a version.
    MalformedVersion(ManifestField, VersionError),
    /// A script module without an entry, or a dependency with neither a
    /// module name nor a UUID.
    MissingRequiredVariantField(ManifestField),
}

/// The version substituted for a dependency version that cannot be read.
pub open spec fn default_version() -> SemVer {
    SemVer { major: 1, minor: 0, patch: 0, beta: false }
}

/// The version a written version field stands for, by whichever form it has.
pub open spec fn version_of_pre(v: PreVer) -> Result<SemVer, VersionError> {
    match v {
        PreVer::Triple(t) => version_of_triple(t@),
        PreVer::Text(s) => version_of_text(s@),
    }
}

/// A dependency's version: the one written, or the default version where
/// none can be read.
pub open spec fn lenient_version(v: Option<PreVer>) -> SemVer {
    match v {
        Some(p) => match version_of_pre(p) {
            Ok(x) => x,
            Err(_) => default_version(),
        },
        None => default_version(),
    }
}

/// The error that the header `h` gives, where `u` is the value read from its
/// UUID field.
pub open spec fn header_error_given(h: PreManifestHeader, u: Option<u128>) -> Option<
    ManifestError,
> {
    if u is None {
        Some(ManifestError::MalformedIdentifier(ManifestField::HeaderUuid))
    } else if version_of_pre(h.min_engine_version) is Err {
        Some(
            ManifestError::MalformedVersion(
                ManifestField::HeaderMinEngineVersion,
                version_of_pre(h.min_engine_version)->Err_0,
            ),
        )
    } else if version_of_pre(h.version) is Err {
        Some(
            ManifestError::MalformedVersion(
                ManifestField::HeaderVersion,
                version_of_pre(h.version)->Err_0,
            ),
        )
    } else {
        None
    }
}

pub open spec fn header_error(h: PreManifestHeader) -> Option<ManifestError> {
    header_error_given(h, uuid_of_text(h.uuid@))
}

/// `n` is the normalized form of the header `h`, where `u` is the value read
/// from its UUID field.
pub open spec fn header_given(h: PreManifestHeader, u: Option<u128>, n: ManifestHeader) -> bool {
    &&& u == Some(n.uuid)
    &&& n.name@ == h.name@
    &&& n.description@ == h.description@
    &&& version_of_pre(h.min_engine_version) == Ok::<SemVer, VersionError>(n.min_engine_version)
    &&& version_of_pre(h.version) == Ok::<SemVer, VersionError>(n.version)
}

/// `n` is the normalized form of the header `h`.
pub open spec fn header_normalized(h: PreManifestHeader, n: ManifestHeader) -> bool {
    header_given(h, uuid_of_text(h.uuid@), n)
}

pub open spec fn is_script_type(t: Seq<char>) -> bool {
    t == "script"@
}

pub open spec fn is_data_type(t: Seq<char>) -> bool {
    t == "data"@ || t == "resources"@
}

/// A module record of a known type; the others are dropped.
pub open spec fn module_kept(m: PreManifestModule) -> bool {
    is_script_type(m.type_id@) || is_data_type(m.type_id@)
}

/// The error that the module record `m`, at position `i`, gives, if any,
/// where `u` is the value read from its UUID field.
pub open spec fn module_error_given(m: PreManifestModule, i: usize, u: Option<u128>) -> Option<
    ManifestError,
> {
    if !module_kept(m) {
        None
    } else if u is None {
        Some(ManifestError::MalformedIdentifier(ManifestField::ModuleUuid(i)))
    } else if version_of_triple(m.version@) is Err {
        Some(
            ManifestError::MalformedVersion(
                ManifestField::ModuleVersion(i),
                version_of_triple(m.version@)->Err_0,
            ),
        )
    } else if is_script_type(m.type_id@) && m.entry is None {
        Some(ManifestError::MissingRequiredVariantField(ManifestField::ModuleEntry(i)))
    } else {
        None
    }
}

/// The error that the module record `m`, at position `i`, gives, if any.
pub open spec fn module_error(m: PreManifestModule, i: usize) -> Option<ManifestError> {
    module_error_given(m, i, uuid_of_text(m.uuid@))
}

/// `n` is the normalized form of the module record `m`, where `u` is the
/// value read from its UUID field.
pub open spec fn module_given(m: PreManifestModule, u: Option<u128>, n: ManifestModule) -> bool {
    match n {
        ManifestModule::Script(id, v, s) => {
            &&& is_script_type(m.type_id@)
            &&& u == Some(id)
            &&& version_of_triple(m.version@) == Ok::<SemVer, VersionError>(v)
            &&& m.entry is Some
            &&& s.entry@ == m.entry->Some_0@
        },
        ManifestModule::Data(id, v) => {
            &&& is_data_type(m.type_id@)
            &&& u == Some(id)
            &&& version_of_triple(m.version@) == Ok::<SemVer, VersionError>(v)
        },
        ManifestModule::Resources(_, _) => false,
    }
}

/// `n` is the normalized form of the module record `m`.
pub open spec fn module_normalized(m: PreManifestModule, n: ManifestModule) -> bool {
    module_given(m, uuid_of_text(m.uuid@), n)
}

/// The module records of known type, in their order.
pub open spec fn kept_modules(ms: Seq<PreManifestModule>) -> Seq<PreManifestModule>
    decreases ms.len(),
{
    if ms.len() == 0 {
        Seq::empty()
    } else if module_kept(ms.last()) {
        kept_modules(ms.drop_last()).push(ms.last())
    } else {
        kept_modules(ms.drop_last())
    }
}

/// The error of the first module record that gives one.
pub open spec fn modules_error(ms: Seq<PreManifestModule>) -> Option<ManifestError>
    decreases ms.len(),
{
    if ms.len() == 0 {
        None
    } else if modules_error(ms.drop_last()) is Some {
        modules_error(ms.drop_last())
    } else {
        module_error(ms.last(), (ms.len() - 1) as usize)
    }
}

/// The value read from the UUID field of the dependency record `d`, where it
/// has one.
pub open spec fn dependency_uuid(d: PreManifestDependency) -> Option<u128> {
    match d.uuid {
        Some(s) => uuid_of_text(s@),
        None => None,
    }
}

/// The error that the dependency record `d`, at position `i`, gives, if any,
/// where `u` is the value read from its UUID field.
pub open spec fn dependency_error_given(
    d: PreManifestDependency,
    i: usize,
    u: Option<u128>,
) -> Option<ManifestError> {
    if d.module_name is Some {
        None
    } else if d.uuid is None {
        Some(ManifestError::MissingRequiredVariantField(ManifestField::DependencyReference(i)))
    } else if u is None {
        Some(ManifestError::MalformedIdentifier(ManifestField::DependencyUuid(i)))
    } else {
        None
    }
}

/// The error that the dependency record `d`, at position `i`, gives, if any.
pub open spec fn dependency_error(d: PreManifestDependency, i: usize) -> Option<ManifestError> {
    dependency_error_given(d, i, dependency_uuid(d))
}

/// `n` is the normalized form of the dependency record `d`: by name where it
/// has a module name, else by UUID, where `u` is the value read from its UUID
/// field.
pub open spec fn dependency_given(
    d: PreManifestDependency,
    u: Option<u128>,
    n: ManifestDependency,
) -> bool {
    match n {
        ManifestDependency::ScriptDependency(name, v) => {
            &&& d.module_name is Some
            &&& resolves_script_name(d.module_name->Some_0@, name)
            &&& v == lenient_version(d.version)
        },
        ManifestDependency::UuidDependency(id, v) => {
            &&& d.module_name is None
            &&& d.uuid is Some
            &&& u == Some(id)
            &&& v == lenient_version(d.version)
        },
    }
}

/// `n` is the normalized form of the dependency record `d`.
pub open spec fn dependency_normalized(d: PreManifestDependency, n: ManifestDependency) -> bool {
    dependency_given(d, dependency_uuid(d), n)
}

/// The error of the first dependency record that gives one.
pub open spec fn dependencies_error(ds: Seq<PreManifestDependency>) -> Option<ManifestError>
    decreases ds.len(),
{
    if ds.len() == 0 {
        None
    } else if dependencies_error(ds.drop_last()) is Some {
        dependencies_error(ds.drop_last())
    } else {
        dependency_error(ds.last(), (ds.len() - 1) as usize)
    }
}

/// The error that normalizing `p` gives: the header's first, then the first
/// module record's, then the first dependency record's.
pub open spec fn manifest_error(p: PreManifest) -> Option<ManifestError> {
    if header_error(p.header) is Some {
        header_error(p.header)
    } else if modules_error(p.modules@) is Some {
        modules_error(p.modules@)
    } else {
        dependencies_error(p.dependencies@)
    }
}

pub open spec fn modules_normalized(ms: Seq<PreManifestModule>, ns: Seq<ManifestModule>) -> bool {
    &&& ns.len() == kept_modules(ms).len()
    &&& forall|i: int| 0 <= i < ns.len() ==> module_normalized(kept_modules(ms)[i], #[trigger] ns[i])
}

pub open spec fn dependencies_normalized(
    ds: Seq<PreManifestDependency>,
    ns: Seq<ManifestDependency>,
) -> bool {
    &&& ns.len() == ds.len()
    &&& forall|i: int| 0 <= i < ns.len() ==> dependency_normalized(ds[i], #[trigger] ns[i])
}

pub open spec fn capabilities_normalized(cs: Seq<String>, ns: Seq<ManifestCapability>) -> bool {
    &&& ns.len() == cs.len()
    &&& forall|i: int| 0 <= i < ns.len() ==> resolves_capability(cs[i]@, #[trigger] ns[i])
}

/// `m` is the normalized form of the document `p`: each list in the order
/// of the document, with module records of unknown type left out.
pub open spec fn manifest_normalized(p: PreManifest, m: Manifest) -> bool {
    &&& header_normalized(p.header, m.header)
    &&& modules_normalized(p.modules@, m.modules@)
    &&& dependencies_normalized(p.dependencies@, m.dependencies@)
    &&& capabilities_normalized(p.capabilities@, m.capabilities@)
    &&& m.subpacks@ == p.subpacks@
}

/// Reads a written version field by whichever form it has.
pub fn parse_pre_version(v: &PreVer) -> (r: Result<SemVer, VersionError>)
    ensures
        r == version_of_pre(*v),
{
    match v {
        PreVer::Triple(t) => {
            let c = t.clone();
            assert(c@ =~= t@);
            parse_semver_from_vec(c)
        },
        PreVer::Text(s) => parse_semver_from_str(s.as_str()),
    }
}

/// Normalizes the header block, given the value read from its UUID field.
pub fn build_header(h: &PreManifestHeader, parsed_uuid: Option<u128>) -> (r: Result<
    ManifestHeader,
    ManifestError,
>)
    ensures
        r is Ok <==> header_error_given(*h, parsed_uuid) is None,
        r matches Ok(n) ==> header_given(*h, parsed_uuid, n),
        r matches Err(e) ==> header_error_given(*h, parsed_uuid) == Some(e),
{
    let uuid = match parsed_uuid {
        Some(u) => u,
        None => {
            return Err(ManifestError::MalformedIdentifier(ManifestField::HeaderUuid));
        },
    };
    let min_engine_version = match parse_pre_version(&h.min_engine_version) {
        Ok(v) => v,
        Err(e) => {
            return Err(ManifestError::MalformedVersion(ManifestField::HeaderMinEngineVersion, e));
        },
    };
    let version = match parse_pre_version(&h.version) {
        Ok(v) => v,
        Err(e) => {
            return Err(ManifestError::MalformedVersion(ManifestField::HeaderVersion, e));
        },
    };
    Ok(
        ManifestHeader {
            uuid,
            name: h.name.clone(),
            description: h.description.clone(),
            min_engine_version,
            version,
        },
    )
}

/// Normalizes the header block.
pub fn normalize_header(h: &PreManifestHeader) -> (r: Result<ManifestHeader, ManifestError>)
    ensures
        r is Ok <==> header_error(*h) is None,
        r matches Ok(n) ==> header_normalized(*h, n),
        r matches Err(e) ==> header_error(*h) == Some(e),
{
    build_header(h, parse_uuid(h.uuid.as_str()))
}

/// Normalizes the module record `m`, written at position `index`, given the
/// value read from its UUID field; `None` for a record of unknown type.
pub fn build_module(m: &PreManifestModule, index: usize, parsed_uuid: Option<u128>) -> (r:
    Result<Option<ManifestModule>, ManifestError>)
    ensures
        r is Ok <==> module_error_given(*m, index, parsed_uuid) is None,
        r matches Ok(o) ==> (o is Some <==> module_kept(*m)),
        r matches Ok(Some(n)) ==> module_given(*m, parsed_uuid, n),
        r matches Err(e) ==> module_error_given(*m, index, parsed_uuid) == Some(e),
{
    let script = same_text(m.type_id.as_str(), "script");
    let data = same_text(m.type_id.as_str(), "data") || same_text(m.type_id.as_str(), "resources");
    if !script && !data {
        return Ok(None);
    }
    let uuid = match parsed_uuid {
        Some(u) => u,
        None => {
            return Err(ManifestError::MalformedIdentifier(ManifestField::ModuleUuid(index)));
        },
    };
    let c = m.version.clone();
    assert(c@ =~= m.version@);
    let version = match parse_semver_from_vec(c) {
        Ok(v) => v,
        Err(e) => {
            return Err(ManifestError::MalformedVersion(ManifestField::ModuleVersion(index), e));
        },
    };
    if script {
        match &m.entry {
            Some(entry) => Ok(
                Some(
                    ManifestModule::Script(
                        uuid,
                        version,
                        ScriptManifestModule { entry: entry.clone() },
                    ),
                ),
            ),
            None => Err(
                ManifestError::MissingRequiredVariantField(ManifestField::ModuleEntry(index)),
            ),
        }
    } else {
        Ok(Some(ManifestModule::Data(uuid, version)))
    }
}

/// Normalizes the module record `m`, written at position `index`; `None` for
/// a record of unknown type.
pub fn normalize_module(m: &PreManifestModule, index: usize) -> (r: Result<
    Option<ManifestModule>,
    ManifestError,
>)
    ensures
        r is Ok <==> module_error(*m, index) is None,
        r matches Ok(o) ==> (o is Some <==> module_kept(*m)),
        r matches Ok(Some(n)) ==> module_normalized(*m, n),
        r matches Err(e) ==> module_error(*m, index) == Some(e),
{
    build_module(m, index, parse_uuid(m.uuid.as_str()))
}

/// A dependency's version: the one written, or the default version where
/// none can be read.
pub fn dependency_version(v: &Option<PreVer>) -> (r: SemVer)
    ensures
        r == lenient_version(*v),
{
    match v {
        Some(p) => match parse_pre_version(p) {
            Ok(x) => x,
            Err(_) => SemVer { major: 1, minor: 0, patch: 0, beta: false },
        },
        None => SemVer { major: 1, minor: 0, patch: 0, beta: false },
    }
}

/// Normalizes the dependency record `d`, written at position `index`, given
/// the value read from its UUID field where it has one.
pub fn build_dependency(d: &PreManifestDependency, index: usize, parsed_uuid: Option<u128>) -> (r:
    Result<ManifestDependency, ManifestError>)
    ensures
        r is Ok <==> dependency_error_given(*d, index, parsed_uuid) is None,
        r matches Ok(n) ==> dependency_given(*d, parsed_uuid, n),
        r matches Err(e) ==> dependency_error_given(*d, index, parsed_uuid) == Some(e),
{
    let version = dependency_version(&d.version);
    match &d.module_name {
        Some(name) => Ok(
            ManifestDependency::ScriptDependency(
                ScriptManifestDependency::from_name(name.as_str()),
                version,
            ),
        ),
        None => match &d.uuid {
            Some(_) => match parsed_uuid {
                Some(value) => Ok(ManifestDependency::UuidDependency(value, version)),
                None => Err(
                    ManifestError::MalformedIdentifier(ManifestField::DependencyUuid(index)),
                ),
            },
            None => Err(
                ManifestError::MissingRequiredVariantField(
                    ManifestField::DependencyReference(index),
                ),
            ),
        },
    }
}

/// Normalizes the dependency record `d`, written at position `index`.
pub fn normalize_dependency(d: &PreManifestDependency, index: usize) -> (r: Result<
    ManifestDependency,
    ManifestError,
>)
    ensures
        r is Ok <==> dependency_error(*d, index) is None,
        r matches Ok(n) ==> dependency_normalized(*d, n),
        r matches Err(e) ==> dependency_error(*d, index) == Some(e),
{
    let parsed_uuid = match &d.uuid {
        Some(u) => parse_uuid(u.as_str()),
        None => None,
    };
    build_dependency(d, index, parsed_uuid)
}

proof fn lemma_modules_error_prefix(ms: Seq<PreManifestModule>, k: int)
    requires
        0 <= k <= ms.len(),
        modules_error(ms.subrange(0, k)) is Some,
    ensures
        modules_error(ms) == modules_error(ms.subrange(0, k)),
    decreases ms.len() - k,
{
    if k < ms.len() {
        let p = ms.subrange(0, k + 1);
        assert(p.drop_last() =~= ms.subrange(0, k));
        lemma_modules_error_prefix(ms, k + 1);
    } else {
        assert(ms.subrange(0, k) =~= ms);
    }
}

proof fn lemma_dependencies_error_prefix(ds: Seq<PreManifestDependency>, k: int)
    requires
        0 <= k <= ds.len(),
        dependencies_error(ds.subrange(0, k)) is Some,
    ensures
        dependencies_error(ds) == dependencies_error(ds.subrange(0, k)),
    decreases ds.len() - k,
{
    if k < ds.len() {
        let p = ds.subrange(0, k + 1);
        assert(p.drop_last() =~= ds.subrange(0, k));
        lemma_dependencies_error_prefix(ds, k + 1);
    } else {
        assert(ds.subrange(0, k) =~= ds);
    }
}

/// Normalizes the module records in their order, leaving out those of
/// unknown type.
pub fn normalize_modules(ms: &Vec<PreManifestModule>) -> (r: Result<
    Vec<ManifestModule>,
    ManifestError,
>)
    ensures
        r is Ok <==> modules_error(ms@) is None,
        r matches Ok(ns) ==> modules_normalized(ms@, ns@),
        r matches Err(e) ==> modules_error(ms@) == Some(e),
{
    let mut out: Vec<ManifestModule> = Vec::new();
    let mut i: usize = 0;
    while i < ms.len()
        invariant
            i <= ms@.len(),
            modules_error(ms@.subrange(0, i as int)) is None,
            modules_normalized(ms@.subrange(0, i as int), out@),
        decreases ms@.len() - i,
    {
        let ghost before = ms@.subrange(0, i as int);
        let ghost after = ms@.subrange(0, i + 1);
        assert(after.drop_last() =~= before);
        match normalize_module(&ms[i], i) {
            Err(e) => {
                proof {
                    lemma_modules_error_prefix(ms@, i + 1);
                }
                return Err(e);
            },
            Ok(None) => {},
            Ok(Some(n)) => {
                out.push(n);
            },
        }
        i = i + 1;
    }
    assert(ms@.subrange(0, i as int) =~= ms@);
    Ok(out)
}

/// Normalizes the dependency records in their order.
pub fn normalize_dependencies(ds: &Vec<PreManifestDependency>) -> (r: Result<
    Vec<ManifestDependency>,
    ManifestError,
>)
    ensures
        r is Ok <==> dependencies_error(ds@) is None,
        r matches Ok(ns) ==> dependencies_normalized(ds@, ns@),
        r matches Err(e) ==> dependencies_error(ds@) == Some(e),
{
    let mut out: Vec<ManifestDependency> = Vec::new();
    let mut i: usize = 0;
    while i < ds.len()
        invariant
            i <= ds@.len(),
            dependencies_error(ds@.subrange(0, i as int)) is None,
            dependencies_normalized(ds@.subrange(0, i as int), out@),
        decreases ds@.len() - i,
    {
        let ghost before = ds@.subrange(0, i as int);
        let ghost after = ds@.subrange(0, i + 1);
        assert(after.drop_last() =~= before);
        match normalize_dependency(&ds[i], i) {
            Err(e) => {
                proof {
                    lemma_dependencies_error_prefix(ds@, i + 1);
                }
                return Err(e);
            },
            Ok(n) => {
                out.push(n);
            },
        }
        i = i + 1;
    }
    assert(ds@.subrange(0, i as int) =~= ds@);
    Ok(out)
}

/// Resolves each capability name, in their order.
pub fn normalize_capabilities(cs: &Vec<String>) -> (r: Vec<ManifestCapability>)
    ensures
        capabilities_normalized(cs@, r@),
{
    let mut out: Vec<ManifestCapability> = Vec::new();
    let mut i: usize = 0;
    while i < cs.len()
        invariant
            i <= cs@.len(),
            out@.len() == i,
            forall|j: int| 0 <= j < i ==> resolves_capability(cs@[j]@, #[trigger] out@[j]),
        decreases cs@.len() - i,
    {
        out.push(ManifestCapability::from_name(cs[i].as_str()));
        i = i + 1;
    }
    out
}

/// Normalizes a decoded document. It fails with the error of the header,
/// else of the first module record, else of the first dependency record that
/// has one; on success each list keeps the order of the document, module
/// records of unknown type are left out and subpacks are passed through.
pub fn normalize_manifest(pre: PreManifest) -> (r: Result<Manifest, ManifestError>)
    ensures
        r is Ok <==> manifest_error(pre) is None,
        r matches Ok(m) ==> manifest_normalized(pre, m),
        r matches Err(e) ==> manifest_error(pre) == Some(e),
{
    let header = normalize_header(&pre.header)?;
    let modules = normalize_modules(&pre.modules)?;
    let dependencies = normalize_dependencies(&pre.dependencies)?;
    let capabilities = normalize_capabilities(&pre.capabilities);
    Ok(Manifest { header, modules, dependencies, subpacks: pre.subpacks, capabilities })
}

/// A module record of type `resources` normalizes exactly as one of type
/// `data` with the same UUID and version: both to `Data`, with the same
/// payload, and with the same error where there is one.
pub proof fn law_resources_module_is_data(r: PreManifestModule, d: PreManifestModule, i: usize)
    requires
        r.type_id@ == "resources"@,
        d.type_id@ == "data"@,
        r.uuid@ == d.uuid@,
        r.version@ == d.version@,
    ensures
        module_kept(r) && module_kept(d),
        module_error(r, i) == module_error(d, i),
        forall|n: ManifestModule| module_normalized(r, n) <==> module_normalized(d, n),
        forall|n: ManifestModule| module_normalized(r, n) ==> n is Data,
{
    reveal_strlit("resources");
    reveal_strlit("data");
    reveal_strlit("script");
    assert("resources"@.len() != "script"@.len());
    assert("data"@.len() != "script"@.len());
}

proof fn lemma_kept_modules_append(x: Seq<PreManifestModule>, y: Seq<PreManifestModule>)
    ensures
        kept_modules(x + y) == kept_modules(x) + kept_modules(y),
    decreases y.len(),
{
    if y.len() == 0 {
        assert(x + y =~= x);
        assert(kept_modules(x) + kept_modules(y) =~= kept_modules(x));
    } else {
        let z = x + y;
        assert(z.drop_last() =~= x + y.drop_last());
        assert(z.last() == y.last());
        lemma_kept_modules_append(x, y.drop_last());
        if module_kept(y.last()) {
            assert(kept_modules(x) + kept_modules(y) =~= (kept_modules(x) + kept_modules(
                y.drop_last(),
            )).push(y.last()));
        }
    }
}

/// A module record of unknown type is left out, and the records around it
/// keep their order.
pub proof fn law_unknown_module_dropped(
    before: Seq<PreManifestModule>,
    m: PreManifestModule,
    after: Seq<PreManifestModule>,
)
    requires
        !module_kept(m),
    ensures
        kept_modules(before + seq![m] + after) == kept_modules(before) + kept_modules(after),
{
    lemma_kept_modules_append(before, seq![m]);
    lemma_kept_modules_append(before + seq![m], after);
    assert(seq![m].drop_last() =~= Seq::<PreManifestModule>::empty());
    assert(seq![m].last() == m);
    assert(kept_modules(Seq::<PreManifestModule>::empty()) == Seq::<PreManifestModule>::empty());
    assert(kept_modules(seq![m]) == Seq::<PreManifestModule>::empty());
    assert(kept_modules(before) + kept_modules(seq![m]) =~= kept_modules(before));
}

/// A dependency record with neither a module name nor a UUID makes
/// normalization fail; where nothing before it fails, the error is the
/// missing reference of that record.
pub proof fn law_dependency_without_reference_fails(p: PreManifest, i: int)
    requires
        0 <= i < p.dependencies@.len(),
        p.dependencies@[i].module_name is None,
        p.dependencies@[i].uuid is None,
    ensures
        manifest_error(p) is Some,
        header_error(p.header) is None && modules_error(p.modules@) is None
            && dependencies_error(p.dependencies@.subrange(0, i)) is None ==> manifest_error(p)
            == Some(
            ManifestError::MissingRequiredVariantField(
                ManifestField::DependencyReference(i as usize),
            ),
        ),
{
    let ds = p.dependencies@;
    assert(ds.subrange(0, i + 1).drop_last() =~= ds.subrange(0, i));
    lemma_dependencies_error_prefix(ds, i + 1);
}

} // verus!
