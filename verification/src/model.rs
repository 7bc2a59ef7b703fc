//! The data the pipeline works over: metadata records extracted from a
//! binary, component groups, build-graph package records, target
//! languages, and the errors a run can end in.

use vstd::prelude::*;

verus! {

/// The mathematical value of a `Result`, both sides taken to their
/// deep views.
pub open spec fn result_view<T: DeepView, E: DeepView>(r: Result<T, E>) -> Result<T::V, E::V> {
    match r {
        Ok(v) => Ok(v.deep_view()),
        Err(e) => Err(e.deep_view()),
    }
}

/// One metadata record decoded from a compiled binary, as far as this
/// crate reads it: either the declaration of a legacy interface file,
/// carrying the file's base name, or any other interface declaration,
/// carried as the opaque symbol text the extractor gave it.
#[derive(Clone, Debug, PartialEq, Eq)]
pub enum MetadataRecord {
    UdlFile { name: String },
    Decl { symbol: String },
}

/// The value of a `MetadataRecord`.
pub enum SpecMetadataRecord {
    UdlFile { name: Seq<char> },
    Decl { symbol: Seq<char> },
}

impl View for MetadataRecord {
    type V = SpecMetadataRecord;

    open spec fn view(&self) -> SpecMetadataRecord {
        match self {
            MetadataRecord::UdlFile { name } => SpecMetadataRecord::UdlFile { name: name@ },
            MetadataRecord::Decl { symbol } => SpecMetadataRecord::Decl { symbol: symbol@ },
        }
    }
}

impl DeepView for MetadataRecord {
    type V = SpecMetadataRecord;

    open spec fn deep_view(&self) -> SpecMetadataRecord {
        self.view()
    }
}

/// The records of one logical interface component, grouped under the
/// normalized identity of the crate that declared them. Grouping is the
/// extractor's work; a set of groups handed to this crate has pairwise
/// distinct crate identities.
#[derive(Clone, Debug, PartialEq, Eq)]
pub struct ComponentGroup {
    pub crate_name: String,
    pub records: Vec<MetadataRecord>,
}

/// The value of a `ComponentGroup`.
pub struct SpecComponentGroup {
    pub crate_name: Seq<char>,
    pub records: Seq<SpecMetadataRecord>,
}

impl View for ComponentGroup {
    type V = SpecComponentGroup;

    open spec fn view(&self) -> SpecComponentGroup {
        SpecComponentGroup { crate_name: self.crate_name@, records: self.records.deep_view() }
    }
}

impl DeepView for ComponentGroup {
    type V = SpecComponentGroup;

    open spec fn deep_view(&self) -> SpecComponentGroup {
        self.view()
    }
}

/// One package of the build graph: its name, the names of the packages
/// it directly depends on, the directory its manifest sits in, and the
/// names of its build targets.
#[derive(Clone, Debug, PartialEq, Eq)]
pub struct PackageRecord {
    pub name: String,
    pub dependencies: Vec<String>,
    pub root: String,
    pub targets: Vec<String>,
}

/// The value of a `PackageRecord`.
pub struct SpecPackageRecord {
    pub name: Seq<char>,
    pub dependencies: Seq<Seq<char>>,
    pub root: Seq<char>,
    pub targets: Seq<Seq<char>>,
}

impl View for PackageRecord {
    type V = SpecPackageRecord;

    open spec fn view(&self) -> SpecPackageRecord {
        SpecPackageRecord {
            name: self.name@,
            dependencies: self.dependencies.deep_view(),
            root: self.root@,
            targets: self.targets.deep_view(),
        }
    }
}

impl DeepView for PackageRecord {
    type V = SpecPackageRecord;

    open spec fn deep_view(&self) -> SpecPackageRecord {
        self.view()
    }
}

impl MetadataRecord {
    /// A copy of the record, value for value.
    pub fn clone_record(&self) -> (r: MetadataRecord)
        ensures
            r@ == self@,
    {
        match self {
            MetadataRecord::UdlFile { name } => MetadataRecord::UdlFile { name: name.clone() },
            MetadataRecord::Decl { symbol } => MetadataRecord::Decl { symbol: symbol.clone() },
        }
    }
}

/// A copy of a vector of metadata records, value for value.
pub fn clone_metadata_records(v: &Vec<MetadataRecord>) -> (r: Vec<MetadataRecord>)
    ensures
        r.deep_view() == v.deep_view(),
{
    let n: usize = v.len();
    let mut r: Vec<MetadataRecord> = Vec::new();
    let mut i: usize = 0;
    while i < n
        invariant
            0 <= i <= n,
            n == v.len(),
            r.deep_view() =~= v.deep_view().subrange(0, i as int),
        decreases n - i,
    {
        let ghost pre = r.deep_view();
        r.push(v[i].clone_record());
        proof {
            assert(v.deep_view()[i as int] == v@[i as int]@);
            assert(r.deep_view() =~= pre.push(v@[i as int]@));
            assert(r.deep_view() =~= v.deep_view().subrange(0, i + 1));
        }
        i = i + 1;
    }
    proof {
        assert(v.deep_view().subrange(0, n as int) =~= v.deep_view());
    }
    r
}

/// What the external legacy interface parser answered for one file:
/// the metadata records it produced, or the failure it reported. The
/// parser runs outside this crate; its answers are handed in as
/// values, one per file the run can read.
#[derive(Clone, Debug, PartialEq, Eq)]
pub enum UdlParseOutcome {
    Parsed { records: Vec<MetadataRecord> },
    Rejected { message: String },
}

/// The value of a `UdlParseOutcome`.
pub enum SpecUdlParseOutcome {
    Parsed { records: Seq<SpecMetadataRecord> },
    Rejected { message: Seq<char> },
}

impl View for UdlParseOutcome {
    type V = SpecUdlParseOutcome;

    open spec fn view(&self) -> SpecUdlParseOutcome {
        match self {
            UdlParseOutcome::Parsed { records } => SpecUdlParseOutcome::Parsed {
                records: records.deep_view(),
            },
            UdlParseOutcome::Rejected { message } => SpecUdlParseOutcome::Rejected {
                message: message@,
            },
        }
    }
}

impl DeepView for UdlParseOutcome {
    type V = SpecUdlParseOutcome;

    open spec fn deep_view(&self) -> SpecUdlParseOutcome {
        self.view()
    }
}

impl UdlParseOutcome {
    /// A copy of the outcome, value for value.
    pub fn clone_outcome(&self) -> (r: UdlParseOutcome)
        ensures
            r@ == self@,
    {
        match self {
            UdlParseOutcome::Parsed { records } => UdlParseOutcome::Parsed {
                records: clone_metadata_records(records),
            },
            UdlParseOutcome::Rejected { message } => UdlParseOutcome::Rejected {
                message: message.clone(),
            },
        }
    }
}

/// A copy of a vector of strings, value for value.
pub fn clone_strings(v: &Vec<String>) -> (r: Vec<String>)
    ensures
        r.deep_view() == v.deep_view(),
{
    let n: usize = v.len();
    let mut r: Vec<String> = Vec::new();
    let mut i: usize = 0;
    while i < n
        invariant
            0 <= i <= n,
            n == v.len(),
            r.deep_view() =~= v.deep_view().subrange(0, i as int),
        decreases n - i,
    {
        let ghost pre = r.deep_view();
        r.push(v[i].clone());
        proof {
            assert(v.deep_view()[i as int] == v@[i as int]@);
            assert(r.deep_view() =~= pre.push(v@[i as int]@));
            assert(r.deep_view() =~= v.deep_view().subrange(0, i + 1));
        }
        i = i + 1;
    }
    proof {
        assert(v.deep_view().subrange(0, n as int) =~= v.deep_view());
    }
    r
}

/// Whether one of the strings is `s`, by value.
pub fn contains_string(v: &Vec<String>, s: &String) -> (r: bool)
    ensures
        r == v.deep_view().contains(s@),
{
    let n: usize = v.len();
    let mut i: usize = 0;
    while i < n
        invariant
            0 <= i <= n,
            n == v.len(),
            v.deep_view().len() == n,
            forall|j: int| 0 <= j < i ==> v.deep_view()[j] != s@,
        decreases n - i,
    {
        proof {
            assert(v.deep_view()[i as int] == v@[i as int]@);
        }
        if v[i].eq(s) {
            return true;
        }
        i = i + 1;
    }
    proof {
        if v.deep_view().contains(s@) {
            let j = choose|j: int| 0 <= j < n && v.deep_view()[j] == s@;
        }
    }
    false
}

impl PackageRecord {
    /// A copy of the record, value for value.
    pub fn clone_record(&self) -> (r: PackageRecord)
        ensures
            r.deep_view() == self.deep_view(),
    {
        PackageRecord {
            name: self.name.clone(),
            dependencies: clone_strings(&self.dependencies),
            root: self.root.clone(),
            targets: clone_strings(&self.targets),
        }
    }
}

/// A target language that bindings can be generated for.
#[derive(Clone, Copy, Debug, PartialEq, Eq, Structural)]
pub enum TargetLanguage {
    Kotlin,
    Swift,
    Python,
    Ruby,
}

impl View for TargetLanguage {
    type V = TargetLanguage;

    open spec fn view(&self) -> TargetLanguage {
        *self
    }
}

impl DeepView for TargetLanguage {
    type V = TargetLanguage;

    open spec fn deep_view(&self) -> TargetLanguage {
        *self
    }
}

impl TargetLanguage {
    /// Every language but Swift loads the component through a C dynamic
    /// library, so generation for it needs an identified library name.
    pub open spec fn spec_requires_cdylib(self) -> bool {
        self != TargetLanguage::Swift
    }

    /// Whether generation for this language needs a C dynamic library.
    pub fn requires_cdylib(&self) -> (r: bool)
        ensures
            r == self.spec_requires_cdylib(),
    {
        !matches!(*self, TargetLanguage::Swift)
    }
}

/// Everything that can end a run. Each variant carries the path, crate
/// name or count involved, so a caller can report it.
#[derive(Clone, Debug, PartialEq, Eq)]
pub enum Error {
    /// No package of the build graph exposes a target named like the
    /// crate identity.
    PackageNotFound { crate_name: String },
    /// More than one package exposes such a target.
    PackageAmbiguous { crate_name: String, count: usize },
    /// A component references a legacy interface file that is absent.
    UdlFileNotFound { path: String },
    /// A component references more than one legacy interface file.
    MultipleUdlFiles { crate_name: String, count: usize },
    /// The external parser rejected the legacy interface file; its
    /// report is carried along.
    UdlParseError { crate_name: String, message: String },
    /// Folding a metadata record redeclared a symbol.
    MetadataConflict { crate_name: String, symbol: String },
    /// An explicit crate filter matched no component.
    CrateNotFound { crate_name: String },
    /// An explicit crate filter matched more than one component.
    AmbiguousCrate { crate_name: String, count: usize },
    /// A requested language needs a C dynamic library, but the artifact
    /// is not one.
    ValidationError { language: TargetLanguage, library_path: String },
}

/// The value of an `Error`.
pub enum SpecErrorValue {
    PackageNotFound { crate_name: Seq<char> },
    PackageAmbiguous { crate_name: Seq<char>, count: nat },
    UdlFileNotFound { path: Seq<char> },
    MultipleUdlFiles { crate_name: Seq<char>, count: nat },
    UdlParseError { crate_name: Seq<char>, message: Seq<char> },
    MetadataConflict { crate_name: Seq<char>, symbol: Seq<char> },
    CrateNotFound { crate_name: Seq<char> },
    AmbiguousCrate { crate_name: Seq<char>, count: nat },
    ValidationError { language: TargetLanguage, library_path: Seq<char> },
}

impl View for Error {
    type V = SpecErrorValue;

    open spec fn view(&self) -> SpecErrorValue {
        match self {
            Error::PackageNotFound { crate_name } => SpecErrorValue::PackageNotFound {
                crate_name: crate_name@,
            },
            Error::PackageAmbiguous { crate_name, count } => SpecErrorValue::PackageAmbiguous {
                crate_name: crate_name@,
                count: *count as nat,
            },
            Error::UdlFileNotFound { path } => SpecErrorValue::UdlFileNotFound { path: path@ },
            Error::MultipleUdlFiles { crate_name, count } => SpecErrorValue::MultipleUdlFiles {
                crate_name: crate_name@,
                count: *count as nat,
            },
            Error::UdlParseError { crate_name, message } => SpecErrorValue::UdlParseError {
                crate_name: crate_name@,
                message: message@,
            },
            Error::MetadataConflict { crate_name, symbol } => SpecErrorValue::MetadataConflict {
                crate_name: crate_name@,
                symbol: symbol@,
            },
            Error::CrateNotFound { crate_name } => SpecErrorValue::CrateNotFound {
                crate_name: crate_name@,
            },
            Error::AmbiguousCrate { crate_name, count } => SpecErrorValue::AmbiguousCrate {
                crate_name: crate_name@,
                count: *count as nat,
            },
            Error::ValidationError { language, library_path } => SpecErrorValue::ValidationError {
                language: *language,
                library_path: library_path@,
            },
        }
    }
}

impl DeepView for Error {
    type V = SpecErrorValue;

    open spec fn deep_view(&self) -> SpecErrorValue {
        self.view()
    }
}

} // verus!
