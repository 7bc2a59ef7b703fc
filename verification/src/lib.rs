//! Resolution core of a multi-crate foreign-interface binding generator.
//!
//! Given the metadata embedded in one compiled shared library, the build
//! graph of the project that produced it, and the external parser's
//! answers for any legacy interface-definition files it references, this
//! crate reconstructs the logical interface components inside the binary,
//! attributes each to its owning package, merges the two metadata origins
//! into one interface model per component, and propagates configuration
//! across package-dependency edges, producing the finished set of
//! generation inputs.
//!
//! Reading the binary, querying the build system, reading and parsing the
//! legacy files, and emitting target-language sources are the callers'
//! work; this crate holds the decisions between those edges.

pub mod artifact;
pub mod config;
pub mod interface;
pub mod materialize;
pub mod model;
pub mod pipeline;
pub mod resolve;

pub use artifact::calc_cdylib_name;
pub use config::ConfigurationObject;
pub use interface::InterfaceModel;
pub use materialize::load_udl_metadata;
pub use model::{ComponentGroup, Error, MetadataRecord, PackageRecord, TargetLanguage, UdlParseOutcome};
pub use pipeline::{find_sources, generate_bindings, Source};
pub use resolve::find_package_by_crate_name;
