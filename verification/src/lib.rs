//! Dependency extraction and registry metadata for npm packages: a lock file
//! is flattened into a sorted, duplicate-free list of dependency records,
//! the nearest lock file above a directory is located, and a package
//! version is resolved against a registry document.

pub mod dependency;
pub mod error;
pub mod extension;
pub mod json;
pub mod locate;
pub mod npm;
pub mod registry;
pub mod text;

pub use dependency::Dependency;
pub use dependency::VersionError;
pub use dependency::VersionParseResult;
pub use error::ErrorKind;
pub use error::ExtensionError;
pub use extension::FileDefinedDependencies;
pub use extension::JsExtension;
pub use extension::LoadedDependencyFile;
pub use extension::PackageDependencies;
pub use extension::RegistryPackageMetadata;
pub use locate::AbsolutePath;
pub use locate::DependencyFile;
pub use locate::DependencyFileType;
pub use locate::SearchStep;
