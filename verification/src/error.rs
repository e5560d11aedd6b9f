//! The failures that the library reports.

use vstd::prelude::*;
use vstd::string::StringExecFns;
use crate::locate::AbsolutePath;
use crate::locate::path_text;

verus! {

/// The broad classes of failure.
#[derive(Clone, Copy, Debug, PartialEq, Eq, Structural)]
pub enum ErrorKind {
    /// The caller handed over something unusable.
    InvalidInput,
    /// Something that was looked for is not there.
    NotFound,
    /// The package manager could not be run, or left no lock file.
    ProcessFailure,
    /// A document could not be read as what it should be.
    ParseFailure,
    /// The registry could not be reached.
    TransportFailure,
    /// A URL could not be made.
    UrlFailure,
}

/// A failure, with what is known of its cause.
#[derive(Debug, PartialEq, Eq)]
pub enum ExtensionError {
    /// The search for lock files was started from a path that is not
    /// absolute.
    RelativePath { path: String },
    /// The package manager failed, or wrote no lock file.
    Process { reason: String },
    /// The registry did not answer.
    Transport { reason: String },
    /// A text that should be a JSON document is none.
    MalformedJson { text: String, reason: String },
    /// A lock file document is not a JSON object.
    NotAnObject,
    /// The text of the dependency file at this path is no JSON document.
    MalformedDependencyFile { path: AbsolutePath, text: String, reason: String },
    /// The document of the dependency file at this path is not a JSON
    /// object.
    InvalidDependencyFile { path: AbsolutePath },
    /// A registry document has no `versions` object.
    MissingVersions,
    /// No version was asked for, and the registry document lists none.
    MissingVersion,
    /// A registry document names no archive for the version.
    MissingArchiveUrl,
    /// A lock file does not list the package it was made for.
    MissingTargetPackage,
    /// The extension knows no registry.
    MissingRegistry,
    /// A template could not be rendered.
    Template { reason: String },
    /// A text that should be a URL is none.
    InvalidUrl { text: String, reason: String },
}

/// What a failure stands for: its cause, and the text that was refused
/// where there is one. What an outside reader said of the text is left out.
pub enum Cause {
    RelativePath(Seq<char>),
    Process,
    Transport,
    MalformedJson(Seq<char>),
    NotAnObject,
    MalformedDependencyFile(Seq<Seq<char>>, Seq<char>),
    InvalidDependencyFile(Seq<Seq<char>>),
    MissingVersions,
    MissingVersion,
    MissingArchiveUrl,
    MissingTargetPackage,
    MissingRegistry,
    Template,
    InvalidUrl(Seq<char>),
}

impl View for ExtensionError {
    type V = Cause;

    open spec fn view(&self) -> Cause {
        match *self {
            ExtensionError::RelativePath { path } => Cause::RelativePath(path@),
            ExtensionError::Process { .. } => Cause::Process,
            ExtensionError::Transport { .. } => Cause::Transport,
            ExtensionError::MalformedJson { text, .. } => Cause::MalformedJson(text@),
            ExtensionError::NotAnObject => Cause::NotAnObject,
            ExtensionError::MalformedDependencyFile { path, text, .. } => Cause::MalformedDependencyFile(
                path@,
                text@,
            ),
            ExtensionError::InvalidDependencyFile { path } => Cause::InvalidDependencyFile(path@),
            ExtensionError::MissingVersions => Cause::MissingVersions,
            ExtensionError::MissingVersion => Cause::MissingVersion,
            ExtensionError::MissingArchiveUrl => Cause::MissingArchiveUrl,
            ExtensionError::MissingTargetPackage => Cause::MissingTargetPackage,
            ExtensionError::MissingRegistry => Cause::MissingRegistry,
            ExtensionError::Template { .. } => Cause::Template,
            ExtensionError::InvalidUrl { text, .. } => Cause::InvalidUrl(text@),
        }
    }
}

impl ExtensionError {
    /// The class that this failure belongs to.
    pub open spec fn spec_kind(&self) -> ErrorKind {
        match *self {
            ExtensionError::RelativePath { .. } => ErrorKind::InvalidInput,
            ExtensionError::Process { .. } => ErrorKind::ProcessFailure,
            ExtensionError::Transport { .. } => ErrorKind::TransportFailure,
            ExtensionError::MalformedJson { .. } => ErrorKind::ParseFailure,
            ExtensionError::NotAnObject => ErrorKind::ParseFailure,
            ExtensionError::MalformedDependencyFile { .. } => ErrorKind::ParseFailure,
            ExtensionError::InvalidDependencyFile { .. } => ErrorKind::ParseFailure,
            ExtensionError::MissingVersions => ErrorKind::NotFound,
            ExtensionError::MissingVersion => ErrorKind::NotFound,
            ExtensionError::MissingArchiveUrl => ErrorKind::NotFound,
            ExtensionError::MissingTargetPackage => ErrorKind::NotFound,
            ExtensionError::MissingRegistry => ErrorKind::NotFound,
            ExtensionError::Template { .. } => ErrorKind::UrlFailure,
            ExtensionError::InvalidUrl { .. } => ErrorKind::UrlFailure,
        }
    }

    /// The class that this failure belongs to.
    #[verifier::when_used_as_spec(spec_kind)]
    pub fn kind(&self) -> (r: ErrorKind)
        ensures
            r == self.spec_kind(),
    {
        match self {
            ExtensionError::RelativePath { .. } => ErrorKind::InvalidInput,
            ExtensionError::Process { .. } => ErrorKind::ProcessFailure,
            ExtensionError::Transport { .. } => ErrorKind::TransportFailure,
            ExtensionError::MalformedJson { .. } => ErrorKind::ParseFailure,
            ExtensionError::NotAnObject => ErrorKind::ParseFailure,
            ExtensionError::MalformedDependencyFile { .. } => ErrorKind::ParseFailure,
            ExtensionError::InvalidDependencyFile { .. } => ErrorKind::ParseFailure,
            ExtensionError::MissingVersions => ErrorKind::NotFound,
            ExtensionError::MissingVersion => ErrorKind::NotFound,
            ExtensionError::MissingArchiveUrl => ErrorKind::NotFound,
            ExtensionError::MissingTargetPackage => ErrorKind::NotFound,
            ExtensionError::MissingRegistry => ErrorKind::NotFound,
            ExtensionError::Template { .. } => ErrorKind::UrlFailure,
            ExtensionError::InvalidUrl { .. } => ErrorKind::UrlFailure,
        }
    }

    /// What to tell a person about this failure.
    pub open spec fn spec_message(&self) -> Seq<char> {
        match *self {
            ExtensionError::RelativePath { path } => "Path is not absolute: "@ + path@,
            ExtensionError::Process { reason } => "Failed to run the package manager: "@ + reason@,
            ExtensionError::Transport { reason } => "Failed to query the registry: "@ + reason@,
            ExtensionError::MalformedJson { text, reason } => "JSON was not well-formatted:\n"@ + text@
                + "\n"@ + reason@,
            ExtensionError::NotAnObject => "JSON document is not an object."@,
            ExtensionError::MalformedDependencyFile { path, reason, .. } =>
                "Failed to parse dependency file: "@ + path_text(path@) + "\n"@ + reason@,
            ExtensionError::InvalidDependencyFile { path } =>
                "Dependency file is not a JSON object: "@ + path_text(path@),
            ExtensionError::MissingVersions => "Failed to find versions JSON section."@,
            ExtensionError::MissingVersion => "Failed to find package version."@,
            ExtensionError::MissingArchiveUrl => "Failed to parse package archive URL."@,
            ExtensionError::MissingTargetPackage => "Failed to find target package in dependencies list."@,
            ExtensionError::MissingRegistry => "Code error: vector of registry host names is empty."@,
            ExtensionError::Template { reason } => "Failed to render template: "@ + reason@,
            ExtensionError::InvalidUrl { text, reason } => "Failed to parse URL: "@ + text@ + "\n"@
                + reason@,
        }
    }

    /// The failure as one of the dependency file at the path: a failure to
    /// read a document says which file it was read from, and any other
    /// failure stays as it is.
    pub fn in_dependency_file(self, path: &AbsolutePath) -> (r: ExtensionError)
        ensures
            r@ == (match self@ {
                Cause::MalformedJson(text) => Cause::MalformedDependencyFile(path@, text),
                Cause::NotAnObject => Cause::InvalidDependencyFile(path@),
                other => other,
            }),
    {
        match self {
            ExtensionError::MalformedJson { text, reason } => ExtensionError::MalformedDependencyFile {
                path: path.clone(),
                text,
                reason,
            },
            ExtensionError::NotAnObject => ExtensionError::InvalidDependencyFile {
                path: path.clone(),
            },
            other => other,
        }
    }

    /// What to tell a person about this failure.
    pub fn message(&self) -> (r: String)
        ensures
            r@ == self.spec_message(),
    {
        match self {
            ExtensionError::RelativePath { path } => "Path is not absolute: ".to_owned().concat(
                path.as_str(),
            ),
            ExtensionError::Process { reason } => "Failed to run the package manager: ".to_owned().concat(
                reason.as_str(),
            ),
            ExtensionError::Transport { reason } => "Failed to query the registry: ".to_owned().concat(
                reason.as_str(),
            ),
            ExtensionError::MalformedJson { text, reason } => "JSON was not well-formatted:\n".to_owned()
                .concat(text.as_str()).concat("\n").concat(reason.as_str()),
            ExtensionError::NotAnObject => "JSON document is not an object.".to_owned(),
            ExtensionError::MalformedDependencyFile { path, reason, .. } =>
                "Failed to parse dependency file: ".to_owned().concat(path.to_text().as_str())
                    .concat("\n").concat(reason.as_str()),
            ExtensionError::InvalidDependencyFile { path } =>
                "Dependency file is not a JSON object: ".to_owned().concat(
                    path.to_text().as_str(),
                ),
            ExtensionError::MissingVersions => "Failed to find versions JSON section.".to_owned(),
            ExtensionError::MissingVersion => "Failed to find package version.".to_owned(),
            ExtensionError::MissingArchiveUrl => "Failed to parse package archive URL.".to_owned(),
            ExtensionError::MissingTargetPackage => "Failed to find target package in dependencies list."
                .to_owned(),
            ExtensionError::MissingRegistry => "Code error: vector of registry host names is empty."
                .to_owned(),
            ExtensionError::Template { reason } => "Failed to render template: ".to_owned().concat(
                reason.as_str(),
            ),
            ExtensionError::InvalidUrl { text, reason } => "Failed to parse URL: ".to_owned().concat(
                text.as_str(),
            ).concat("\n").concat(reason.as_str()),
        }
    }
}

} // verus!
