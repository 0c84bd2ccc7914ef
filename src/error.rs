//! Why a manifest could not be served.
use vstd::prelude::*;
use vstd::string::StringExecFns;

verus! {

/// The phase that failed, with its cause.
#[derive(Debug)]
pub enum ManifestError {
    /// The manifest file could not be read.
    Open(String),
    /// The text is not TOML, or does not have the manifest's shape.
    Decode(String),
    /// The manifest's own path could not be made canonical.
    BaseResolution(String),
    /// The manifest's canonical path has no parent directory.
    NoParentDirectory,
    /// The clip declared at `path` could not be made canonical.
    EntryResolution { path: String, cause: String },
}

impl ManifestError {
    /// The text that [`ManifestError::message`] returns.
    pub open spec fn message_spec(&self) -> Seq<char> {
        match self {
            ManifestError::Open(cause) => "opening manifest file: "@ + cause@,
            ManifestError::Decode(cause) => "decoding manifest: "@ + cause@,
            ManifestError::BaseResolution(cause) => "converting to absolute path: "@ + cause@,
            ManifestError::NoParentDirectory => "no parent dir"@,
            ManifestError::EntryResolution { path, cause } => path@ + ": "@ + cause@,
        }
    }

    /// A one-line description for the operator: the phase, then the cause.
    pub fn message(&self) -> (r: String)
        ensures
            r@ == self.message_spec(),
    {
        match self {
            ManifestError::Open(cause) => String::from_str("opening manifest file: ").concat(
                cause.as_str(),
            ),
            ManifestError::Decode(cause) => String::from_str("decoding manifest: ").concat(
                cause.as_str(),
            ),
            ManifestError::BaseResolution(cause) => String::from_str(
                "converting to absolute path: ",
            ).concat(cause.as_str()),
            ManifestError::NoParentDirectory => String::from_str("no parent dir"),
            ManifestError::EntryResolution { path, cause } => path.clone().concat(": ").concat(
                cause.as_str(),
            ),
        }
    }
}

} // verus!
