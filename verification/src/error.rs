//! The ways in which reading or rewriting an archive fails.

use vstd::prelude::*;
use vstd::string::StringExecFns;

verus! {

/// A required input of the rewrite.
#[derive(Debug, Clone, Copy, PartialEq, Eq, Structural)]
pub enum Field {
    AppName,
    BundleId,
    Version,
    Manifest,
}

/// Why a call failed. Where a codec refused its input, the variant holds the
/// whole message, the codec's own words included.
#[derive(Debug)]
pub enum IpaError {
    /// A required input is empty once trimmed.
    Validation(Field),
    /// The manifest cannot be decoded, or its root is no dictionary.
    ManifestParse(String),
    /// The manifest cannot be encoded.
    ManifestWrite(String),
    /// The source is no archive.
    ArchiveParse(String),
    /// An entry of the source archive cannot be opened or read.
    ArchiveEntryRead(String),
    /// The destination archive refuses an entry or its content.
    ArchiveWrite(String),
    /// The icon cannot be decoded, or not encoded in the canonical format.
    IconConversion(String),
    /// The archive holds no manifest.
    ManifestNotFound,
    /// The archive holds no container.
    ContainerNotFound,
}

/// The message of a failed validation.
pub open spec fn validation_message(field: Field) -> Seq<char> {
    match field {
        Field::AppName => "app_name required"@,
        Field::BundleId => "app_bundle_id required"@,
        Field::Version => "app_version required"@,
        Field::Manifest => "plist required"@,
    }
}

/// The message that a failure surfaces as.
pub open spec fn message_of(error: IpaError) -> Seq<char> {
    match error {
        IpaError::Validation(field) => validation_message(field),
        IpaError::ManifestParse(text) => text@,
        IpaError::ManifestWrite(text) => text@,
        IpaError::ArchiveParse(text) => text@,
        IpaError::ArchiveEntryRead(text) => text@,
        IpaError::ArchiveWrite(text) => text@,
        IpaError::IconConversion(text) => text@,
        IpaError::ManifestNotFound => "Failed to find Info.plist"@,
        IpaError::ContainerNotFound => "Failed to find macho name"@,
    }
}

impl IpaError {
    /// The single message that the failure surfaces as.
    pub fn message(&self) -> (r: String)
        ensures
            r@ == message_of(*self),
    {
        match self {
            IpaError::Validation(Field::AppName) => String::from_str("app_name required"),
            IpaError::Validation(Field::BundleId) => String::from_str("app_bundle_id required"),
            IpaError::Validation(Field::Version) => String::from_str("app_version required"),
            IpaError::Validation(Field::Manifest) => String::from_str("plist required"),
            IpaError::ManifestParse(text) => text.clone(),
            IpaError::ManifestWrite(text) => text.clone(),
            IpaError::ArchiveParse(text) => text.clone(),
            IpaError::ArchiveEntryRead(text) => text.clone(),
            IpaError::ArchiveWrite(text) => text.clone(),
            IpaError::IconConversion(text) => text.clone(),
            IpaError::ManifestNotFound => String::from_str("Failed to find Info.plist"),
            IpaError::ContainerNotFound => String::from_str("Failed to find macho name"),
        }
    }
}

/// The failure surfaces as `words`, a colon and what the codec said.
pub open spec fn says(error: IpaError, words: Seq<char>) -> bool {
    (words + ": "@).is_prefix_of(message_of(error))
}

/// The message of a failure of a codec begins with the fixed words of its
/// kind. A manifest whose root is no dictionary has the fixed words alone.
pub open spec fn worded(error: IpaError) -> bool {
    match error {
        IpaError::ManifestParse(text) => says(error, "Failed to parse plist"@) || text@
            == "Failed to parse plist"@,
        IpaError::ManifestWrite(_) => says(error, "Failed to write xml"@),
        IpaError::ArchiveParse(_) => says(error, "Failed to parse zip"@),
        IpaError::ArchiveEntryRead(_) => says(error, "Failed to read file"@),
        IpaError::ArchiveWrite(_) => {
            ||| says(error, "Failed to add directory"@)
            ||| says(error, "Failed to start file"@)
            ||| says(error, "Failed to write file"@)
            ||| says(error, "Failed to finish zip"@)
        },
        IpaError::IconConversion(_) => {
            ||| says(error, "Failed to convert icon3"@)
            ||| says(error, "Failed to decode icon"@)
            ||| says(error, "Failed to write icon2"@)
        },
        _ => true,
    }
}

/// Two failures are of one kind: both of the same variant, and where an
/// input is missing, both for the same one.
pub open spec fn same_kind(first: IpaError, second: IpaError) -> bool {
    match first {
        IpaError::Validation(field) => second == IpaError::Validation(field),
        IpaError::ManifestParse(_) => second is ManifestParse,
        IpaError::ManifestWrite(_) => second is ManifestWrite,
        IpaError::ArchiveParse(_) => second is ArchiveParse,
        IpaError::ArchiveEntryRead(_) => second is ArchiveEntryRead,
        IpaError::ArchiveWrite(_) => second is ArchiveWrite,
        IpaError::IconConversion(_) => second is IconConversion,
        IpaError::ManifestNotFound => second is ManifestNotFound,
        IpaError::ContainerNotFound => second is ContainerNotFound,
    }
}

/// A message made of what failed and the codec's own words.
pub fn describe(what: &str, detail: &str) -> (r: String)
    ensures
        r@ == what@ + ": "@ + detail@,
        (what@ + ": "@).is_prefix_of(r@),
{
    let r = String::from_str(what).concat(": ").concat(detail);
    assert((what@ + ": "@) =~= r@.subrange(0, (what@ + ": "@).len() as int));
    r
}

} // verus!
