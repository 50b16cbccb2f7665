//! Reads and rewrites iOS application archives.
//!
//! An archive is a zip container with the application's bundle directory
//! below `Payload/` and a property-list manifest in it. [`parser`] reads the
//! manifest's fields and the icon; [`create`] writes a new archive with the
//! manifest rewritten and, where one is given, a new icon, and reports to a
//! [`ProgressSink`] how far it has come.
//!
//! The archives, the two encodings of the manifest and the raster formats
//! are the work of codecs. What the library decides is verified: which entry
//! is the manifest, which is the icon, what the rewritten manifest holds,
//! what the new archive holds for each entry of the old one, and which
//! percentages are reported.

pub mod archive;
pub mod codec;
pub mod create;
pub mod edit;
pub mod error;
pub mod extract;
pub mod manifest;
pub mod metadata;
pub mod outside;
pub mod paths;
pub mod progress;
pub mod raster;
pub mod readback;
pub mod text;

pub use crate::create::create;
pub use crate::error::Field;
pub use crate::error::IpaError;
pub use crate::extract::parser;
pub use crate::extract::IpaInfo;
pub use crate::metadata::CFBundleIcons;
pub use crate::metadata::CFBundlePrimaryIcon;
pub use crate::metadata::IpaXmlInfo;
pub use crate::paths::get_relative_path;
pub use crate::progress::ProgressSink;
pub use crate::raster::convert_icon_to_png;
