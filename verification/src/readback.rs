//! What is read from a rewritten archive.
//!
//! Nothing here says that a codec reads back what it wrote: that is the
//! premise of what is stated.

use vstd::prelude::*;
use crate::archive::names_of;
use crate::codec::decoded_document;
use crate::create::container_among;
use crate::create::destination;
use crate::create::lemma_container_needs_manifest;
use crate::create::rewritten_entries;
use crate::create::rewritten_entry;
use crate::edit::edited;
use crate::edit::lemma_edited_device_limit;
use crate::edit::lemma_edited_identity;
use crate::edit::Edits;
use crate::edit::MINIMUM_OS_FLOOR;
use crate::extract::describes;
use crate::extract::lemma_first_manifest_unique;
use crate::extract::tells;
use crate::extract::IpaInfo;
use crate::manifest::NodeView;
use crate::metadata::info_of;
use crate::paths::is_first_manifest;
use crate::paths::is_manifest_path;
use crate::paths::lemma_directory_or_manifest;

verus! {

/// The archive codec reads the entries `read` from an archive that it wrote
/// with the entries `held`: the same names with the same contents, each
/// read to its end.
pub open spec fn reads_back(
    read: Seq<(Seq<char>, u64, Seq<u8>, bool)>,
    held: Seq<(Seq<char>, Seq<u8>, (i64, u32))>,
) -> bool {
    &&& read.len() == held.len()
    &&& forall|i: int|
        0 <= i < read.len() ==> {
            &&& (#[trigger] read[i]).0 == held[i].0
            &&& read[i].2 == held[i].1
            &&& read[i].3
        }
}

/// The first manifest of what is read from the destination of a rewrite is
/// the rewritten one.
pub proof fn lemma_rewritten_manifest_is_first(
    source: Seq<(Seq<char>, u64, Seq<u8>, bool)>,
    manifest: Seq<u8>,
    icon: Option<Seq<u8>>,
    container: Seq<char>,
    storage: (i64, u32),
    read: Seq<(Seq<char>, u64, Seq<u8>, bool)>,
    at: int,
)
    requires
        container_among(names_of(source)) == Some(container),
        reads_back(read, destination(source, manifest, icon, container, storage)),
        is_first_manifest(names_of(read), Some(at)),
    ensures
        0 <= at < source.len(),
        is_first_manifest(names_of(source), Some(at)),
        read[at].2 == manifest,
{
    let held = destination(source, manifest, icon, container, storage);
    let rewritten = rewritten_entries(source, manifest, storage);
    assert forall|i: int| 0 <= i < source.len() implies names_of(read)[i] == names_of(source)[i] by {
        assert(held[i] == rewritten[i]);
        assert(read[i].0 == held[i].0);
    }
    lemma_container_needs_manifest(names_of(source));
    let j = choose|j: int|
        0 <= j < names_of(source).len() && is_manifest_path(#[trigger] names_of(source)[j]);
    assert(is_manifest_path(names_of(read)[j]));
    assert(at <= j);
    assert(held[at] == rewritten[at]);
    assert(read[at].0 == held[at].0);
    lemma_directory_or_manifest(source[at].0);
    assert(read[at].2 == held[at].1);
    assert forall|k: int| 0 <= k < at implies !is_manifest_path(#[trigger] names_of(source)[k]) by {
        assert(!is_manifest_path(names_of(read)[k]));
    }
}

/// What is read from the destination of a rewrite names the application as
/// the rewrite was told, where the codecs read back what they wrote: the
/// name, the bundle identifier and the version are the ones that were passed
/// in, and the lowest version of the operating system is the floor where the
/// device limit was removed.
pub proof fn lemma_rewritten_archive_is_read(
    source: Seq<(Seq<char>, u64, Seq<u8>, bool)>,
    entries: Seq<(Seq<char>, NodeView)>,
    edits: Edits,
    manifest: Seq<u8>,
    icon: Option<Seq<u8>>,
    container: Seq<char>,
    storage: (i64, u32),
    read: Seq<(Seq<char>, u64, Seq<u8>, bool)>,
    info: IpaInfo,
)
    requires
        container_among(names_of(source)) == Some(container),
        reads_back(read, destination(source, manifest, icon, container, storage)),
        decoded_document(manifest) == Some(NodeView::Dictionary(edited(entries, edits))),
        describes(read, info),
    ensures
        info.app_name@ == edits.name,
        info.app_bundle_id@ == edits.identifier,
        info.app_version@ == edits.version,
        edits.remove_device_limit ==> info.app_min_os_version@ == MINIMUM_OS_FLOOR@,
{
    let names = names_of(read);
    let found = choose|found: int|
        {
            &&& #[trigger] is_first_manifest(names, Some(found))
            &&& decoded_document(read[found].2) matches Some(document)
            &&& tells(info_of(document), info)
        };
    lemma_rewritten_manifest_is_first(source, manifest, icon, container, storage, read, found);
    lemma_edited_identity(entries, edits);
    if edits.remove_device_limit {
        lemma_edited_device_limit(entries, edits);
    }
}

} // verus!
