//! Reading an application archive: the manifest's fields, the manifest as
//! text, and the icon.

use vstd::prelude::*;
use vstd::seq_lib::to_multiset_contains;
use crate::archive::archive_of;
use crate::archive::has_unreadable;
use crate::archive::names_of;
use crate::archive::SourceArchive;
use crate::codec::begins_as_xml;
use crate::codec::decoded_document;
use crate::codec::lossy_text;
use crate::codec::parse_manifest;
use crate::codec::text_of_bytes;
use crate::codec::write_manifest;
use crate::codec::xml_document;
use crate::codec::xml_marker;
use crate::codec::xml_marker_text;
use crate::codec::SIGNATURE_LENGTH;
use crate::edit::edited;
use crate::edit::lemma_edited_identity;
use crate::edit::Edits;
use crate::error::worded;
use crate::error::IpaError;
use crate::manifest::NodeView;
use crate::metadata::icon_names;
use crate::metadata::info_of;
use crate::metadata::InfoView;
use crate::metadata::IpaXmlInfo;
use crate::paths::container_name;
use crate::paths::icon_entry;
use crate::paths::icon_matches;
use crate::paths::is_first_icon;
use crate::paths::is_first_manifest;
use crate::paths::is_icon_entry;
use crate::paths::is_manifest_path;
use crate::paths::lemma_manifest_has_container;
use crate::paths::manifest_path;
use crate::paths::second_segment;

verus! {

/// What is known of an application once its archive is read.
#[derive(Debug)]
pub struct IpaInfo {
    pub app_name: String,
    pub app_display_name: String,
    pub app_bundle_id: String,
    pub app_version: String,
    pub app_min_os_version: String,
    /// The bytes of the icon, none where the archive holds no icon entry.
    pub app_icon: Vec<u8>,
    /// The manifest in the textual encoding.
    pub plist: String,
}

/// The text of a field, empty where the field is absent.
pub open spec fn or_empty(field: Option<Seq<char>>) -> Seq<char> {
    match field {
        Some(text) => text,
        None => Seq::empty(),
    }
}

/// The manifest as bytes in the textual encoding: the entry's own bytes
/// where they begin as that encoding does, else what the codec writes for
/// the document.
pub open spec fn manifest_as_xml(content: Seq<u8>, document: NodeView) -> Option<Seq<u8>> {
    if xml_marker().is_prefix_of(content) {
        Some(content)
    } else {
        xml_document(document)
    }
}

/// `info` is what the archive with the entries `source` tells of its
/// application: the fields of the first manifest, the manifest as text, and
/// the content of the first icon entry.
pub open spec fn describes(source: Seq<(Seq<char>, u64, Seq<u8>, bool)>, info: IpaInfo) -> bool {
    let names = names_of(source);
    exists|at: int|
        {
            &&& #[trigger] is_first_manifest(names, Some(at))
            &&& source[at].3
            &&& decoded_document(source[at].2) matches Some(document)
            &&& second_segment(source[at].0) matches Some(container)
            &&& manifest_as_xml(source[at].2, document) matches Some(xml)
            &&& tells(info_of(document), info)
            &&& info.plist@ == lossy_text(xml)
            &&& holds_icon(source, container, icon_names(info_of(document)), info.app_icon@)
        }
}

/// The flat record holds the fields of the manifest, each empty where the
/// manifest does not hold it.
pub open spec fn tells(fields: InfoView, info: IpaInfo) -> bool {
    &&& info.app_name@ == or_empty(fields.name)
    &&& info.app_display_name@ == or_empty(fields.display_name)
    &&& info.app_bundle_id@ == or_empty(fields.identifier)
    &&& info.app_version@ == or_empty(fields.short_version)
    &&& info.app_min_os_version@ == or_empty(fields.minimum_os_version)
}

/// `icon` is the content of the first icon entry of `source` for the names
/// `names` in `container`, or empty where there is none.
pub open spec fn holds_icon(
    source: Seq<(Seq<char>, u64, Seq<u8>, bool)>,
    container: Seq<char>,
    names: Seq<Seq<char>>,
    icon: Seq<u8>,
) -> bool {
    ||| is_first_icon(names_of(source), container, names, None) && icon == Seq::<u8>::empty()
    ||| exists|at: int|
        {
            &&& #[trigger] is_first_icon(names_of(source), container, names, Some(at))
            &&& source[at].3
            &&& icon == source[at].2
        }
}

/// Why reading an archive with the entries `source` fails with `error`:
/// it holds no manifest, or its first manifest cannot be decoded or not
/// encoded as text, or the codec cannot read one of its entries.
pub open spec fn explains(source: Seq<(Seq<char>, u64, Seq<u8>, bool)>, error: IpaError) -> bool {
    let names = names_of(source);
    match error {
        IpaError::ManifestNotFound => is_first_manifest(names, None),
        IpaError::ManifestParse(_) => exists|at: int|
            {
                &&& #[trigger] is_first_manifest(names, Some(at))
                &&& source[at].3
                &&& decoded_document(source[at].2) is None
            },
        IpaError::ManifestWrite(_) => exists|at: int|
            {
                &&& #[trigger] is_first_manifest(names, Some(at))
                &&& source[at].3
                &&& decoded_document(source[at].2) matches Some(document)
                &&& manifest_as_xml(source[at].2, document) is None
            },
        IpaError::ArchiveEntryRead(_) => has_unreadable(source),
        _ => false,
    }
}

/// The first manifest of the archive has fewer bytes than the signature of
/// the binary encoding, so none at all too.
pub open spec fn manifest_is_short(source: Seq<(Seq<char>, u64, Seq<u8>, bool)>) -> bool {
    exists|at: int| #[trigger]
        is_first_manifest(names_of(source), Some(at)) && source[at].2.len() < SIGNATURE_LENGTH
}

/// There is one first manifest at most.
pub proof fn lemma_first_manifest_unique(names: Seq<Seq<char>>, at: int, other: Option<int>)
    requires
        is_first_manifest(names, Some(at)),
        is_first_manifest(names, other),
    ensures
        other == Some(at),
{
    assert(is_manifest_path(names[at]));
    match other {
        Some(found) => {
            assert(is_manifest_path(names[found]));
        },
        None => {},
    }
}

/// An archive whose entries the codec reads, and whose first manifest can be
/// decoded and encoded as text, is read with success.
pub proof fn lemma_readable_archive_is_read(
    source: Seq<(Seq<char>, u64, Seq<u8>, bool)>,
    r: Result<IpaInfo, IpaError>,
    at: int,
)
    requires
        r matches Err(error) ==> explains(source, error),
        !has_unreadable(source),
        is_first_manifest(names_of(source), Some(at)),
        decoded_document(source[at].2) matches Some(document) && manifest_as_xml(
            source[at].2,
            document,
        ) is Some,
    ensures
        r is Ok,
{
    let names = names_of(source);
    match r {
        Ok(_) => {},
        Err(error) => {
            match error {
                IpaError::ManifestNotFound => {
                    lemma_first_manifest_unique(names, at, None);
                },
                IpaError::ManifestParse(_) => {
                    let found = choose|found: int|
                        {
                            &&& #[trigger] is_first_manifest(names, Some(found))
                            &&& decoded_document(source[found].2) is None
                        };
                    lemma_first_manifest_unique(names, at, Some(found));
                },
                IpaError::ManifestWrite(_) => {
                    let found = choose|found: int|
                        {
                            &&& #[trigger] is_first_manifest(names, Some(found))
                            &&& decoded_document(source[found].2) matches Some(document)
                            &&& manifest_as_xml(source[found].2, document) is None
                        };
                    lemma_first_manifest_unique(names, at, Some(found));
                },
                _ => {},
            }
        },
    }
}

/// An archive without a manifest is not read: where the codec reads its
/// entries, for want of a manifest.
pub proof fn lemma_read_needs_manifest(
    source: Seq<(Seq<char>, u64, Seq<u8>, bool)>,
    r: Result<IpaInfo, IpaError>,
)
    requires
        match r {
            Ok(info) => describes(source, info),
            Err(error) => explains(source, error),
        },
        is_first_manifest(names_of(source), None),
    ensures
        r is Err,
        !has_unreadable(source) ==> r->Err_0 is ManifestNotFound,
{
    let names = names_of(source);
    match r {
        Ok(info) => {
            let found = choose|found: int|
                {
                    &&& #[trigger] is_first_manifest(names, Some(found))
                    &&& source[found].3
                };
            lemma_first_manifest_unique(names, found, None);
        },
        Err(error) => {
            match error {
                IpaError::ManifestParse(_) => {
                    let found = choose|found: int|
                        {
                            &&& #[trigger] is_first_manifest(names, Some(found))
                            &&& decoded_document(source[found].2) is None
                        };
                    lemma_first_manifest_unique(names, found, None);
                },
                IpaError::ManifestWrite(_) => {
                    let found = choose|found: int|
                        {
                            &&& #[trigger] is_first_manifest(names, Some(found))
                            &&& source[found].3
                        };
                    lemma_first_manifest_unique(names, found, None);
                },
                _ => {},
            }
        },
    }
}

/// Whether an entry is an icon entry does not depend on the order of the
/// candidates.
pub proof fn lemma_icon_entry_unordered(
    entry: Seq<char>,
    container: Seq<char>,
    candidates: Seq<Seq<char>>,
    names: Seq<Seq<char>>,
)
    requires
        candidates.to_multiset() == names.to_multiset(),
    ensures
        is_icon_entry(entry, container, candidates) == is_icon_entry(entry, container, names),
{
    if is_icon_entry(entry, container, candidates) {
        let k = choose|k: int|
            0 <= k < candidates.len() && icon_matches(entry, container, #[trigger] candidates[k]);
        to_multiset_contains(candidates, candidates[k]);
        to_multiset_contains(names, candidates[k]);
    }
    if is_icon_entry(entry, container, names) {
        let k = choose|k: int| 0 <= k < names.len() && icon_matches(entry, container, #[trigger] names[k]);
        to_multiset_contains(names, names[k]);
        to_multiset_contains(candidates, names[k]);
    }
}

/// What is read from an archive whose first manifest is a rewritten one
/// names the application as the rewrite was told: the name, the bundle
/// identifier and the version are the ones that were passed to the rewrite.
pub proof fn lemma_reads_rewritten_identity(
    source: Seq<(Seq<char>, u64, Seq<u8>, bool)>,
    info: IpaInfo,
    at: int,
    entries: Seq<(Seq<char>, NodeView)>,
    edits: Edits,
)
    requires
        describes(source, info),
        is_first_manifest(names_of(source), Some(at)),
        decoded_document(source[at].2) == Some(NodeView::Dictionary(edited(entries, edits))),
    ensures
        info.app_name@ == edits.name,
        info.app_bundle_id@ == edits.identifier,
        info.app_version@ == edits.version,
{
    let names = names_of(source);
    let found = choose|found: int|
        {
            &&& #[trigger] is_first_manifest(names, Some(found))
            &&& decoded_document(source[found].2) matches Some(document)
            &&& tells(info_of(document), info)
        };
    lemma_first_manifest_unique(names, at, Some(found));
    lemma_edited_identity(entries, edits);
}

/// The position of the first manifest among the entries of `source`.
fn locate_manifest(source: &mut SourceArchive<'_>) -> (r: Result<Option<(usize, String)>, IpaError>)
    ensures
        final(source)@ == old(source)@,
        match r {
            Ok(Some((at, name))) => {
                &&& is_first_manifest(names_of(old(source)@), Some(at as int))
                &&& name@ == old(source)@[at as int].0
            },
            Ok(None) => is_first_manifest(names_of(old(source)@), None),
            Err(error) => error is ArchiveEntryRead && has_unreadable(old(source)@) && worded(error),
        },
{
    let n = source.len();
    let mut i: usize = 0;
    while i < n
        invariant
            source@ == old(source)@,
            n == source@.len(),
            0 <= i <= n,
            forall|j: int| 0 <= j < i ==> !is_manifest_path(#[trigger] names_of(source@)[j]),
        decreases n - i,
    {
        let (name, _) = match source.entry(i) {
            Ok(entry) => entry,
            Err(error) => {
                return Err(error);
            },
        };
        if manifest_path(name.as_str()) {
            return Ok(Some((i, name)));
        }
        i += 1;
    }
    Ok(None)
}

/// The content of the first icon entry among the entries of `source`, or
/// nothing where there is none.
fn locate_icon(source: &mut SourceArchive<'_>, container: &str, candidates: &Vec<String>) -> (r:
    Result<Vec<u8>, IpaError>)
    ensures
        final(source)@ == old(source)@,
        match r {
            Ok(icon) => holds_icon(old(source)@, container@, candidates.deep_view(), icon@),
            Err(error) => error is ArchiveEntryRead && has_unreadable(old(source)@) && worded(error),
        },
{
    if candidates.len() == 0 {
        return Ok(Vec::new());
    }
    let n = source.len();
    let mut i: usize = 0;
    while i < n
        invariant
            source@ == old(source)@,
            n == source@.len(),
            0 <= i <= n,
            forall|j: int|
                0 <= j < i ==> !is_icon_entry(
                    #[trigger] names_of(source@)[j],
                    container@,
                    candidates.deep_view(),
                ),
        decreases n - i,
    {
        let (name, _) = match source.entry(i) {
            Ok(entry) => entry,
            Err(error) => {
                return Err(error);
            },
        };
        if icon_entry(name.as_str(), container, candidates) {
            assert(is_first_icon(
                names_of(source@),
                container@,
                candidates.deep_view(),
                Some(i as int),
            ));
            return source.read(i);
        }
        i += 1;
    }
    Ok(Vec::new())
}

/// The text of an optional field, empty where it is absent.
fn text_or_empty(field: Option<String>) -> (r: String)
    ensures
        r@ == or_empty(crate::metadata::text_of(field)),
{
    match field {
        Some(text) => text,
        None => String::new(),
    }
}

/// Reads what an opened archive tells of its application. It succeeds
/// unless the archive holds no manifest, its first manifest cannot be decoded
/// or not encoded as text, or the codec cannot read one of its entries.
pub fn extract(source: &mut SourceArchive<'_>) -> (r: Result<IpaInfo, IpaError>)
    ensures
        final(source)@ == old(source)@,
        match r {
            Ok(info) => describes(old(source)@, info) && xml_marker_text().is_prefix_of(info.plist@),
            Err(error) => explains(old(source)@, error) && worded(error),
        },
        is_first_manifest(names_of(old(source)@), None) ==> r is Err && (r->Err_0 is ManifestNotFound
            || r->Err_0 is ArchiveEntryRead),
        manifest_is_short(old(source)@) ==> r is Err && (r->Err_0 is ManifestParse
            || r->Err_0 is ArchiveEntryRead),
{
    let ghost entries = source@;
    let ghost names = names_of(entries);
    let (at, name) = match locate_manifest(source) {
        Ok(Some(found)) => found,
        Ok(None) => {
            proof {
                if manifest_is_short(entries) {
                    let short = choose|short: int| #[trigger]
                        is_first_manifest(names, Some(short)) && entries[short].2.len()
                            < SIGNATURE_LENGTH;
                    lemma_first_manifest_unique(names, short, None);
                }
            }
            return Err(IpaError::ManifestNotFound);
        },
        Err(error) => {
            return Err(error);
        },
    };
    proof {
        if manifest_is_short(entries) {
            let short = choose|short: int| #[trigger]
                is_first_manifest(names, Some(short)) && entries[short].2.len()
                    < SIGNATURE_LENGTH;
            lemma_first_manifest_unique(names, at as int, Some(short));
        }
    }
    let content = match source.read(at) {
        Ok(content) => content,
        Err(error) => {
            assert(!entries[at as int].3);
            return Err(error);
        },
    };
    let container = match container_name(name.as_str()) {
        Some(container) => container,
        None => {
            proof {
                lemma_manifest_has_container(name@);
            }
            return Err(IpaError::ContainerNotFound);
        },
    };
    let document = match parse_manifest(content.as_slice()) {
        Ok(document) => document,
        Err(error) => {
            return Err(error);
        },
    };
    let fields = IpaXmlInfo::from_document(&document);
    let plist = if begins_as_xml(content.as_slice()) {
        text_of_bytes(content.as_slice())
    } else {
        match write_manifest(&document) {
            Ok(written) => text_of_bytes(written.as_slice()),
            Err(error) => {
                return Err(error);
            },
        }
    };
    let candidates = fields.icon_files();
    let app_icon = match locate_icon(source, container.as_str(), &candidates) {
        Ok(icon) => icon,
        Err(error) => {
            return Err(error);
        },
    };
    let info = IpaInfo {
        app_name: text_or_empty(fields.CFBundleName),
        app_display_name: text_or_empty(fields.CFBundleDisplayName),
        app_bundle_id: text_or_empty(fields.CFBundleIdentifier),
        app_version: text_or_empty(fields.CFBundleShortVersionString),
        app_min_os_version: text_or_empty(fields.MinimumOSVersion),
        app_icon,
        plist,
    };
    proof {
        let unordered = icon_names(info_of(document@));
        let ordered = candidates.deep_view();
        assert forall|n: Seq<char>|
            is_icon_entry(n, container@, ordered) == is_icon_entry(n, container@, unordered) by {
            lemma_icon_entry_unordered(n, container@, ordered, unordered);
        }
        assert(holds_icon(entries, container@, unordered, info.app_icon@)) by {
            if !is_first_icon(names, container@, ordered, None) {
                let found = choose|found: int|
                    {
                        &&& #[trigger] is_first_icon(names, container@, ordered, Some(found))
                        &&& entries[found].3
                        &&& info.app_icon@ == entries[found].2
                    };
                assert(is_first_icon(names, container@, unordered, Some(found)));
            }
        }
    }
    Ok(info)
}

/// Reads an application archive. It succeeds unless the bytes are no
/// archive, the archive holds no manifest, its first manifest cannot be
/// decoded or not encoded as text, or the codec cannot read one of its
/// entries.
pub fn parser(bytes: &[u8]) -> (r: Result<IpaInfo, IpaError>)
    ensures
        match archive_of(bytes@) {
            None => r is Err && r->Err_0 is ArchiveParse,
            Some(source) => match r {
                Ok(info) => describes(source, info),
                Err(error) => explains(source, error),
            },
        },
        r matches Ok(info) ==> xml_marker_text().is_prefix_of(info.plist@),
        r matches Err(error) ==> worded(error),
        archive_of(bytes@) matches Some(source) && is_first_manifest(names_of(source), None) ==> r
            is Err && (r->Err_0 is ManifestNotFound || r->Err_0 is ArchiveEntryRead),
        archive_of(bytes@) matches Some(source) && source.len() == 0 ==> r is Err && r->Err_0
            is ManifestNotFound,
        archive_of(bytes@) matches Some(source) && manifest_is_short(source) ==> r is Err && (
        r->Err_0 is ManifestParse || r->Err_0 is ArchiveEntryRead),
{
    let mut source = match SourceArchive::open(bytes) {
        Ok(source) => source,
        Err(error) => {
            return Err(error);
        },
    };
    extract(&mut source)
}

} // verus!
