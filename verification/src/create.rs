//! Rewriting an application archive: the manifest is replaced by a rewritten
//! one, an icon is added where one is given, and every other entry is copied
//! as it is, in the order of the source.

use vstd::prelude::*;
use vstd::utf8::encode_utf8;
use crate::archive::written;
use crate::archive::archive_of;
use crate::archive::clamped_level;
use crate::archive::directory_fails;
use crate::archive::has_unreadable;
use crate::archive::start_fails;
use crate::archive::write_refused;
use crate::archive::names_of;
use crate::archive::ArchiveWriter;
use crate::archive::EntryReader;
use crate::archive::EntryOptions;
use crate::archive::SourceArchive;
use crate::archive::CHUNK_SIZE;
use crate::archive::ENTRY_MODE;
use crate::codec::decoded_document;
use crate::codec::parse_manifest;
use crate::codec::write_manifest;
use crate::codec::xml_document;
use crate::edit::edit_manifest;
use crate::edit::edited;
use crate::edit::Edits;
use crate::error::describe;
use crate::error::same_kind;
use crate::error::says;
use crate::error::worded;
use crate::error::Field;
use crate::error::IpaError;
use crate::manifest::NodeView;
use crate::paths::container_name;
use crate::paths::container_path;
use crate::paths::directory_name;
use crate::paths::is_directory_name;
use crate::paths::is_first_manifest;
use crate::paths::lemma_directory_or_manifest;
use crate::paths::lemma_manifest_has_container;
use crate::paths::is_manifest_path;
use crate::paths::manifest_path;
use crate::paths::path_in_container;
use crate::paths::second_segment;
use crate::paths::ICON_FILE_NAME;
use crate::progress::added;
use crate::progress::after_chunks;
use crate::progress::counted;
use crate::progress::is_rising;
use crate::progress::lemma_chunks_extend;
use crate::progress::lemma_prefix_chain;
use crate::progress::received;
use crate::progress::Progress;
use crate::progress::ProgressSink;
use crate::raster::convert_icon_to_png;
use crate::raster::normalized;
use crate::text::blank;
use crate::text::is_blank;

verus! {

/// The first of the required inputs that is empty once trimmed.
pub open spec fn first_blank(
    app_name: Seq<char>,
    app_bundle_id: Seq<char>,
    app_version: Seq<char>,
    plist: Seq<char>,
) -> Option<Field> {
    if is_blank(app_name) {
        Some(Field::AppName)
    } else if is_blank(app_bundle_id) {
        Some(Field::BundleId)
    } else if is_blank(app_version) {
        Some(Field::Version)
    } else if is_blank(plist) {
        Some(Field::Manifest)
    } else {
        None
    }
}

/// What a rewrite comes to before it touches an entry of the source.
pub enum Plan {
    /// A required input is empty.
    Invalid(Field),
    /// The icon cannot be brought into the canonical format.
    IconRefused,
    /// The manifest cannot be decoded, or its root is no dictionary.
    ManifestUnreadable,
    /// The rewritten manifest cannot be encoded.
    ManifestUnwritable,
    /// The source is no archive.
    SourceUnreadable,
    /// The entries of the source are rewritten: with this manifest, with
    /// this icon where there is one, each entry stored at this compression
    /// level and with these permissions.
    Rewrite {
        source: Seq<(Seq<char>, u64, Seq<u8>, bool)>,
        manifest: Seq<u8>,
        icon: Option<Seq<u8>>,
        storage: (i64, u32),
    },
}

/// The plan of a rewrite, step by step as the rewrite goes.
pub open spec fn plan_of(
    zip_file_bytes: Seq<u8>,
    icon_bytes: Seq<u8>,
    plist: Seq<char>,
    edits: Edits,
    zip_level: u8,
) -> Plan {
    if first_blank(edits.name, edits.identifier, edits.version, plist) is Some {
        Plan::Invalid(first_blank(edits.name, edits.identifier, edits.version, plist)->0)
    } else if icon_bytes.len() > 0 && normalized(icon_bytes) is None {
        Plan::IconRefused
    } else {
        match decoded_document(encode_utf8(plist)) {
            Some(NodeView::Dictionary(entries)) => match xml_document(
                NodeView::Dictionary(edited(entries, edits)),
            ) {
                Some(manifest) => match archive_of(zip_file_bytes) {
                    Some(source) => Plan::Rewrite {
                        source,
                        manifest,
                        icon: if icon_bytes.len() > 0 {
                            normalized(icon_bytes)
                        } else {
                            None
                        },
                        storage: (clamped_level(zip_level) as i64, ENTRY_MODE),
                    },
                    None => Plan::SourceUnreadable,
                },
                None => Plan::ManifestUnwritable,
            },
            _ => Plan::ManifestUnreadable,
        }
    }
}

/// What the destination holds for an entry of the source: a directory is
/// declared anew, the manifest gets the rewritten content, and any other
/// entry keeps its own. Each is stored as `storage` says: at that
/// compression level, with those permissions.
pub open spec fn rewritten_entry(
    entry: (Seq<char>, u64, Seq<u8>, bool),
    manifest: Seq<u8>,
    storage: (i64, u32),
) -> (Seq<char>, Seq<u8>, (i64, u32)) {
    if is_directory_name(entry.0) {
        (entry.0, Seq::empty(), storage)
    } else if is_manifest_path(entry.0) {
        (entry.0, manifest, storage)
    } else {
        (entry.0, entry.2, storage)
    }
}

/// What the destination holds for the entries of the source, in their order.
pub open spec fn rewritten_entries(
    source: Seq<(Seq<char>, u64, Seq<u8>, bool)>,
    manifest: Seq<u8>,
    storage: (i64, u32),
) -> Seq<(Seq<char>, Seq<u8>, (i64, u32))> {
    Seq::new(source.len(), |i: int| rewritten_entry(source[i], manifest, storage))
}

/// The container of an archive: the second segment of its last manifest
/// path.
pub open spec fn container_among(names: Seq<Seq<char>>) -> Option<Seq<char>>
    decreases names.len(),
{
    if names.len() == 0 {
        None
    } else if is_manifest_path(names.last()) {
        second_segment(names.last())
    } else {
        container_among(names.drop_last())
    }
}

/// An archive has a container if and only if it holds a manifest.
pub proof fn lemma_container_needs_manifest(names: Seq<Seq<char>>)
    ensures
        container_among(names) is None <==> is_first_manifest(names, None),
    decreases names.len(),
{
    if names.len() > 0 {
        lemma_container_needs_manifest(names.drop_last());
        if is_manifest_path(names.last()) {
            lemma_manifest_has_container(names.last());
        } else {
            assert forall|j: int| 0 <= j < names.len() - 1 implies names[j] == names.drop_last()[j] by {}
        }
    }
}

/// The sizes that the entries declare, added up to the largest size that is
/// counted.
pub open spec fn total_size(entries: Seq<(Seq<char>, u64, Seq<u8>, bool)>) -> nat
    decreases entries.len(),
{
    if entries.len() == 0 {
        0
    } else {
        counted(total_size(entries.drop_last()), entries.last().1 as nat)
    }
}

/// What is done and what is reported once the entries of `source` are
/// written: the declared size of a directory is counted at once, the
/// manifest is not counted, and the content of any other entry is counted
/// chunk by chunk.
pub open spec fn after_entries(
    state: (nat, Seq<u8>),
    total: nat,
    source: Seq<(Seq<char>, u64, Seq<u8>, bool)>,
) -> (nat, Seq<u8>)
    decreases source.len(),
{
    if source.len() == 0 {
        state
    } else {
        let before = after_entries(state, total, source.drop_last());
        let entry = source.last();
        if is_directory_name(entry.0) {
            (counted(before.0, entry.1 as nat), before.1)
        } else if is_manifest_path(entry.0) {
            before
        } else {
            after_chunks(before, total, entry.2.len(), CHUNK_SIZE as nat)
        }
    }
}

/// Writing more entries takes no report back: what is reported once the
/// first `i` entries are written is the start of what is reported once all
/// are.
pub proof fn lemma_entries_extend(
    state: (nat, Seq<u8>),
    total: nat,
    source: Seq<(Seq<char>, u64, Seq<u8>, bool)>,
    i: int,
)
    requires
        0 <= i <= source.len(),
    ensures
        after_entries(state, total, source.take(i)).1.is_prefix_of(
            after_entries(state, total, source).1,
        ),
    decreases source.len(),
{
    if i == source.len() {
        assert(source.take(i) =~= source);
    } else {
        let before = after_entries(state, total, source.drop_last());
        let entry = source.last();
        lemma_entries_extend(state, total, source.drop_last(), i);
        assert(source.drop_last().take(i) =~= source.take(i));
        lemma_chunks_extend(before, total, entry.2.len(), CHUNK_SIZE as nat);
        lemma_prefix_chain(
            after_entries(state, total, source.take(i)).1,
            before.1,
            after_entries(state, total, source).1,
        );
    }
}

/// The percentages that a rewrite of `source` reports when it comes to the
/// end of the entries.
pub open spec fn streamed_reports(source: Seq<(Seq<char>, u64, Seq<u8>, bool)>) -> Seq<u8> {
    after_entries((0, Seq::empty()), total_size(source), source).1
}

/// The entries of the destination: those of the source, rewritten, and the
/// icon in the container where there is one.
pub open spec fn destination(
    source: Seq<(Seq<char>, u64, Seq<u8>, bool)>,
    manifest: Seq<u8>,
    icon: Option<Seq<u8>>,
    container: Seq<char>,
    storage: (i64, u32),
) -> Seq<(Seq<char>, Seq<u8>, (i64, u32))> {
    match icon {
        Some(image) => rewritten_entries(source, manifest, storage).push(
            (path_in_container(container, ICON_FILE_NAME@), image, storage),
        ),
        None => rewritten_entries(source, manifest, storage),
    }
}

/// The codec refuses a part of `content` that is written, piece by piece,
/// to the file that was started last in an archive with the entries `start`.
pub open spec fn content_is_refused(start: Seq<(Seq<char>, Seq<u8>, (i64, u32))>, content: Seq<u8>) -> bool {
    exists|writer: ArchiveWriter, copied: Seq<u8>, data: Seq<u8>|
        {
            &&& (copied + data).is_prefix_of(content)
            &&& writer@ == #[trigger] written(start, copied)
            &&& #[trigger] write_refused(writer, data)
        }
}

/// The codec does not take a directory of this name into an archive with
/// the entries `before`.
pub open spec fn directory_is_refused(
    before: Seq<(Seq<char>, Seq<u8>, (i64, u32))>,
    name: Seq<char>,
    options: EntryOptions,
) -> bool {
    exists|writer: ArchiveWriter| writer@ == before && #[trigger] directory_fails(writer, name, options)
}

/// The codec does not take a file of this name and content into an archive
/// with the entries `before`: it does not start the file, or refuses a part
/// of the content.
pub open spec fn file_is_refused(
    before: Seq<(Seq<char>, Seq<u8>, (i64, u32))>,
    name: Seq<char>,
    content: Seq<u8>,
    options: EntryOptions,
) -> bool {
    ||| exists|writer: ArchiveWriter| writer@ == before && #[trigger] start_fails(writer, name, options)
    ||| content_is_refused(before.push((name, Seq::empty(), options.storage())), content)
}

/// The codec does not take what the destination holds for the entry at `i`
/// of the source, once it has taken what it holds for the entries before it
/// into an archive that began with the entries `start`.
pub open spec fn refused_at(
    start: Seq<(Seq<char>, Seq<u8>, (i64, u32))>,
    source: Seq<(Seq<char>, u64, Seq<u8>, bool)>,
    manifest: Seq<u8>,
    options: EntryOptions,
    i: int,
) -> bool {
    let before = start + rewritten_entries(source.take(i), manifest, options.storage());
    let entry = rewritten_entry(source[i], manifest, options.storage());
    if is_directory_name(source[i].0) {
        directory_is_refused(before, entry.0, options)
    } else {
        file_is_refused(before, entry.0, entry.1, options)
    }
}

/// The codec does not take one of the entries of the source.
pub open spec fn entries_are_refused(
    start: Seq<(Seq<char>, Seq<u8>, (i64, u32))>,
    source: Seq<(Seq<char>, u64, Seq<u8>, bool)>,
    manifest: Seq<u8>,
    options: EntryOptions,
) -> bool {
    exists|i: int| 0 <= i < source.len() && #[trigger] refused_at(start, source, manifest, options, i)
}

/// The codec does not take the destination of a rewrite: one of the entries
/// of the source, the icon, or the end of the archive.
pub open spec fn rewrite_is_refused(
    source: Seq<(Seq<char>, u64, Seq<u8>, bool)>,
    manifest: Seq<u8>,
    icon: Option<Seq<u8>>,
    options: EntryOptions,
) -> bool {
    ||| entries_are_refused(Seq::empty(), source, manifest, options)
    ||| container_among(names_of(source)) matches Some(container) && {
        ||| icon matches Some(image) && file_is_refused(
            rewritten_entries(source, manifest, options.storage()),
            path_in_container(container, ICON_FILE_NAME@),
            image,
            options,
        )
        ||| exists|writer: ArchiveWriter|
            writer@ == destination(source, manifest, icon, container, options.storage())
                && #[trigger] writer.image() is None
    }
}

/// `reports` are `before` and then reports that rise.
pub open spec fn extends(before: Seq<u8>, reports: Seq<u8>) -> bool {
    &&& before.is_prefix_of(reports)
    &&& is_rising(reports.skip(before.len() as int))
}

/// The characters of an optional string.
pub open spec fn option_text(s: Option<String>) -> Option<Seq<char>> {
    match s {
        Some(s) => Some(s@),
        None => None,
    }
}

/// The bytes of an optional buffer.
pub open spec fn option_bytes(bytes: Option<Vec<u8>>) -> Option<Seq<u8>> {
    match bytes {
        Some(bytes) => Some(bytes@),
        None => None,
    }
}

/// Checks that none of the required inputs is empty once trimmed.
pub fn validate(app_name: &str, app_bundle_id: &str, app_version: &str, plist: &str) -> (r: Result<
    (),
    IpaError,
>)
    ensures
        match r {
            Ok(_) => first_blank(app_name@, app_bundle_id@, app_version@, plist@) is None,
            Err(error) => first_blank(app_name@, app_bundle_id@, app_version@, plist@) matches Some(
                field,
            ) && error == IpaError::Validation(field),
        },
{
    if blank(app_name) {
        Err(IpaError::Validation(Field::AppName))
    } else if blank(app_bundle_id) {
        Err(IpaError::Validation(Field::BundleId))
    } else if blank(app_version) {
        Err(IpaError::Validation(Field::Version))
    } else if blank(plist) {
        Err(IpaError::Validation(Field::Manifest))
    } else {
        Ok(())
    }
}

/// The size of the payload: the declared sizes of all entries together.
pub fn payload_size(source: &mut SourceArchive<'_>) -> (r: Result<u64, IpaError>)
    ensures
        final(source)@ == old(source)@,
        match r {
            Ok(total) => total == total_size(old(source)@),
            Err(error) => error is ArchiveEntryRead && has_unreadable(old(source)@) && worded(error),
        },
{
    let n = source.len();
    let mut total: u64 = 0;
    let mut i: usize = 0;
    while i < n
        invariant
            source@ == old(source)@,
            n == source@.len(),
            0 <= i <= n,
            total == total_size(source@.take(i as int)),
        decreases n - i,
    {
        let (_, size) = match source.entry(i) {
            Ok(entry) => entry,
            Err(error) => {
                return Err(error);
            },
        };
        proof {
            assert(source@.take(i + 1).drop_last() =~= source@.take(i as int));
        }
        total = total.saturating_add(size);
        i += 1;
    }
    assert(source@.take(n as int) =~= source@);
    Ok(total)
}

/// Copies what is left to read of an entry to the file that was started
/// last, chunk by chunk. Each chunk is counted as processed, and each new
/// percentage is handed to the sink as it is reached. It fails only where
/// the codec does not read the entry to its end, or refuses a chunk.
pub fn copy_content<F: Fn(u8)>(
    reader: EntryReader<'_, '_>,
    writer: ArchiveWriter,
    progress: &mut Progress,
    sink: &mut ProgressSink<F>,
) -> (r: Result<ArchiveWriter, IpaError>)
    ensures
        final(progress).total() == old(progress).total(),
        old(progress).reports().is_prefix_of(final(progress).reports()),
        final(sink).reports() == old(sink).reports() + added(
            old(progress).reports(),
            final(progress).reports(),
        ),
        final(sink).callback() == old(sink).callback(),
        final(progress).reports().is_prefix_of(
            after_chunks(
                old(progress).state(),
                old(progress).total(),
                reader.rest().len(),
                CHUNK_SIZE as nat,
            ).1,
        ),
        match r {
            Ok(after) => {
                &&& reader.rest().len() > 0 ==> writer@.len() > 0
                &&& after@ == written(writer@, reader.rest())
                &&& final(progress).state() == after_chunks(
                    old(progress).state(),
                    old(progress).total(),
                    reader.rest().len(),
                    CHUNK_SIZE as nat,
                )
            },
            Err(error) => worded(error) && match error {
                IpaError::ArchiveEntryRead(_) => !reader.sound(),
                IpaError::ArchiveWrite(_) => content_is_refused(writer@, reader.rest()),
                _ => false,
            },
        },
{
    let ghost content = reader.rest();
    let ghost sound = reader.sound();
    let ghost start = writer@;
    let ghost reports = progress.reports();
    let ghost handed = sink.reports();
    let ghost state = progress.state();
    let ghost total = progress.total();
    let mut from = reader;
    let mut into = writer;
    let ghost mut copied = Seq::<u8>::empty();
    proof {
        lemma_added_nothing(handed, reports);
    }
    loop
        invariant
            copied.len() > 0 ==> start.len() > 0,
            start == writer@,
            content == reader.rest(),
            sound == reader.sound(),
            into@ == written(start, copied),
            content == copied + from.rest(),
            sound == from.sound(),
            progress.total() == total,
            total == old(progress).total(),
            reports == old(progress).reports(),
            handed == old(sink).reports(),
            sink.callback() == old(sink).callback(),
            state == old(progress).state(),
            reports.is_prefix_of(progress.reports()),
            sink.reports() == handed + added(reports, progress.reports()),
            after_chunks(progress.state(), total, from.rest().len(), CHUNK_SIZE as nat)
                == after_chunks(state, total, content.len(), CHUNK_SIZE as nat),
        ensures
            content.len() > 0 ==> start.len() > 0,
            into@ == written(start, content),
            progress.state() == after_chunks(state, total, content.len(), CHUNK_SIZE as nat),
        decreases from.rest().len(),
    {
        proof {
            lemma_chunks_extend(progress.state(), total, from.rest().len(), CHUNK_SIZE as nat);
        }
        let chunk = match from.next_chunk(CHUNK_SIZE) {
            Ok(chunk) => chunk,
            Err(error) => {
                return Err(error);
            },
        };
        if chunk.len() == 0 {
            break;
        }
        let ghost held = into@;
        let ghost holder = into;
        into = match into.write(chunk.as_slice()) {
            Ok(after) => after,
            Err(error) => {
                proof {
                    assert(copied + chunk@ =~= content.take((copied.len() + chunk@.len()) as int));
                    assert(holder@ == written(start, copied) && write_refused(holder, chunk@));
                }
                return Err(error);
            },
        };
        let ghost before = progress.reports();
        let ghost left = chunk@.len() + from.rest().len();
        let ghost was = progress.state();
        match progress.advance(chunk.len() as u64) {
            Some(percent) => {
                sink.report(percent);
                proof {
                    lemma_added_one(handed, reports, before, percent);
                }
            },
            None => {},
        }
        proof {
            assert(after_chunks(was, total, left, CHUNK_SIZE as nat) == after_chunks(
                progress.state(),
                total,
                from.rest().len(),
                CHUNK_SIZE as nat,
            ));
            assert(written(held, chunk@) =~= written(start, copied + chunk@)) by {
                assert((start.last().1 + copied) + chunk@ =~= start.last().1 + (copied + chunk@));
            }
            copied = copied + chunk@;
        }
    }
    Ok(into)
}

/// A codec that refuses all of a content at once refuses a part of it.
proof fn lemma_refused_whole(writer: ArchiveWriter, content: Seq<u8>)
    requires
        write_refused(writer, content),
    ensures
        content_is_refused(writer@, content),
{
    let copied = Seq::<u8>::empty();
    assert((copied + content) =~= content);
    assert(writer@ == written(writer@, copied) && write_refused(writer, content));
}

/// Nothing was added to reports that did not change.
proof fn lemma_added_nothing(handed: Seq<u8>, reports: Seq<u8>)
    ensures
        reports.is_prefix_of(reports),
        handed + added(reports, reports) == handed,
{
}

/// A report that is added to the reports is added to what was added before.
proof fn lemma_added_one(handed: Seq<u8>, start: Seq<u8>, reports: Seq<u8>, percent: u8)
    requires
        start.is_prefix_of(reports),
    ensures
        start.is_prefix_of(reports.push(percent)),
        (handed + added(start, reports)).push(percent) == handed + added(
            start,
            reports.push(percent),
        ),
{
    assert((handed + added(start, reports)).push(percent) =~= handed + added(
        start,
        reports.push(percent),
    ));
}

/// What was added along a chain is what was added on its two parts.
proof fn lemma_added_chain(first: Seq<u8>, second: Seq<u8>, third: Seq<u8>)
    requires
        first.is_prefix_of(second),
        second.is_prefix_of(third),
    ensures
        first.is_prefix_of(third),
        added(first, second) + added(second, third) == added(first, third),
{
}

/// Writes the entries of the source to the destination, each rewritten as
/// it has to be, and tells the container that the manifest lies in. It fails
/// only where the codec cannot read an entry of the source, or does not take
/// one into the destination.
pub fn copy_entries<F: Fn(u8)>(
    source: &mut SourceArchive<'_>,
    writer: ArchiveWriter,
    manifest: &[u8],
    options: &EntryOptions,
    progress: &mut Progress,
    sink: &mut ProgressSink<F>,
) -> (r: Result<(ArchiveWriter, Option<String>), IpaError>)
    ensures
        final(source)@ == old(source)@,
        final(progress).total() == old(progress).total(),
        old(progress).reports().is_prefix_of(final(progress).reports()),
        final(sink).reports() == old(sink).reports() + added(
            old(progress).reports(),
            final(progress).reports(),
        ),
        final(sink).callback() == old(sink).callback(),
        final(progress).reports().is_prefix_of(
            after_entries(old(progress).state(), old(progress).total(), old(source)@).1,
        ),
        match r {
            Ok((after, container)) => {
                &&& after@ == writer@ + rewritten_entries(old(source)@, manifest@, options.storage())
                &&& option_text(container) == container_among(names_of(old(source)@))
                &&& final(progress).state() == after_entries(
                    old(progress).state(),
                    old(progress).total(),
                    old(source)@,
                )
            },
            Err(error) => worded(error) && match error {
                IpaError::ArchiveEntryRead(_) => has_unreadable(old(source)@),
                IpaError::ArchiveWrite(_) => entries_are_refused(
                    writer@,
                    old(source)@,
                    manifest@,
                    *options,
                ),
                _ => false,
            },
        },
{
    let ghost entries = source@;
    let ghost start = writer@;
    let ghost reports = progress.reports();
    let ghost handed = sink.reports();
    let ghost state = progress.state();
    let ghost total = progress.total();
    let ghost storage = options.storage();
    proof {
        lemma_added_nothing(handed, reports);
    }
    let n = source.len();
    let mut into = writer;
    let mut container: Option<String> = None;
    let mut i: usize = 0;
    while i < n
        invariant
            source@ == entries,
            entries == old(source)@,
            n == entries.len(),
            0 <= i <= n,
            storage == options.storage(),
            start == writer@,
            into@ == start + rewritten_entries(entries.take(i as int), manifest@, storage),
            option_text(container) == container_among(names_of(entries).take(i as int)),
            progress.total() == total,
            total == old(progress).total(),
            reports == old(progress).reports(),
            handed == old(sink).reports(),
            sink.callback() == old(sink).callback(),
            state == old(progress).state(),
            reports.is_prefix_of(progress.reports()),
            sink.reports() == handed + added(reports, progress.reports()),
            progress.state() == after_entries(state, total, entries.take(i as int)),
        decreases n - i,
    {
        let (name, size, reader) = match source.open_entry(i) {
            Ok(entry) => entry,
            Err(error) => {
                proof {
                    assert(!entries[i as int].3);
                    lemma_entries_extend(state, total, entries, i as int);
                }
                return Err(error);
            },
        };
        let ghost so_far = into@;
        let ghost holder = into;
        let ghost entry = entries[i as int];
        let ghost reported = progress.reports();
        proof {
            assert(entries.take(i + 1).drop_last() =~= entries.take(i as int));
            assert(names_of(entries).take(i + 1).drop_last() =~= names_of(entries).take(i as int));
            assert(rewritten_entries(entries.take(i + 1), manifest@, storage) =~= rewritten_entries(
                entries.take(i as int),
                manifest@,
                storage,
            ).push(rewritten_entry(entry, manifest@, storage)));
            lemma_directory_or_manifest(name@);
            lemma_entries_extend(state, total, entries, i as int);
            lemma_entries_extend(state, total, entries, i + 1);
        }
        if directory_name(name.as_str()) {
            into = match into.add_directory(name.as_str(), options) {
                Ok(after) => after,
                Err(error) => {
                    assert(refused_at(start, entries, manifest@, *options, i as int)) by {
                        assert(holder@ == so_far && directory_fails(holder, name@, *options));
                    }
                    return Err(error);
                },
            };
            progress.skip(size);
        } else {
            into = match into.start_file(name.as_str(), options) {
                Ok(after) => after,
                Err(error) => {
                    assert(refused_at(start, entries, manifest@, *options, i as int)) by {
                        assert(holder@ == so_far && start_fails(holder, name@, *options));
                    }
                    return Err(error);
                },
            };
            let ghost started = into;
            if manifest_path(name.as_str()) {
                container = container_name(name.as_str());
                into = match into.write(manifest) {
                    Ok(after) => after,
                    Err(error) => {
                        assert(refused_at(start, entries, manifest@, *options, i as int)) by {
                            lemma_refused_whole(started, manifest@);
                        }
                        return Err(error);
                    },
                };
                assert(into@ =~= so_far.push((entry.0, manifest@, storage))) by {
                    assert(Seq::<u8>::empty() + manifest@ =~= manifest@);
                }
            } else {
                let copied = copy_content(reader, into, progress, sink);
                proof {
                    lemma_added_chain(reports, reported, progress.reports());
                    assert((handed + added(reports, reported)) + added(reported, progress.reports())
                        =~= handed + (added(reports, reported) + added(
                        reported,
                        progress.reports(),
                    )));
                }
                into = match copied {
                    Ok(after) => after,
                    Err(error) => {
                        proof {
                            if error is ArchiveWrite {
                                assert(refused_at(start, entries, manifest@, *options, i as int));
                            } else {
                                assert(!entries[i as int].3);
                            }
                        }
                        return Err(error);
                    },
                };
                assert(into@ =~= so_far.push((entry.0, entry.2, storage))) by {
                    assert(Seq::<u8>::empty() + entry.2 =~= entry.2);
                }
            }
        }
        i += 1;
    }
    assert(entries.take(n as int) =~= entries);
    assert(names_of(entries).take(n as int) =~= names_of(entries));
    Ok((into, container))
}

/// The message for an icon that cannot be converted.
pub const ICON_FAILED: &'static str = "Failed to convert icon3";

/// Brings the icon of a rewrite into the canonical format, where there is
/// one.
pub fn prepare_icon(icon_bytes: &[u8]) -> (r: Result<Option<Vec<u8>>, IpaError>)
    ensures
        match r {
            Ok(Some(image)) => icon_bytes@.len() > 0 && normalized(icon_bytes@) == Some(image@),
            Ok(None) => icon_bytes@.len() == 0,
            Err(error) => icon_bytes@.len() > 0 && normalized(icon_bytes@) is None
                && error is IconConversion && says(error, ICON_FAILED@),
        },
{
    if icon_bytes.len() > 0 {
        match convert_icon_to_png(icon_bytes) {
            Ok(image) => Ok(Some(image)),
            Err(cause) => Err(
                IpaError::IconConversion(describe(ICON_FAILED, cause.message().as_str())),
            ),
        }
    } else {
        Ok(None)
    }
}

/// The rewrite came to the end of the entries of the source: it succeeded,
/// or it failed for want of a container.
pub open spec fn came_to_the_end(r: Result<Vec<u8>, IpaError>) -> bool {
    match r {
        Ok(_) => true,
        Err(error) => error is ContainerNotFound,
    }
}

/// What a rewrite returns for a plan: nothing but the failure where the plan
/// is one; else the finished destination, unless the archive holds no
/// container, the codec cannot read an entry of the source, or it does not
/// take the destination.
pub open spec fn fulfils(plan: Plan, r: Result<Vec<u8>, IpaError>) -> bool {
    match plan {
        Plan::Invalid(field) => r matches Err(error) && error == IpaError::Validation(field),
        Plan::IconRefused => r matches Err(error) && error is IconConversion && says(
            error,
            ICON_FAILED@,
        ),
        Plan::ManifestUnreadable => r matches Err(error) && error is ManifestParse,
        Plan::ManifestUnwritable => r matches Err(error) && error is ManifestWrite,
        Plan::SourceUnreadable => r matches Err(error) && error is ArchiveParse,
        Plan::Rewrite { source, manifest, icon, storage } => rewrites(source, manifest, icon, storage, r),
    }
}

/// The codec does not take the destination of a rewrite with options of
/// this compression level and these permissions.
pub open spec fn is_refused_as_stored(
    source: Seq<(Seq<char>, u64, Seq<u8>, bool)>,
    manifest: Seq<u8>,
    icon: Option<Seq<u8>>,
    storage: (i64, u32),
) -> bool {
    exists|options: EntryOptions|
        options.storage() == storage && #[trigger] rewrite_is_refused(source, manifest, icon, options)
}

/// What a rewrite of the entries of the source returns: the finished
/// destination, unless the archive holds no container, the codec cannot
/// read an entry of the source, or it does not take the destination.
pub open spec fn rewrites(
    source: Seq<(Seq<char>, u64, Seq<u8>, bool)>,
    manifest: Seq<u8>,
    icon: Option<Seq<u8>>,
    storage: (i64, u32),
    r: Result<Vec<u8>, IpaError>,
) -> bool {
    match r {
        Ok(bytes) => {
            &&& container_among(names_of(source)) matches Some(container)
            &&& exists|writer: ArchiveWriter|
                {
                    &&& #[trigger] writer.image() == Some(bytes@)
                    &&& writer@ == destination(source, manifest, icon, container, storage)
                }
        },
        Err(error) => match error {
            IpaError::ContainerNotFound => container_among(names_of(source)) is None,
            IpaError::ArchiveEntryRead(_) => has_unreadable(source),
            IpaError::ArchiveWrite(_) => is_refused_as_stored(source, manifest, icon, storage),
            _ => false,
        },
    }
}

/// What a rewrite hands to a sink that held `before`: nothing unless it
/// comes to rewrite the entries of the source, and then reports that rise:
/// all of them where it comes to the end of the entries, and the first of
/// them where the codec fails before.
pub open spec fn hands_over(
    plan: Plan,
    r: Result<Vec<u8>, IpaError>,
    before: Seq<u8>,
    after: Seq<u8>,
) -> bool {
    match plan {
        Plan::Rewrite { source, .. } => {
            &&& extends(before, after)
            &&& added(before, after).is_prefix_of(streamed_reports(source))
            &&& came_to_the_end(r) ==> after == before + streamed_reports(source)
        },
        _ => after == before,
    }
}

/// A rewrite of an archive that holds no manifest fails: for want of a
/// container, unless the codec cannot read an entry of the source or does
/// not take one into the destination. Of an archive without entries the
/// codec is asked nothing, so the rewrite fails for want of a container.
pub proof fn lemma_rewrite_needs_manifest(plan: Plan, r: Result<Vec<u8>, IpaError>)
    requires
        fulfils(plan, r),
        plan matches Plan::Rewrite { source, .. } && is_first_manifest(names_of(source), None),
    ensures
        r is Err,
        !has_unreadable(plan->source) && !is_refused_as_stored(
            plan->source,
            plan->manifest,
            plan->icon,
            plan->storage,
        ) ==> r->Err_0 is ContainerNotFound,
        plan->source.len() == 0 ==> r->Err_0 is ContainerNotFound,
{
    lemma_container_needs_manifest(names_of(plan->source));
}

/// A rewrite of an archive that holds a manifest succeeds, unless the codec
/// cannot read an entry of the source or does not take the destination.
pub proof fn lemma_rewrite_succeeds(plan: Plan, r: Result<Vec<u8>, IpaError>)
    requires
        fulfils(plan, r),
        plan matches Plan::Rewrite { source, manifest, icon, storage } && !is_first_manifest(
            names_of(source),
            None,
        ) && !has_unreadable(source) && !is_refused_as_stored(source, manifest, icon, storage),
    ensures
        r is Ok,
{
    lemma_container_needs_manifest(names_of(plan->source));
}

/// Two compression levels with the same nearest level between 1 and 9 make
/// the same plan: a level below 1 is used as 1, one above 9 as 9.
pub proof fn lemma_level_is_clamped(
    zip_file_bytes: Seq<u8>,
    icon_bytes: Seq<u8>,
    plist: Seq<char>,
    edits: Edits,
    first: u8,
    second: u8,
)
    requires
        clamped_level(first) == clamped_level(second),
    ensures
        plan_of(zip_file_bytes, icon_bytes, plist, edits, first) == plan_of(
            zip_file_bytes,
            icon_bytes,
            plist,
            edits,
            second,
        ),
{
}

/// The compression level does not decide how a rewrite ends, where the
/// codec reads every entry of the source and takes the destination at both
/// levels: both rewrites succeed, or both fail with failures of one kind,
/// and both hand the same to the sink.
pub proof fn lemma_levels_agree(
    zip_file_bytes: Seq<u8>,
    icon_bytes: Seq<u8>,
    plist: Seq<char>,
    edits: Edits,
    levels: (u8, u8),
    results: (Result<Vec<u8>, IpaError>, Result<Vec<u8>, IpaError>),
    before: Seq<u8>,
    after: (Seq<u8>, Seq<u8>),
)
    requires
        fulfils(plan_of(zip_file_bytes, icon_bytes, plist, edits, levels.0), results.0),
        fulfils(plan_of(zip_file_bytes, icon_bytes, plist, edits, levels.1), results.1),
        hands_over(
            plan_of(zip_file_bytes, icon_bytes, plist, edits, levels.0),
            results.0,
            before,
            after.0,
        ),
        hands_over(
            plan_of(zip_file_bytes, icon_bytes, plist, edits, levels.1),
            results.1,
            before,
            after.1,
        ),
        plan_of(zip_file_bytes, icon_bytes, plist, edits, levels.0) matches Plan::Rewrite {
            source,
            manifest,
            icon,
            storage,
        } ==> !has_unreadable(source) && !is_refused_as_stored(source, manifest, icon, storage),
        plan_of(zip_file_bytes, icon_bytes, plist, edits, levels.1) matches Plan::Rewrite {
            source,
            manifest,
            icon,
            storage,
        } ==> !is_refused_as_stored(source, manifest, icon, storage),
    ensures
        results.0 is Ok <==> results.1 is Ok,
        results.0 is Err ==> same_kind(results.0->Err_0, results.1->Err_0),
        after.0 == after.1,
{
}

/// How the entries are stored changes neither the names nor the contents
/// of the destination. What is reported does not speak of it at all.
pub proof fn lemma_storage_keeps_content(
    source: Seq<(Seq<char>, u64, Seq<u8>, bool)>,
    manifest: Seq<u8>,
    icon: Option<Seq<u8>>,
    container: Seq<char>,
    first: (i64, u32),
    second: (i64, u32),
    i: int,
)
    requires
        0 <= i < destination(source, manifest, icon, container, first).len(),
    ensures
        destination(source, manifest, icon, container, first).len() == destination(
            source,
            manifest,
            icon,
            container,
            second,
        ).len(),
        destination(source, manifest, icon, container, first)[i].0 == destination(
            source,
            manifest,
            icon,
            container,
            second,
        )[i].0,
        destination(source, manifest, icon, container, first)[i].1 == destination(
            source,
            manifest,
            icon,
            container,
            second,
        )[i].1,
{
}

/// Streams the source into a new archive and finishes it.
fn rewrite<F: Fn(u8)>(
    source: &mut SourceArchive<'_>,
    manifest: &[u8],
    icon: Option<Vec<u8>>,
    options: &EntryOptions,
    progress: &mut Progress,
    sink: &mut ProgressSink<F>,
) -> (r: Result<Vec<u8>, IpaError>)
    ensures
        final(source)@ == old(source)@,
        final(progress).total() == old(progress).total(),
        old(progress).reports().is_prefix_of(final(progress).reports()),
        final(sink).reports() == old(sink).reports() + added(
            old(progress).reports(),
            final(progress).reports(),
        ),
        final(sink).callback() == old(sink).callback(),
        final(progress).reports().is_prefix_of(
            after_entries(old(progress).state(), old(progress).total(), old(source)@).1,
        ),
        rewrites(old(source)@, manifest@, option_bytes(icon), options.storage(), r),
        r matches Err(error) ==> worded(error),
        came_to_the_end(r) ==> final(progress).state() == after_entries(
            old(progress).state(),
            old(progress).total(),
            old(source)@,
        ),
{
    let ghost entries = source@;
    let ghost image = option_bytes(icon);
    let ghost storage = options.storage();
    let (writer, container) = match copy_entries(
        source,
        ArchiveWriter::new(),
        manifest,
        options,
        progress,
        sink,
    ) {
        Ok(copied) => copied,
        Err(error) => {
            proof {
                if error is ArchiveWrite {
                    assert(rewrite_is_refused(entries, manifest@, image, *options));
                }
            }
            return Err(error);
        },
    };
    assert(writer@ =~= rewritten_entries(entries, manifest@, storage));
    let container = match container {
        Some(container) => container,
        None => {
            return Err(IpaError::ContainerNotFound);
        },
    };
    let writer = match icon {
        Some(image) => {
            let path = container_path(container.as_str(), ICON_FILE_NAME);
            let ghost holder = writer;
            let started = match writer.start_file(path.as_str(), options) {
                Ok(after) => after,
                Err(error) => {
                    assert(rewrite_is_refused(entries, manifest@, Some(image@), *options)) by {
                        assert(holder@ == rewritten_entries(entries, manifest@, storage) && start_fails(
                            holder,
                            path@,
                            *options,
                        ));
                    }
                    return Err(error);
                },
            };
            let ghost begun = started;
            let written = match started.write(image.as_slice()) {
                Ok(after) => after,
                Err(error) => {
                    assert(rewrite_is_refused(entries, manifest@, Some(image@), *options)) by {
                        lemma_refused_whole(begun, image@);
                    }
                    return Err(error);
                },
            };
            assert(written@ =~= destination(entries, manifest@, Some(image@), container@, storage)) by {
                assert(Seq::<u8>::empty() + image@ =~= image@);
            }
            written
        },
        None => writer,
    };
    let ghost filled = writer;
    match writer.finish() {
        Ok(bytes) => {
            assert(filled.image() == Some(bytes@));
            Ok(bytes)
        },
        Err(error) => {
            assert(rewrite_is_refused(entries, manifest@, image, *options)) by {
                assert(filled@ == destination(entries, manifest@, image, container@, storage)
                    && filled.image() is None);
            }
            Err(error)
        },
    }
}

/// Rewrites an application archive: sets the name, the bundle identifier
/// and the version of the application in its manifest, makes the optional
/// changes, and adds the icon where one is given. The entries are compressed
/// at the level nearest to `zip_level` between 1 and 9, and get the
/// permissions of the entries of a destination archive. Each percentage of
/// the payload that is reached on the way is handed to the sink at once,
/// and by the sink to its callback; a rewrite that fails before it comes to
/// the entries hands it nothing.
pub fn create<F: Fn(u8)>(
    zip_file_bytes: &[u8],
    icon_bytes: &[u8],
    app_name: String,
    app_bundle_id: String,
    app_version: String,
    plist: String,
    remove_device_limit: bool,
    remove_jump: bool,
    open_file_share: bool,
    zip_level: u8,
    sink: &mut ProgressSink<F>,
) -> (r: Result<Vec<u8>, IpaError>)
    ensures
        fulfils(
            plan_of(
                zip_file_bytes@,
                icon_bytes@,
                plist@,
                Edits {
                    name: app_name@,
                    identifier: app_bundle_id@,
                    version: app_version@,
                    remove_device_limit,
                    remove_jump,
                    open_file_share,
                    replace_icon: icon_bytes@.len() > 0,
                },
                zip_level,
            ),
            r,
        ),
        hands_over(
            plan_of(
                zip_file_bytes@,
                icon_bytes@,
                plist@,
                Edits {
                    name: app_name@,
                    identifier: app_bundle_id@,
                    version: app_version@,
                    remove_device_limit,
                    remove_jump,
                    open_file_share,
                    replace_icon: icon_bytes@.len() > 0,
                },
                zip_level,
            ),
            r,
            old(sink).reports(),
            final(sink).reports(),
        ),
        final(sink).callback() == old(sink).callback(),
        received(final(sink).callback(), final(sink).reports()),
        r matches Err(error) ==> worded(error),
{
    proof {
        use_type_invariant(&*sink);
        sink.lemma_callback_received();
    }
    match validate(app_name.as_str(), app_bundle_id.as_str(), app_version.as_str(), plist.as_str()) {
        Ok(_) => {},
        Err(error) => {
            return Err(error);
        },
    }
    let icon = match prepare_icon(icon_bytes) {
        Ok(icon) => icon,
        Err(error) => {
            return Err(error);
        },
    };
    let document = match parse_manifest(plist.as_str().as_bytes()) {
        Ok(document) => document,
        Err(error) => {
            return Err(error);
        },
    };
    let document = match edit_manifest(
        document,
        app_name,
        app_bundle_id,
        app_version,
        remove_device_limit,
        remove_jump,
        open_file_share,
        icon.is_some(),
    ) {
        Ok(document) => document,
        Err(error) => {
            return Err(error);
        },
    };
    let manifest = match write_manifest(&document) {
        Ok(manifest) => manifest,
        Err(error) => {
            return Err(error);
        },
    };
    let options = EntryOptions::deflate(zip_level);
    let mut source = match SourceArchive::open(zip_file_bytes) {
        Ok(source) => source,
        Err(error) => {
            return Err(error);
        },
    };
    let total = match payload_size(&mut source) {
        Ok(total) => total,
        Err(error) => {
            assert(added(sink.reports(), sink.reports()) =~= Seq::<u8>::empty());
            return Err(error);
        },
    };
    let ghost handed = sink.reports();
    let mut progress = Progress::new(total);
    assert(plan_of(
        zip_file_bytes@,
        icon_bytes@,
        plist@,
        Edits {
            name: app_name@,
            identifier: app_bundle_id@,
            version: app_version@,
            remove_device_limit,
            remove_jump,
            open_file_share,
            replace_icon: icon_bytes@.len() > 0,
        },
        zip_level,
    ) == (Plan::Rewrite {
        source: source@,
        manifest: manifest@,
        icon: option_bytes(icon),
        storage: options.storage(),
    }));
    let r = rewrite(&mut source, manifest.as_slice(), icon, &options, &mut progress, sink);
    proof {
        use_type_invariant(&*sink);
        sink.lemma_callback_received();
        use_type_invariant(&progress);
        progress.lemma_reports_rise();
        assert(added(Seq::<u8>::empty(), progress.reports()) =~= progress.reports());
        assert(added(handed, handed + progress.reports()) =~= progress.reports());
        if came_to_the_end(r) {
            assert(progress.reports() == streamed_reports(source@));
        }
    }
    r
}

} // verus!
