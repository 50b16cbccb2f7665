//! The two archives of a rewrite: the source, whose entries are listed and
//! read one by one, and the destination, which is filled entry by entry.
//!
//! Both are kept by the archive codec. What they hold is named here, and the
//! functions of this file say of each call into the codec what it does to
//! that content; none of these statements is proved.

use vstd::prelude::*;
use vstd::utf8::encode_utf8;
use crate::error::describe;
use crate::error::says;
use crate::error::IpaError;
use crate::text::to_chars;

verus! {

/// The entries of an archive that the codec has opened, in the order of the
/// archive: of each its name, the size that the archive declares for it, its
/// content, which is what reading the entry delivers before it ends or
/// fails, and whether the codec opens the entry and reads it to its end.
pub uninterp spec fn archive_entries(archive: zip::ZipArchive<std::io::Cursor<&[u8]>>) -> Seq<
    (Seq<char>, u64, Seq<u8>, bool),
>;

/// The entries of the archive that the codec reads from `bytes`, or `None`
/// where it refuses them.
pub uninterp spec fn archive_of(bytes: Seq<u8>) -> Option<Seq<(Seq<char>, u64, Seq<u8>, bool)>>;

/// What is left to read of an entry before it ends or fails, and whether
/// the codec reads it to its end.
pub uninterp spec fn reader_rest(reader: EntryReader<'_, '_>) -> (Seq<u8>, bool);

/// The entries that a destination archive holds so far, in the order in
/// which they were started: of each its name, the content written to it, and
/// the compression level and the permissions of the options that it was
/// started with.
pub uninterp spec fn writer_entries(writer: ArchiveWriter) -> Seq<(Seq<char>, Seq<u8>, (i64, u32))>;

/// The codec refuses to add a directory of this name, with these options, to
/// the archive as it is.
pub uninterp spec fn directory_refused(
    writer: ArchiveWriter,
    name: Seq<char>,
    options: EntryOptions,
) -> bool;

/// The codec refuses to start a file of this name, with these options, in
/// the archive as it is: so where the archive holds the name already.
pub uninterp spec fn start_refused(
    writer: ArchiveWriter,
    name: Seq<char>,
    options: EntryOptions,
) -> bool;

/// The codec refuses to write this data to the archive as it is: so where no
/// file was started.
pub uninterp spec fn write_refused(writer: ArchiveWriter, data: Seq<u8>) -> bool;

/// The compression level that entry options were made with.
pub uninterp spec fn options_level(options: EntryOptions) -> i64;

/// The permissions that entry options were made with.
pub uninterp spec fn options_mode(options: EntryOptions) -> u32;

/// The bytes of a destination archive once it is finished, or `None` where
/// the codec fails to finish it.
pub uninterp spec fn finished_archive(writer: ArchiveWriter) -> Option<Seq<u8>>;

/// The name under which the codec stores a directory: the name itself where
/// it ends with a separator, else the name and a separator.
pub open spec fn directory_entry_name(name: Seq<char>) -> Seq<char> {
    if name.len() > 0 && (name.last() == '/' || name.last() == '\\') {
        name
    } else {
        name + "/"@
    }
}

/// The largest number of bytes that the name of an entry may have.
pub const NAME_LIMIT: usize = 65535;

/// The codec can store a file under `name`: the name is short enough.
pub open spec fn is_file_name(name: Seq<char>) -> bool {
    encode_utf8(name).len() <= NAME_LIMIT
}

/// The codec can store a directory under `name`: the name is short enough,
/// the separator that the codec adds to it counted in.
pub open spec fn is_directory_entry_name(name: Seq<char>) -> bool {
    &&& is_file_name(name)
    &&& encode_utf8(name).len() == NAME_LIMIT ==> directory_entry_name(name) == name
}

/// The codec cannot take a file of this name: the name is too long, or the
/// codec refuses it.
pub open spec fn start_fails(writer: ArchiveWriter, name: Seq<char>, options: EntryOptions) -> bool {
    !is_file_name(name) || start_refused(writer, name, options)
}

/// The codec cannot take a directory of this name: the name is too long, or
/// the codec refuses it.
pub open spec fn directory_fails(
    writer: ArchiveWriter,
    name: Seq<char>,
    options: EntryOptions,
) -> bool {
    !is_directory_entry_name(name) || directory_refused(writer, name, options)
}

/// `entries` with `data` added to the content of the last of them.
pub open spec fn appended(entries: Seq<(Seq<char>, Seq<u8>, (i64, u32))>, data: Seq<u8>) -> Seq<
    (Seq<char>, Seq<u8>, (i64, u32)),
> {
    entries.drop_last().push((entries.last().0, entries.last().1 + data, entries.last().2))
}

/// `entries` after `data` is written: added to the content of the last of
/// them, where there is any data.
pub open spec fn written(entries: Seq<(Seq<char>, Seq<u8>, (i64, u32))>, data: Seq<u8>) -> Seq<
    (Seq<char>, Seq<u8>, (i64, u32)),
> {
    if data.len() == 0 {
        entries
    } else {
        appended(entries, data)
    }
}

/// An entry of the source archive that is open for reading: the codec's
/// `zip::read::ZipFile`, of whose inside nothing is known here.
#[verifier::external_body]
pub struct EntryReader<'a, 'b> {
    inner: zip::read::ZipFile<'a, std::io::Cursor<&'b [u8]>>,
}

/// A destination archive that is being filled: the codec's
/// `zip::ZipWriter` over a buffer, of whose inside nothing is known here.
#[verifier::external_body]
pub struct ArchiveWriter {
    inner: zip::ZipWriter<std::io::Cursor<Vec<u8>>>,
}

/// How the entries of a destination archive are stored: the codec's
/// `zip::write::SimpleFileOptions`, of whose inside nothing is known here.
#[verifier::external_body]
pub struct EntryOptions {
    inner: zip::write::SimpleFileOptions,
}

/// `zip::ZipArchive::new` on a cursor over `bytes`: the archive that it
/// reads holds the entries that `archive_of` names for these bytes, and it
/// fails where `archive_of` names none.
#[verifier::external_body]
fn zip_open<'a>(bytes: &'a [u8]) -> (r: Result<
    zip::ZipArchive<std::io::Cursor<&'a [u8]>>,
    zip::result::ZipError,
>)
    ensures
        match r {
            Ok(archive) => archive_of(bytes@) == Some(archive_entries(archive)),
            Err(_) => archive_of(bytes@) is None,
        },
{
    zip::ZipArchive::new(std::io::Cursor::new(bytes))
}

/// `zip::ZipArchive::len`: the number of entries.
#[verifier::external_body]
fn zip_len(archive: &zip::ZipArchive<std::io::Cursor<&[u8]>>) -> (n: usize)
    ensures
        n == archive_entries(*archive).len(),
{
    archive.len()
}

/// `zip::ZipArchive::by_index`, then `zip::read::ZipFile::name` and `size`:
/// where the entry opens, these are its name and its declared size, and all
/// of its content is left to read. It does not open only where there is no
/// such entry, or the entry is one that the codec cannot open and read. The
/// archive holds the same entries once the reader is gone.
#[verifier::external_body]
fn zip_open_entry<'a, 'b>(
    archive: &'a mut zip::ZipArchive<std::io::Cursor<&'b [u8]>>,
    index: usize,
) -> (r: Result<(String, u64, EntryReader<'a, 'b>), zip::result::ZipError>)
    ensures
        archive_entries(*final(archive)) == archive_entries(*old(archive)),
        match r {
            Ok((name, size, reader)) => {
                &&& index < archive_entries(*old(archive)).len()
                &&& name@ == archive_entries(*old(archive))[index as int].0
                &&& size == archive_entries(*old(archive))[index as int].1
                &&& reader_rest(reader).0 == archive_entries(*old(archive))[index as int].2
                &&& reader_rest(reader).1 == archive_entries(*old(archive))[index as int].3
            },
            Err(_) => index < archive_entries(*old(archive)).len() ==> !archive_entries(
                *old(archive),
            )[index as int].3,
        },
{
    let file = archive.by_index(index)?;
    Ok((file.name().to_string(), file.size(), EntryReader { inner: file }))
}

/// `std::io::Read::read_to_end` on the entry, limited to `limit` bytes by
/// `std::io::Read::take`: the chunk is the start of what was left to read,
/// `limit` bytes of it at most, and fewer only where the entry has come to
/// its end. It fails only on an entry that the codec does not read to its
/// end.
#[verifier::external_body]
fn zip_read_chunk(reader: &mut EntryReader<'_, '_>, limit: usize) -> (r: Result<
    Vec<u8>,
    std::io::Error,
>)
    ensures
        match r {
            Ok(chunk) => {
                &&& chunk@.len() <= limit
                &&& reader_rest(*old(reader)).0 == chunk@ + reader_rest(*final(reader)).0
                &&& reader_rest(*final(reader)).1 == reader_rest(*old(reader)).1
                &&& chunk@.len() < limit ==> reader_rest(*final(reader)).0.len() == 0
                    && reader_rest(*old(reader)).1
            },
            Err(_) => !reader_rest(*old(reader)).1,
        },
{
    let mut chunk = Vec::new();
    std::io::Read::read_to_end(
        &mut std::io::Read::take(&mut reader.inner, limit as u64),
        &mut chunk,
    )?;
    Ok(chunk)
}

/// `zip::write::SimpleFileOptions::default` with the deflate method, the
/// compression level `level` and the permissions `mode`: options made with
/// this level, and with the nine permission bits of `mode`, which are all
/// that the codec keeps.
#[verifier::external_body]
fn zip_deflate_options(level: i64, mode: u32) -> (options: EntryOptions)
    ensures
        options_level(options) == level,
        options_mode(options) == mode & 0o777,
{
    EntryOptions {
        inner: zip::write::SimpleFileOptions::default().compression_method(
            zip::CompressionMethod::DEFLATE,
        ).compression_level(Some(level)).unix_permissions(mode),
    }
}

/// `zip::ZipWriter::new` on a cursor over an empty buffer: an archive
/// without entries.
#[verifier::external_body]
fn zip_writer_new() -> (writer: ArchiveWriter)
    ensures
        writer_entries(writer) == Seq::<(Seq<char>, Seq<u8>, (i64, u32))>::empty(),
{
    ArchiveWriter { inner: zip::ZipWriter::new(std::io::Cursor::new(Vec::new())) }
}

/// `zip::ZipWriter::add_directory`: it succeeds unless the codec refuses the
/// directory, and then the archive holds one more entry, without content,
/// under the name that the codec gives a directory. The codec does not
/// return for a name of more bytes than a name may have.
#[verifier::external_body]
fn zip_add_directory(writer: ArchiveWriter, name: &str, options: &EntryOptions) -> (r: Result<
    ArchiveWriter,
    zip::result::ZipError,
>)
    requires
        is_directory_entry_name(name@),
    ensures
        match r {
            Ok(after) => !directory_refused(writer, name@, *options) && writer_entries(after)
                == writer_entries(writer).push(
                (
                    directory_entry_name(name@),
                    Seq::empty(),
                    (options_level(*options), options_mode(*options)),
                ),
            ),
            Err(_) => directory_refused(writer, name@, *options),
        },
{
    let mut writer = writer;
    writer.inner.add_directory(name, options.inner)?;
    Ok(writer)
}

/// `zip::ZipWriter::start_file`: it succeeds unless the codec refuses the
/// file, and then the archive holds one more entry, with this name and no
/// content yet. The codec does not return for a name of more bytes than a
/// name may have.
#[verifier::external_body]
fn zip_start_file(writer: ArchiveWriter, name: &str, options: &EntryOptions) -> (r: Result<
    ArchiveWriter,
    zip::result::ZipError,
>)
    requires
        is_file_name(name@),
    ensures
        match r {
            Ok(after) => !start_refused(writer, name@, *options) && writer_entries(after)
                == writer_entries(writer).push(
                (name@, Seq::empty(), (options_level(*options), options_mode(*options))),
            ),
            Err(_) => start_refused(writer, name@, *options),
        },
{
    let mut writer = writer;
    writer.inner.start_file(name, options.inner)?;
    Ok(writer)
}

/// `std::io::Write::write_all` on the archive: it succeeds unless the codec
/// refuses the data. Where it succeeds with data to write, a file was
/// started, and `data` is added to the content of the entry that was started
/// last. Without data nothing changes.
#[verifier::external_body]
fn zip_write(writer: ArchiveWriter, data: &[u8]) -> (r: Result<ArchiveWriter, std::io::Error>)
    ensures
        match r {
            Ok(after) => {
                &&& !write_refused(writer, data@)
                &&& data@.len() > 0 ==> writer_entries(writer).len() > 0
                &&& writer_entries(after) == written(writer_entries(writer), data@)
            },
            Err(_) => write_refused(writer, data@),
        },
{
    let mut writer = writer;
    std::io::Write::write_all(&mut writer.inner, data)?;
    Ok(writer)
}

/// `zip::ZipWriter::finish`, then `std::io::Cursor::into_inner`: the bytes
/// of the finished archive, which the archive as it was filled determines.
#[verifier::external_body]
fn zip_finish(writer: ArchiveWriter) -> (r: Result<Vec<u8>, zip::result::ZipError>)
    ensures
        match r {
            Ok(bytes) => finished_archive(writer) == Some(bytes@),
            Err(_) => finished_archive(writer) is None,
        },
{
    Ok(writer.inner.finish()?.into_inner())
}

/// The largest number of bytes of an entry that are held at once while it
/// is copied.
pub const CHUNK_SIZE: usize = 8388608;

/// The permissions of the entries of a destination archive.
pub const ENTRY_MODE: u32 = 0o755;

/// Why a name is refused.
pub const TOO_LONG: &'static str = "the name is longer than 65535 bytes";

/// The compression level that is used for `level`: the nearest one between
/// 1 and 9.
pub open spec fn clamped_level(level: u8) -> u8 {
    if level < 1 {
        1
    } else if level > 9 {
        9
    } else {
        level
    }
}

/// The compression level that is used for `level`.
pub fn clamp_level(level: u8) -> (r: u8)
    ensures
        r == clamped_level(level),
        1 <= r <= 9,
{
    if level < 1 {
        1
    } else if level > 9 {
        9
    } else {
        level
    }
}

/// The names of entries, in order.
pub open spec fn names_of(entries: Seq<(Seq<char>, u64, Seq<u8>, bool)>) -> Seq<Seq<char>> {
    Seq::new(entries.len(), |i: int| entries[i].0)
}

/// The archive holds an entry that the codec cannot open, or not read to its
/// end.
pub open spec fn has_unreadable(entries: Seq<(Seq<char>, u64, Seq<u8>, bool)>) -> bool {
    exists|i: int| 0 <= i < entries.len() && !(#[trigger] entries[i]).3
}

/// A source archive: the entries of an archive that was opened for reading.
pub struct SourceArchive<'a> {
    inner: zip::ZipArchive<std::io::Cursor<&'a [u8]>>,
}

impl<'a> View for SourceArchive<'a> {
    type V = Seq<(Seq<char>, u64, Seq<u8>, bool)>;

    closed spec fn view(&self) -> Seq<(Seq<char>, u64, Seq<u8>, bool)> {
        archive_entries(self.inner)
    }
}

impl<'a> SourceArchive<'a> {
    /// Opens the archive that `bytes` hold.
    pub fn open(bytes: &'a [u8]) -> (r: Result<SourceArchive<'a>, IpaError>)
        ensures
            match r {
                Ok(archive) => archive_of(bytes@) == Some(archive@),
                Err(error) => archive_of(bytes@) is None && error is ArchiveParse && says(
                    error,
                    "Failed to parse zip"@,
                ),
            },
    {
        match zip_open(bytes) {
            Ok(inner) => Ok(SourceArchive { inner }),
            Err(cause) => Err(
                IpaError::ArchiveParse(describe("Failed to parse zip", cause.to_string().as_str())),
            ),
        }
    }

    /// The number of entries.
    pub fn len(&self) -> (n: usize)
        ensures
            n == self@.len(),
    {
        zip_len(&self.inner)
    }

    /// Opens the entry at `index`: its name, its declared size, and a reader
    /// of its content. It fails only where there is no such entry, or the
    /// entry is one that the codec cannot open and read.
    pub fn open_entry<'s>(&'s mut self, index: usize) -> (r: Result<
        (String, u64, EntryReader<'s, 'a>),
        IpaError,
    >)
        ensures
            final(self)@ == old(self)@,
            match r {
                Ok((name, size, reader)) => {
                    &&& index < old(self)@.len()
                    &&& name@ == old(self)@[index as int].0
                    &&& size == old(self)@[index as int].1
                    &&& reader.rest() == old(self)@[index as int].2
                    &&& reader.sound() == old(self)@[index as int].3
                },
                Err(error) => {
                    &&& index < old(self)@.len() ==> !old(self)@[index as int].3
                    &&& error is ArchiveEntryRead
                    &&& says(error, "Failed to read file"@)
                },
            },
    {
        match zip_open_entry(&mut self.inner, index) {
            Ok(entry) => Ok(entry),
            Err(cause) => Err(
                IpaError::ArchiveEntryRead(
                    describe("Failed to read file", cause.to_string().as_str()),
                ),
            ),
        }
    }

    /// The name and the declared size of the entry at `index`.
    pub fn entry(&mut self, index: usize) -> (r: Result<(String, u64), IpaError>)
        ensures
            final(self)@ == old(self)@,
            match r {
                Ok((name, size)) => {
                    &&& index < old(self)@.len()
                    &&& name@ == old(self)@[index as int].0
                    &&& size == old(self)@[index as int].1
                },
                Err(error) => {
                    &&& index < old(self)@.len() ==> !old(self)@[index as int].3
                    &&& error is ArchiveEntryRead
                    &&& says(error, "Failed to read file"@)
                },
            },
    {
        match self.open_entry(index) {
            Ok((name, size, _)) => Ok((name, size)),
            Err(error) => Err(error),
        }
    }

    /// The whole content of the entry at `index`. It fails only where there
    /// is no such entry, or the entry is one that the codec cannot open and
    /// read to its end.
    pub fn read(&mut self, index: usize) -> (r: Result<Vec<u8>, IpaError>)
        ensures
            final(self)@ == old(self)@,
            match r {
                Ok(content) => {
                    &&& index < old(self)@.len()
                    &&& content@ == old(self)@[index as int].2
                    &&& old(self)@[index as int].3
                },
                Err(error) => {
                    &&& index < old(self)@.len() ==> !old(self)@[index as int].3
                    &&& error is ArchiveEntryRead
                    &&& says(error, "Failed to read file"@)
                },
            },
    {
        let ghost entries = self@;
        let (_, _, mut reader) = match self.open_entry(index) {
            Ok(entry) => entry,
            Err(error) => {
                return Err(error);
            },
        };
        let mut content: Vec<u8> = Vec::new();
        loop
            invariant
                index < entries.len(),
                entries[index as int].2 == content@ + reader.rest(),
                entries[index as int].3 == reader.sound(),
                after_borrow(*self)@ == entries,
                entries == old(self)@,
            ensures
                content@ == entries[index as int].2,
                entries[index as int].3,
            decreases reader.rest().len(),
        {
            let chunk = match reader.next_chunk(CHUNK_SIZE) {
                Ok(chunk) => chunk,
                Err(error) => {
                    return Err(error);
                },
            };
            if chunk.len() == 0 {
                break;
            }
            content.extend_from_slice(chunk.as_slice());
        }
        Ok(content)
    }
}

impl<'a, 'b> EntryReader<'a, 'b> {
    /// What is left to read of the entry before it ends or fails.
    pub closed spec fn rest(&self) -> Seq<u8> {
        reader_rest(*self).0
    }

    /// The codec reads the entry to its end.
    pub closed spec fn sound(&self) -> bool {
        reader_rest(*self).1
    }

    /// The next bytes of the entry, `limit` of them at most, and fewer only
    /// where they are the last. An empty chunk is the end of the entry. It
    /// fails only on an entry that the codec does not read to its end.
    pub fn next_chunk(&mut self, limit: usize) -> (r: Result<Vec<u8>, IpaError>)
        ensures
            match r {
                Ok(chunk) => {
                    &&& chunk@.len() <= limit
                    &&& old(self).rest() == chunk@ + final(self).rest()
                    &&& final(self).sound() == old(self).sound()
                    &&& chunk@.len() < limit ==> final(self).rest().len() == 0 && old(self).sound()
                },
                Err(error) => {
                    &&& !old(self).sound()
                    &&& error is ArchiveEntryRead
                    &&& says(error, "Failed to read file"@)
                },
            },
    {
        match zip_read_chunk(self, limit) {
            Ok(chunk) => Ok(chunk),
            Err(cause) => Err(
                IpaError::ArchiveEntryRead(
                    describe("Failed to read file", cause.to_string().as_str()),
                ),
            ),
        }
    }
}

impl EntryOptions {
    /// The compression level of the options.
    pub closed spec fn level(&self) -> i64 {
        options_level(*self)
    }

    /// The permissions of the options.
    pub closed spec fn mode(&self) -> u32 {
        options_mode(*self)
    }

    /// How an entry that is started with the options is stored: at their
    /// compression level, with their permissions.
    pub open spec fn storage(&self) -> (i64, u32) {
        (self.level(), self.mode())
    }

    /// Deflate at the level nearest to `level` between 1 and 9, with the
    /// permissions of the entries of a destination archive.
    pub fn deflate(level: u8) -> (options: EntryOptions)
        ensures
            options.level() == clamped_level(level),
            options.mode() == ENTRY_MODE,
    {
        assert(0o755u32 & 0o777u32 == 0o755u32) by (bit_vector);
        zip_deflate_options(clamp_level(level) as i64, ENTRY_MODE)
    }
}

impl View for ArchiveWriter {
    type V = Seq<(Seq<char>, Seq<u8>, (i64, u32))>;

    closed spec fn view(&self) -> Seq<(Seq<char>, Seq<u8>, (i64, u32))> {
        writer_entries(*self)
    }
}

impl ArchiveWriter {
    /// The bytes of the archive once it is finished, where it can be.
    pub closed spec fn image(&self) -> Option<Seq<u8>> {
        finished_archive(*self)
    }

    /// A destination archive without entries.
    pub fn new() -> (writer: ArchiveWriter)
        ensures
            writer@ == Seq::<(Seq<char>, Seq<u8>, (i64, u32))>::empty(),
    {
        zip_writer_new()
    }

    /// Adds a directory. It fails only where the name is too long for a
    /// directory, or the codec refuses the directory.
    pub fn add_directory(self, name: &str, options: &EntryOptions) -> (r: Result<
        ArchiveWriter,
        IpaError,
    >)
        ensures
            match r {
                Ok(after) => !directory_fails(self, name@, *options) && after@ == self@.push(
                    (directory_entry_name(name@), Seq::empty(), options.storage()),
                ),
                Err(error) => {
                    &&& directory_fails(self, name@, *options)
                    &&& error is ArchiveWrite
                    &&& says(error, "Failed to add directory"@)
                },
            },
    {
        let length = name.as_bytes().len();
        let chars = to_chars(name);
        let separated = chars.len() > 0 && (chars[chars.len() - 1] == '/' || chars[chars.len() - 1]
            == '\\');
        if length > NAME_LIMIT || (length == NAME_LIMIT && !separated) {
            proof {
                reveal_strlit("/");
                assert((name@ + "/"@).len() == name@.len() + 1);
            }
            return Err(IpaError::ArchiveWrite(describe("Failed to add directory", TOO_LONG)));
        }
        match zip_add_directory(self, name, options) {
            Ok(after) => Ok(after),
            Err(cause) => Err(
                IpaError::ArchiveWrite(
                    describe("Failed to add directory", cause.to_string().as_str()),
                ),
            ),
        }
    }

    /// Starts a file. What is written next is its content. It fails only
    /// where the name is too long, or the codec refuses the file.
    pub fn start_file(self, name: &str, options: &EntryOptions) -> (r: Result<
        ArchiveWriter,
        IpaError,
    >)
        ensures
            match r {
                Ok(after) => !start_fails(self, name@, *options) && after@ == self@.push(
                    (name@, Seq::empty(), options.storage()),
                ),
                Err(error) => {
                    &&& start_fails(self, name@, *options)
                    &&& error is ArchiveWrite
                    &&& says(error, "Failed to start file"@)
                },
            },
    {
        if name.as_bytes().len() > NAME_LIMIT {
            return Err(IpaError::ArchiveWrite(describe("Failed to start file", TOO_LONG)));
        }
        match zip_start_file(self, name, options) {
            Ok(after) => Ok(after),
            Err(cause) => Err(
                IpaError::ArchiveWrite(describe("Failed to start file", cause.to_string().as_str())),
            ),
        }
    }

    /// Adds `data` to the content of the file that was started last. It
    /// fails only where the codec refuses the data.
    pub fn write(self, data: &[u8]) -> (r: Result<ArchiveWriter, IpaError>)
        ensures
            match r {
                Ok(after) => {
                    &&& !write_refused(self, data@)
                    &&& data@.len() > 0 ==> self@.len() > 0
                    &&& after@ == written(self@, data@)
                },
                Err(error) => {
                    &&& write_refused(self, data@)
                    &&& error is ArchiveWrite
                    &&& says(error, "Failed to write file"@)
                },
            },
    {
        match zip_write(self, data) {
            Ok(after) => Ok(after),
            Err(cause) => Err(
                IpaError::ArchiveWrite(describe("Failed to write file", cause.to_string().as_str())),
            ),
        }
    }

    /// Finishes the archive and returns its bytes.
    pub fn finish(self) -> (r: Result<Vec<u8>, IpaError>)
        ensures
            match r {
                Ok(bytes) => self.image() == Some(bytes@),
                Err(error) => self.image() is None && error is ArchiveWrite && says(
                    error,
                    "Failed to finish zip"@,
                ),
            },
    {
        match zip_finish(self) {
            Ok(bytes) => Ok(bytes),
            Err(cause) => Err(
                IpaError::ArchiveWrite(describe("Failed to finish zip", cause.to_string().as_str())),
            ),
        }
    }
}

} // verus!
