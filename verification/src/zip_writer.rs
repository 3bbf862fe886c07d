//! What this crate takes on trust from the `zip` crate: a writer that
//! builds an archive in memory.
//!
//! Nothing in this file is proved.  The contracts say what the source of
//! `zip` 0.5 shows of each call, over a model of what the writer has
//! recorded: its entries in the order in which they were started.
//!
//! The writer fails of its own accord in one case only: an entry that
//! takes more than [`ENTRY_SIZE_LIMIT`] bytes, before or after
//! compression.  The buffer that it writes to is in memory and takes every
//! write as long as memory lasts, which is taken for granted here as it is
//! for every `Vec`.  Whether the Deflate encoder behind the writer takes a
//! content and how many bytes it makes of it is not spelled out; it has
//! names, [`deflate_takes`] and [`deflate_closes`].

use vstd::prelude::*;
use crate::archive::CompressionMethod;

verus! {

/// The most bytes that one entry may take, as it is handed over and as it
/// is stored: the largest size that fits the 32 bits the format has for
/// it.
pub const ENTRY_SIZE_LIMIT: u64 = 0xFFFF_FFFF;

/// One entry as a writer has recorded it.
pub struct StoredEntry {
    /// The name that the entry was started under.
    pub name: Seq<char>,
    /// Whether the entry is a directory.
    pub directory: bool,
    /// How the content is stored.
    pub method: CompressionMethod,
    /// The permission bits that were asked for.
    pub mode: u32,
    /// The content that was written, uncompressed.
    pub content: Seq<u8>,
}

/// A `zip::ZipWriter` that writes to a buffer in memory.  The writer's
/// type is bounded by traits of std that the verifier has no declaration
/// of, so it is kept behind this struct, which the verifier does not look
/// into.
#[verifier::external_body]
pub struct ArchiveWriter {
    inner: zip::ZipWriter<std::io::Cursor<Vec<u8>>>,
}

/// `zip::result::ZipError`, the error of every call on a writer.  Nothing
/// is claimed of what it holds.
#[verifier::external_type_specification]
#[verifier::external_body]
pub struct ExZipError(zip::result::ZipError);

/// The entries that `writer` has recorded, in the order in which they were
/// started.
pub uninterp spec fn recorded(writer: ArchiveWriter) -> Seq<StoredEntry>;

/// Whether `writer` still takes calls: it was opened, and no call on it has
/// failed.
pub uninterp spec fn ready(writer: ArchiveWriter) -> bool;

/// Whether the Deflate encoder behind a writer, `flate2`'s
/// `DeflateEncoder` at its default level, takes `content`, handed over in
/// one piece, without an error.  The writer passes its writes on to the
/// encoder, and the encoder's answer depends on the content alone.
pub uninterp spec fn deflate_takes(content: Seq<u8>) -> bool;

/// Whether the Deflate encoder behind a writer, having taken `content` in
/// one piece, ends without an error and having made no more than
/// [`ENTRY_SIZE_LIMIT`] bytes of it.  The writer ends the encoder when it
/// closes an entry, which every call does that starts another entry or
/// finishes the archive.
pub uninterp spec fn deflate_closes(content: Seq<u8>) -> bool;

/// Whether a writer takes the content of `entry`, given whether the
/// encoder takes it: the content is within the limit, and the encoder
/// takes it where one is at work.
pub open spec fn takes_if(entry: StoredEntry, encoded: bool) -> bool {
    &&& entry.content.len() <= ENTRY_SIZE_LIMIT
    &&& !entry.directory && entry.method == CompressionMethod::Deflated ==> encoded
}

/// Whether a writer takes the content of `entry`.
pub open spec fn takes(entry: StoredEntry) -> bool {
    takes_if(entry, deflate_takes(entry.content))
}

/// Whether a writer can close `entry`, which it does before it starts the
/// next one and before it finishes, given whether the encoder ends well:
/// what is stored of the entry is within the limit.  A directory stores
/// nothing, and an entry that is stored as it is stores its content.
pub open spec fn closes_if(entry: StoredEntry, encoded: bool) -> bool {
    if entry.directory {
        true
    } else {
        match entry.method {
            CompressionMethod::Stored => entry.content.len() <= ENTRY_SIZE_LIMIT,
            CompressionMethod::Deflated => encoded,
        }
    }
}

/// Whether a writer can close `entry`.
pub open spec fn closes(entry: StoredEntry) -> bool {
    closes_if(entry, deflate_closes(entry.content))
}

/// Whether a writer takes `entry` whole: its content, and its close.
pub open spec fn accepted(entry: StoredEntry) -> bool {
    takes(entry) && closes(entry)
}

/// Whether a writer takes `entries` one after the other and finishes.
pub open spec fn writable(entries: Seq<StoredEntry>) -> bool {
    forall|k: int| 0 <= k < entries.len() ==> accepted(#[trigger] entries[k])
}

/// Whether a writer can close what it recorded last, if anything.
pub open spec fn closes_last(entries: Seq<StoredEntry>) -> bool {
    entries.len() == 0 || closes(entries.last())
}

/// The bytes of the archive that a writer produces when it is finished
/// with `entries` recorded.
pub uninterp spec fn archive_image(entries: Seq<StoredEntry>) -> Seq<u8>;

/// The name that a directory is recorded under: the name it was added
/// with, and a slash behind it unless it ends in a slash or backslash
/// already.
pub open spec fn directory_name(name: Seq<char>) -> Seq<char> {
    if name.len() > 0 && (name.last() == '/' || name.last() == '\\') {
        name
    } else {
        name + seq!['/']
    }
}

/// `ZipWriter::new` on an empty in-memory buffer: a writer that has
/// recorded nothing and takes calls.
#[verifier::external_body]
pub(crate) fn open_writer() -> (writer: ArchiveWriter)
    ensures
        recorded(writer) == Seq::<StoredEntry>::empty(),
        ready(writer),
{
    ArchiveWriter { inner: zip::ZipWriter::new(std::io::Cursor::new(Vec::new())) }
}

/// `ZipWriter::start_file` with options made of `method` and `mode`, which
/// holds permission bits and nothing else.  The call closes the entry
/// recorded last and succeeds if and only if that can be closed.  On
/// success the writer has recorded one more entry, a file of that name
/// without content so far.
#[verifier::external_body]
pub(crate) fn start_file(
    writer: &mut ArchiveWriter,
    name: &str,
    method: CompressionMethod,
    mode: u32,
) -> (result: Result<(), zip::result::ZipError>)
    requires
        ready(*old(writer)),
        mode <= 0o777,
    ensures
        result is Ok <==> closes_last(recorded(*old(writer))),
        result is Ok ==> ready(*final(writer)),
        result is Ok ==> recorded(*final(writer)) == recorded(*old(writer)).push(
            (StoredEntry { name: name@, directory: false, method, mode, content: Seq::empty() }),
        ),
{
    let method = match method {
        CompressionMethod::Stored => zip::CompressionMethod::Stored,
        CompressionMethod::Deflated => zip::CompressionMethod::Deflated,
    };
    let options = zip::write::FileOptions::default().compression_method(method).unix_permissions(
        mode,
    );
    writer.inner.start_file(name, options)
}

/// `Write::write_all` on the writer, called once for a file that was just
/// started.  The call succeeds if and only if the writer takes `data` as
/// the content of that file.  On success `data` is the content of the
/// entry recorded last.
#[verifier::external_body]
pub(crate) fn write_content(
    writer: &mut ArchiveWriter,
    data: &[u8],
) -> (result: Result<(), zip::result::ZipError>)
    requires
        ready(*old(writer)),
        recorded(*old(writer)).len() > 0,
        !recorded(*old(writer)).last().directory,
        recorded(*old(writer)).last().content.len() == 0,
    ensures
        result is Ok <==> takes_if(
            (StoredEntry { content: data@, ..recorded(*old(writer)).last() }),
            deflate_takes(data@),
        ),
        result is Ok ==> ready(*final(writer)),
        result is Ok ==> recorded(*final(writer)) == recorded(*old(writer)).update(
            recorded(*old(writer)).len() - 1,
            (StoredEntry { content: data@, ..recorded(*old(writer)).last() }),
        ),
{
    std::io::Write::write_all(&mut writer.inner, data).map_err(zip::result::ZipError::from)
}

/// `ZipWriter::add_directory` with options made of `mode`, which holds
/// permission bits and nothing else.  The call closes the entry recorded
/// last and succeeds if and only if that can be closed.  On success the
/// writer has recorded one more entry, a directory under the name that
/// [`directory_name`] gives, stored as it is and without content.
#[verifier::external_body]
pub(crate) fn add_directory(
    writer: &mut ArchiveWriter,
    name: &str,
    mode: u32,
) -> (result: Result<(), zip::result::ZipError>)
    requires
        ready(*old(writer)),
        mode <= 0o777,
    ensures
        result is Ok <==> closes_last(recorded(*old(writer))),
        result is Ok ==> ready(*final(writer)),
        result is Ok ==> recorded(*final(writer)) == recorded(*old(writer)).push(
            (StoredEntry {
                name: directory_name(name@),
                directory: true,
                method: CompressionMethod::Stored,
                mode,
                content: Seq::empty(),
            }),
        ),
{
    let options = zip::write::FileOptions::default().unix_permissions(mode);
    writer.inner.add_directory(name, options)
}

/// `ZipWriter::finish`.  The call closes the entry recorded last and
/// succeeds if and only if that can be closed.  On success it gives the
/// bytes of the archive, which are
/// those that every writer produces that has recorded the same entries.
/// The `zip` crate is built without its `time` feature, so every entry
/// carries the same fixed date and the bytes depend on the entries alone.
#[verifier::external_body]
pub(crate) fn finish(writer: ArchiveWriter) -> (result: Result<Vec<u8>, zip::result::ZipError>)
    requires
        ready(writer),
    ensures
        result is Ok <==> recorded(writer).len() == 0 || closes_if(
            recorded(writer).last(),
            deflate_closes(recorded(writer).last().content),
        ),
        result matches Ok(bytes) ==> bytes@ == archive_image(recorded(writer)),
{
    let mut inner = writer.inner;
    inner.finish().map(|buffer| buffer.into_inner())
}

} // verus!
