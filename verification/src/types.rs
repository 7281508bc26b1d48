//! The records that travel with a resource: its metadata, and the
//! configuration of a server.

use vstd::prelude::*;

verus! {

/// The chunk size that clients use unless told otherwise: one mebibyte.
pub const DEFAULT_CHUNK_SIZE: usize = 1_048_576;

/// The descriptor of one uploaded resource. It is published once, after the
/// last chunk, and never changed; uploading again under the same resource
/// name replaces it.
#[derive(Debug, PartialEq, Eq)]
pub struct FileMetadata {
    /// Base name of the uploaded file; shown to users, never used as a key.
    pub filename: String,
    /// Digest of the whole file in hexadecimal, taken before chunking.
    pub checksum: String,
    /// Bytes per chunk.
    pub chunk_size: usize,
    /// Number of chunks: `size / chunk_size + 1`.
    pub chunks: usize,
    /// The name under which the resource is addressed; may hold `/`.
    pub resource_name: String,
    /// Length of the uploaded file in bytes.
    pub size: u64,
}

/// A metadata record with its texts as sequences of characters.
pub struct FileMetadataView {
    pub filename: Seq<char>,
    pub checksum: Seq<char>,
    pub chunk_size: usize,
    pub chunks: usize,
    pub resource_name: Seq<char>,
    pub size: u64,
}

impl View for FileMetadata {
    type V = FileMetadataView;

    open spec fn view(&self) -> FileMetadataView {
        FileMetadataView {
            filename: self.filename@,
            checksum: self.checksum@,
            chunk_size: self.chunk_size,
            chunks: self.chunks,
            resource_name: self.resource_name@,
            size: self.size,
        }
    }
}

impl Clone for FileMetadata {
    fn clone(&self) -> (copy: Self)
        ensures
            copy@ == self@,
    {
        FileMetadata {
            filename: self.filename.clone(),
            checksum: self.checksum.clone(),
            chunk_size: self.chunk_size,
            chunks: self.chunks,
            resource_name: self.resource_name.clone(),
            size: self.size,
        }
    }
}

/// The number of chunks of a file of `size` bytes cut every `chunk_size`
/// bytes: one more than the number of full chunks. A file whose size is a
/// multiple of the chunk size therefore ends in one empty chunk.
pub open spec fn chunk_count_spec(size: nat, chunk_size: nat) -> nat {
    size / chunk_size + 1
}

/// Whether the number of chunks of such a file fits the machine's index
/// type.
pub open spec fn chunk_count_fits(size: nat, chunk_size: nat) -> bool {
    chunk_size > 0 && chunk_count_spec(size, chunk_size) <= usize::MAX
}

/// Tells whether the chunks of a file of `size` bytes cut every `chunk_size`
/// bytes can be counted: the chunk size is above zero and the count fits
/// the machine's index type.
pub fn can_count_chunks(size: u64, chunk_size: usize) -> (fits: bool)
    ensures
        fits == chunk_count_fits(size as nat, chunk_size as nat),
{
    chunk_size > 0 && size / (chunk_size as u64) < usize::MAX as u64
}

/// Counts the chunks of a file of `size` bytes cut every `chunk_size` bytes.
pub fn chunk_count(size: u64, chunk_size: usize) -> (chunks: usize)
    requires
        chunk_count_fits(size as nat, chunk_size as nat),
    ensures
        chunks == chunk_count_spec(size as nat, chunk_size as nat),
{
    let full: u64 = size / (chunk_size as u64);
    (full + 1) as usize
}

/// What decoding a payload gave, by its view.
pub open spec fn record_view(record: Option<FileMetadata>) -> Option<FileMetadataView> {
    match record {
        Some(metadata) => Some(metadata@),
        None => None,
    }
}

impl FileMetadataView {
    /// Whether the record's chunk count is the one that its size and chunk
    /// size call for.
    pub open spec fn consistent(self) -> bool {
        self.chunk_size > 0 && self.chunks == chunk_count_spec(
            self.size as nat,
            self.chunk_size as nat,
        )
    }
}

/// What a server is told at start: where it keeps chunks and metadata, and
/// which keys it stores and serves.
#[derive(Debug, PartialEq, Eq)]
pub struct ServerConfig {
    /// The directory below which the shard directories live.
    pub chunks_dir: String,
    /// The key pattern that the server subscribes to and answers queries
    /// for, such as `/zenohcdn/**`.
    pub resource_space: String,
}

impl Clone for ServerConfig {
    fn clone(&self) -> (copy: Self)
        ensures
            copy.chunks_dir@ == self.chunks_dir@,
            copy.resource_space@ == self.resource_space@,
    {
        ServerConfig {
            chunks_dir: self.chunks_dir.clone(),
            resource_space: self.resource_space.clone(),
        }
    }
}

} // verus!
