//! The server side: what to do with a change notification and with a query.
//!
//! A server keeps the chunks and the metadata of each resource in a
//! directory of its own, the shard, named by the digest of the resource
//! name. A chunk is a file named by its index in decimal; the metadata is a
//! file named `metadata` that holds the record as it was received.
//!
//! Each message is handled by itself: nothing is kept from one message to
//! the next, and a message that is refused changes nothing. The caller owns
//! the disk and the transport. It performs what these functions decide and
//! reports a refusal without ending its receive loop.

use vstd::prelude::*;
use vstd::string::*;
use crate::decimal::{decimal, format_index, parse_index_spec};
use crate::digest::{hash_path, shard_name};
use crate::error::CdnError;
use crate::keys::{
    chunk_key, classify, classify_spec, key_prefix, last_segment, lemma_classify_chunk_key,
    lemma_classify_metadata_key, metadata_key, resource_prefix, resource_prefix_spec, KeyRef,
    KeyRefView, METADATA_KEY,
};
use crate::message::{Encoding, Sample, SampleKind, SampleView};
use crate::types::{record_view, FileMetadata, FileMetadataView, ServerConfig};

verus! {

/// `metadata`, the name of the file that holds a resource's metadata.
pub open spec fn metadata_file() -> Seq<char> {
    seq!['m', 'e', 't', 'a', 'd', 'a', 't', 'a']
}

/// A file to write: `content` goes to the file `file` of the shard `shard`,
/// which is created first where it does not exist yet.
#[derive(Debug, PartialEq, Eq)]
pub struct StoreRequest {
    pub shard: String,
    pub file: String,
    pub content: Vec<u8>,
}

/// A file to write, by its view.
pub struct StoreRequestView {
    pub shard: Seq<char>,
    pub file: Seq<char>,
    pub content: Seq<u8>,
}

impl View for StoreRequest {
    type V = StoreRequestView;

    open spec fn view(&self) -> StoreRequestView {
        StoreRequestView { shard: self.shard@, file: self.file@, content: self.content@ }
    }
}

/// Why a notification leaves the disk as it is without being at fault.
#[derive(Debug, Clone, Copy, PartialEq, Eq, Structural)]
pub enum Skipped {
    /// A retraction. Stored chunks are never removed.
    Deletion,
    /// A payload that is tagged neither binary nor structured.
    UnknownEncoding,
}

/// What a change notification asks of the server.
#[derive(Debug, PartialEq, Eq)]
pub enum IngestStep {
    /// Nothing is to be stored.
    Skip(Skipped),
    /// A chunk is to be written.
    Store(StoreRequest),
    /// The payload is a metadata record. It has to be decoded before it can
    /// be stored: `Server::process_metadata` takes the payload and what
    /// decoding it gave.
    Decode(Vec<u8>),
}

/// What a change notification asks of the server, by its view.
pub enum IngestStepView {
    Skip(Skipped),
    Store(StoreRequestView),
    Decode(Seq<u8>),
}

impl View for IngestStep {
    type V = IngestStepView;

    open spec fn view(&self) -> IngestStepView {
        match self {
            IngestStep::Skip(why) => IngestStepView::Skip(*why),
            IngestStep::Store(request) => IngestStepView::Store(request@),
            IngestStep::Decode(payload) => IngestStepView::Decode(payload@),
        }
    }
}

/// The file that answers a query, and the tag of the answer.
#[derive(Debug, PartialEq, Eq)]
pub struct QueryTarget {
    pub shard: String,
    pub file: String,
    pub encoding: Encoding,
}

/// The file that answers a query, by its view.
pub struct QueryTargetView {
    pub shard: Seq<char>,
    pub file: Seq<char>,
    pub encoding: Encoding,
}

impl View for QueryTarget {
    type V = QueryTargetView;

    open spec fn view(&self) -> QueryTargetView {
        QueryTargetView { shard: self.shard@, file: self.file@, encoding: self.encoding }
    }
}

/// What a change notification under the key prefix `prefix` asks for.
///
/// A retraction asks for nothing. A binary payload is a chunk: its key has
/// to address one, and it goes to the file named by the chunk's index in
/// the shard of the resource that the key names. A structured payload is a
/// metadata record and has to be decoded. Any other payload asks for
/// nothing.
pub open spec fn process_sample_spec(prefix: Seq<char>, sample: SampleView) -> Result<
    IngestStepView,
    CdnError,
> {
    match sample.kind {
        SampleKind::Delete => Ok(IngestStepView::Skip(Skipped::Deletion)),
        _ => match sample.encoding {
            Encoding::Binary => match classify_spec(prefix, sample.res_name) {
                Ok(KeyRefView::Chunk { resource_name, index }) => Ok(
                    IngestStepView::Store(
                        StoreRequestView {
                            shard: shard_name(resource_name),
                            file: decimal(index as nat),
                            content: sample.payload,
                        },
                    ),
                ),
                _ => Err(CdnError::MalformedKey),
            },
            Encoding::Structured => Ok(IngestStepView::Decode(sample.payload)),
            Encoding::Other => Ok(IngestStepView::Skip(Skipped::UnknownEncoding)),
        },
    }
}

/// Where a metadata payload goes once it was decoded: to the file
/// `metadata` in the shard of the resource that the record itself names,
/// as the bytes that were received. A payload that could not be decoded is
/// refused.
pub open spec fn process_metadata_spec(payload: Seq<u8>, record: Option<FileMetadataView>) -> Result<
    StoreRequestView,
    CdnError,
> {
    match record {
        Some(metadata) => Ok(
            StoreRequestView {
                shard: shard_name(metadata.resource_name),
                file: metadata_file(),
                content: payload,
            },
        ),
        None => Err(CdnError::MalformedMetadata),
    }
}

/// The file that answers a query for `key` under the key prefix `prefix`:
/// the chunk's file and a binary answer where the key addresses a chunk, the
/// metadata file and a structured answer otherwise.
pub open spec fn process_query_spec(prefix: Seq<char>, key: Seq<char>) -> Result<
    QueryTargetView,
    CdnError,
> {
    match classify_spec(prefix, key) {
        Ok(KeyRefView::Chunk { resource_name, index }) => Ok(
            QueryTargetView {
                shard: shard_name(resource_name),
                file: decimal(index as nat),
                encoding: Encoding::Binary,
            },
        ),
        Ok(KeyRefView::Metadata { resource_name }) => Ok(
            QueryTargetView {
                shard: shard_name(resource_name),
                file: metadata_file(),
                encoding: Encoding::Structured,
            },
        ),
        Err(e) => Err(e),
    }
}

/// What reading a file gave, by its view.
pub open spec fn content_view(content: Option<Vec<u8>>) -> Option<Seq<u8>> {
    match content {
        Some(bytes) => Some(bytes@),
        None => None,
    }
}

/// The answer to a query for `key` whose file held `content`, or was not
/// there.
pub open spec fn reply_spec(key: Seq<char>, encoding: Encoding, content: Option<Seq<u8>>) -> Result<
    SampleView,
    CdnError,
> {
    match content {
        Some(bytes) => Ok(
            SampleView { res_name: key, encoding, payload: bytes, kind: SampleKind::Put },
        ),
        None => Err(CdnError::NotFound),
    }
}

/// What handling one change notification stores, decoding included:
/// `record` is what decoding the payload gives, and is looked at for a
/// structured payload only. `None` where nothing is to be stored.
pub open spec fn ingest_spec(
    prefix: Seq<char>,
    sample: SampleView,
    record: Option<FileMetadataView>,
) -> Result<Option<StoreRequestView>, CdnError> {
    match process_sample_spec(prefix, sample) {
        Ok(IngestStepView::Skip(_)) => Ok(None),
        Ok(IngestStepView::Store(request)) => Ok(Some(request)),
        Ok(IngestStepView::Decode(payload)) => match process_metadata_spec(payload, record) {
            Ok(request) => Ok(Some(request)),
            Err(e) => Err(e),
        },
        Err(e) => Err(e),
    }
}

/// The disk after one change notification was handled. A disk is the
/// content of each file by shard and file name. A notification that is
/// refused, and one that asks for nothing, leave it as it is.
pub open spec fn disk_after(
    disk: Map<(Seq<char>, Seq<char>), Seq<u8>>,
    prefix: Seq<char>,
    sample: SampleView,
    record: Option<FileMetadataView>,
) -> Map<(Seq<char>, Seq<char>), Seq<u8>> {
    match ingest_spec(prefix, sample, record) {
        Ok(Some(request)) => disk.insert((request.shard, request.file), request.content),
        _ => disk,
    }
}

/// A chunk that is published under its key is stored: as the file named by
/// its index, in the shard of its resource, with the bytes that were
/// published.
pub proof fn lemma_chunk_is_stored(
    root: Seq<char>,
    name: Seq<char>,
    index: usize,
    sample: SampleView,
    record: Option<FileMetadataView>,
)
    requires
        sample.res_name == chunk_key(root, name, index as nat),
        sample.encoding == Encoding::Binary,
        sample.kind != SampleKind::Delete,
    ensures
        ingest_spec(key_prefix(root), sample, record) == Ok::<Option<StoreRequestView>, CdnError>(
            Some(
                StoreRequestView {
                    shard: shard_name(name),
                    file: decimal(index as nat),
                    content: sample.payload,
                },
            ),
        ),
{
    lemma_classify_chunk_key(root, name, index);
}

/// A binary payload under a key that addresses metadata is refused as a
/// malformed key.
pub proof fn lemma_binary_at_metadata_key_is_refused(
    prefix: Seq<char>,
    sample: SampleView,
    record: Option<FileMetadataView>,
)
    requires
        sample.encoding == Encoding::Binary,
        sample.kind != SampleKind::Delete,
        classify_spec(prefix, sample.res_name) matches Ok(KeyRefView::Metadata { .. }),
    ensures
        ingest_spec(prefix, sample, record) == Err::<Option<StoreRequestView>, CdnError>(
            CdnError::MalformedKey,
        ),
{
}

/// A notification that is refused stands in no other's way: the disk after
/// a refused notification and a further one is the disk after the further
/// one alone, whatever was stored before and whatever comes after.
pub proof fn lemma_ingest_isolation(
    disk: Map<(Seq<char>, Seq<char>), Seq<u8>>,
    prefix: Seq<char>,
    refused: SampleView,
    refused_record: Option<FileMetadataView>,
    next: SampleView,
    next_record: Option<FileMetadataView>,
)
    requires
        ingest_spec(prefix, refused, refused_record) is Err,
    ensures
        disk_after(disk, prefix, refused, refused_record) == disk,
        disk_after(
            disk_after(disk, prefix, refused, refused_record),
            prefix,
            next,
            next_record,
        ) == disk_after(disk, prefix, next, next_record),
{
}

/// A retraction removes nothing: the disk stays as it is.
pub proof fn lemma_deletion_changes_nothing(
    disk: Map<(Seq<char>, Seq<char>), Seq<u8>>,
    prefix: Seq<char>,
    sample: SampleView,
    record: Option<FileMetadataView>,
)
    requires
        sample.kind == SampleKind::Delete,
    ensures
        disk_after(disk, prefix, sample, record) == disk,
{
}

/// A chunk is served from where it was stored: the query for the key of a
/// chunk reads the file that the notification under that key wrote, and
/// answers with a binary payload.
pub proof fn lemma_stored_chunk_is_served(
    root: Seq<char>,
    name: Seq<char>,
    index: usize,
    sample: SampleView,
    record: Option<FileMetadataView>,
)
    requires
        sample.res_name == chunk_key(root, name, index as nat),
        sample.encoding == Encoding::Binary,
        sample.kind != SampleKind::Delete,
    ensures
        ingest_spec(key_prefix(root), sample, record) matches Ok(Some(stored))
            && process_query_spec(key_prefix(root), sample.res_name) matches Ok(target)
            && target.shard == stored.shard && target.file == stored.file && target.encoding
            == Encoding::Binary,
{
    lemma_classify_chunk_key(root, name, index);
}

/// A metadata record is served from where it was stored, as long as the
/// record names the resource of its key and the last segment of that name
/// does not read as an index: the query for the key of the record reads the
/// file that the notification wrote, and answers with a structured payload.
pub proof fn lemma_stored_metadata_is_served(
    root: Seq<char>,
    sample: SampleView,
    record: FileMetadataView,
)
    requires
        sample.res_name == metadata_key(root, record.resource_name),
        sample.encoding == Encoding::Structured,
        sample.kind != SampleKind::Delete,
        parse_index_spec(last_segment(record.resource_name)) is None,
    ensures
        ingest_spec(key_prefix(root), sample, Some(record)) matches Ok(Some(stored))
            && process_query_spec(key_prefix(root), sample.res_name) matches Ok(target)
            && target.shard == stored.shard && target.file == stored.file && target.encoding
            == Encoding::Structured && stored.content == sample.payload,
{
    lemma_classify_metadata_key(root, record.resource_name);
}

/// A server of one resource space.
#[derive(Debug, PartialEq, Eq)]
pub struct Server {
    pub config: ServerConfig,
}

impl Server {
    /// A server with the configuration `config`.
    pub fn new(config: ServerConfig) -> (server: Server)
        ensures
            server.config == config,
    {
        Server { config }
    }

    /// The prefix of the keys that this server stores and serves.
    pub open spec fn prefix(&self) -> Seq<char> {
        resource_prefix_spec(self.config.resource_space@)
    }

    /// Decides what a change notification asks for; see
    /// `process_sample_spec`. A binary payload whose key addresses no chunk
    /// is refused as a malformed key.
    pub fn process_sample(&self, sample: Sample) -> (step: Result<IngestStep, CdnError>)
        ensures
            match step {
                Ok(s) => process_sample_spec(self.prefix(), sample@) == Ok::<
                    IngestStepView,
                    CdnError,
                >(s@),
                Err(e) => process_sample_spec(self.prefix(), sample@) == Err::<
                    IngestStepView,
                    CdnError,
                >(e),
            },
    {
        match sample.kind {
            SampleKind::Delete => Ok(IngestStep::Skip(Skipped::Deletion)),
            _ => match sample.encoding {
                Encoding::Binary => {
                    let prefix = resource_prefix(self.config.resource_space.as_str());
                    match classify(prefix.as_str(), sample.res_name.as_str()) {
                        Ok(KeyRef::Chunk { resource_name, index }) => {
                            let shard = hash_path(resource_name.as_str());
                            let file = format_index(index);
                            Ok(IngestStep::Store(StoreRequest { shard, file, content: sample.payload }))
                        },
                        _ => Err(CdnError::MalformedKey),
                    }
                },
                Encoding::Structured => Ok(IngestStep::Decode(sample.payload)),
                Encoding::Other => Ok(IngestStep::Skip(Skipped::UnknownEncoding)),
            },
        }
    }

    /// Decides where a metadata payload goes, given what decoding it gave:
    /// `record` is the decoded record, or `None` where the payload is no
    /// metadata record. See `process_metadata_spec`.
    pub fn process_metadata(&self, payload: Vec<u8>, record: Option<FileMetadata>) -> (request:
        Result<StoreRequest, CdnError>)
        ensures
            match request {
                Ok(r) => process_metadata_spec(payload@, record_view(record)) == Ok::<
                    StoreRequestView,
                    CdnError,
                >(r@),
                Err(e) => process_metadata_spec(payload@, record_view(record)) == Err::<
                    StoreRequestView,
                    CdnError,
                >(e),
            },
    {
        match record {
            Some(metadata) => {
                proof {
                    reveal_strlit("metadata");
                }
                let shard = hash_path(metadata.resource_name.as_str());
                let file = String::from_str(METADATA_KEY);
                assert(file@ =~= metadata_file());
                Ok(StoreRequest { shard, file, content: payload })
            },
            None => Err(CdnError::MalformedMetadata),
        }
    }

    /// Decides which file answers a query for `key`; see
    /// `process_query_spec`. A key outside the server's prefix is refused.
    pub fn process_query(&self, key: &str) -> (target: Result<QueryTarget, CdnError>)
        ensures
            match target {
                Ok(t) => process_query_spec(self.prefix(), key@) == Ok::<QueryTargetView, CdnError>(
                    t@,
                ),
                Err(e) => process_query_spec(self.prefix(), key@) == Err::<
                    QueryTargetView,
                    CdnError,
                >(e),
            },
    {
        let prefix = resource_prefix(self.config.resource_space.as_str());
        match classify(prefix.as_str(), key) {
            Ok(KeyRef::Chunk { resource_name, index }) => {
                let shard = hash_path(resource_name.as_str());
                let file = format_index(index);
                Ok(QueryTarget { shard, file, encoding: Encoding::Binary })
            },
            Ok(KeyRef::Metadata { resource_name }) => {
                proof {
                    reveal_strlit("metadata");
                }
                let shard = hash_path(resource_name.as_str());
                let file = String::from_str(METADATA_KEY);
                assert(file@ =~= metadata_file());
                Ok(QueryTarget { shard, file, encoding: Encoding::Structured })
            },
            Err(e) => Err(e),
        }
    }

    /// Builds the answer to a query for `key` from what the file of its
    /// target held: `content` is the file's content, or `None` where the
    /// file is not there. A missing file is refused as not found; it is
    /// never answered with an empty payload.
    pub fn reply(&self, key: &str, target: &QueryTarget, content: Option<Vec<u8>>) -> (answer:
        Result<Sample, CdnError>)
        ensures
            match answer {
                Ok(a) => reply_spec(key@, target.encoding, content_view(content)) == Ok::<
                    SampleView,
                    CdnError,
                >(a@),
                Err(e) => reply_spec(key@, target.encoding, content_view(content)) == Err::<
                    SampleView,
                    CdnError,
                >(e),
            },
    {
        match content {
            Some(payload) => Ok(
                Sample {
                    res_name: String::from_str(key),
                    encoding: target.encoding,
                    payload,
                    kind: SampleKind::Put,
                },
            ),
            None => Err(CdnError::NotFound),
        }
    }
}

} // verus!
