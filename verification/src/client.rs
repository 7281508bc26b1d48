//! The client side: the steps of an upload and of a download.
//!
//! Both are sequential. An upload publishes the chunks of a file in
//! ascending order and the metadata record last, so that a record that can
//! be seen tells that all chunks were published. A download asks for the
//! record, brings the destination to the file's size, then asks for each
//! chunk in ascending order and writes it at its place. The first failure
//! ends either; nothing is retried and nothing is undone.
//!
//! The caller owns the transport and the files. `Upload` and `Download`
//! tell it what to do next, and it tells them how that went.

use vstd::prelude::*;
use vstd::string::*;
use crate::chunks::{
    assemble, chunk_in_range, chunk_of, lemma_counted_chunks_in_range, lemma_round_trip, place,
};
use crate::error::CdnError;
use crate::keys::{chunk_key, file_chunk_path, file_metadata_path, metadata_key, DEFAULT_ROOT};
use crate::message::{replies_view, Encoding, Reply, ReplyView};
use crate::types::{
    chunk_count, chunk_count_fits, chunk_count_spec, record_view, FileMetadata, FileMetadataView,
    DEFAULT_CHUNK_SIZE,
};

verus! {

/// `/zenohcdn`, the root that clients use unless told otherwise.
pub open spec fn default_root() -> Seq<char> {
    seq!['/', 'z', 'e', 'n', 'o', 'h', 'c', 'd', 'n']
}

/// The payload of the one reply that a query must have. No reply means that
/// what was asked for is not there; more than one is ambiguous and never
/// merged; one reply with another tag than `wanted` is malformed.
pub open spec fn single_payload_spec(replies: Seq<ReplyView>, wanted: Encoding) -> Result<
    Seq<u8>,
    CdnError,
> {
    if replies.len() == 0 {
        Err(CdnError::NotFound)
    } else if replies.len() > 1 {
        Err(CdnError::AmbiguousResult)
    } else if replies[0].encoding != wanted {
        Err(CdnError::MalformedMetadata)
    } else {
        Ok(replies[0].payload)
    }
}

/// Takes the payload of the one reply that a query must have; see
/// `single_payload_spec`.
pub fn single_payload(replies: Vec<Reply>, wanted: Encoding) -> (payload: Result<Vec<u8>, CdnError>)
    ensures
        match payload {
            Ok(p) => single_payload_spec(replies_view(replies@), wanted) == Ok::<Seq<u8>, CdnError>(
                p@,
            ),
            Err(e) => single_payload_spec(replies_view(replies@), wanted) == Err::<
                Seq<u8>,
                CdnError,
            >(e),
        },
{
    let mut replies = replies;
    if replies.len() == 0 {
        return Err(CdnError::NotFound);
    }
    if replies.len() > 1 {
        return Err(CdnError::AmbiguousResult);
    }
    let ghost all = replies@;
    match replies.pop() {
        Some(reply) => {
            assert(reply == all[0]);
            assert(replies_view(all)[0] == reply@);
            if reply.encoding == wanted {
                Ok(reply.payload)
            } else {
                Err(CdnError::MalformedMetadata)
            }
        },
        None => Err(CdnError::NotFound),
    }
}

/// A client of one root.
#[derive(Debug, PartialEq, Eq)]
pub struct Client {
    /// The root under which the client builds its keys.
    pub root: String,
    /// Bytes per chunk of the files that the client uploads.
    pub chunk_size: usize,
}

impl Clone for Client {
    fn clone(&self) -> (copy: Self)
        ensures
            copy.root@ == self.root@,
            copy.chunk_size == self.chunk_size,
    {
        Client { root: self.root.clone(), chunk_size: self.chunk_size }
    }
}

/// Where an upload stands.
#[derive(Debug, Clone, Copy, PartialEq, Eq, Structural)]
pub enum UploadPhase {
    /// Nothing was published yet.
    Start,
    /// The chunk of this number is being published.
    Chunk(usize),
    /// All chunks were published; the metadata record is being published.
    Metadata,
    /// The metadata record was published.
    Finished,
    /// The upload was given up.
    Failed(CdnError),
}

/// What the caller reports to an upload.
#[derive(Debug, Clone, Copy, PartialEq, Eq, Structural)]
pub enum UploadEvent {
    /// The upload may start.
    Begin,
    /// What was to be published was published.
    Published,
    /// What was to be done failed.
    Failure(CdnError),
}

/// What an upload asks of the caller.
#[derive(Debug, PartialEq, Eq)]
pub enum UploadAction {
    /// Read the chunk `chunk_number` of the source file, cut every
    /// `chunk_size` bytes, and publish it under `key`, tagged as binary.
    PublishChunk { key: String, chunk_number: usize, chunk_size: usize },
    /// Publish the serialized `metadata` under `key`, tagged as structured.
    PublishMetadata { key: String, metadata: FileMetadata },
    /// Nothing is left to do. The metadata was published under `key`.
    Complete { key: String },
    /// Give up with this error.
    Abort(CdnError),
    /// The event answers nothing that was asked for. The upload stands where
    /// it stood.
    Wait,
}

/// What an upload asks of the caller, by its view.
pub enum UploadActionView {
    PublishChunk { key: Seq<char>, chunk_number: usize, chunk_size: usize },
    PublishMetadata { key: Seq<char>, metadata: FileMetadataView },
    Complete { key: Seq<char> },
    Abort(CdnError),
    Wait,
}

impl View for UploadAction {
    type V = UploadActionView;

    open spec fn view(&self) -> UploadActionView {
        match self {
            UploadAction::PublishChunk { key, chunk_number, chunk_size } => {
                UploadActionView::PublishChunk {
                    key: key@,
                    chunk_number: *chunk_number,
                    chunk_size: *chunk_size,
                }
            },
            UploadAction::PublishMetadata { key, metadata } => UploadActionView::PublishMetadata {
                key: key@,
                metadata: metadata@,
            },
            UploadAction::Complete { key } => UploadActionView::Complete { key: key@ },
            UploadAction::Abort(e) => UploadActionView::Abort(*e),
            UploadAction::Wait => UploadActionView::Wait,
        }
    }
}

/// One upload: the record of the file that is uploaded, and how far the
/// upload has come.
#[derive(Debug, PartialEq, Eq)]
pub struct Upload {
    pub root: String,
    pub metadata: FileMetadata,
    pub phase: UploadPhase,
}

/// An upload by its view.
pub struct UploadView {
    pub root: Seq<char>,
    pub metadata: FileMetadataView,
    pub phase: UploadPhase,
}

impl View for Upload {
    type V = UploadView;

    open spec fn view(&self) -> UploadView {
        UploadView { root: self.root@, metadata: self.metadata@, phase: self.phase }
    }
}

/// The upload `upload` in the phase `phase`.
pub open spec fn upload_in(upload: UploadView, phase: UploadPhase) -> UploadView {
    UploadView { root: upload.root, metadata: upload.metadata, phase }
}

/// What comes once `published` chunks were published: the next chunk, or
/// the metadata record when no chunk is left.
pub open spec fn upload_next(upload: UploadView, published: nat) -> (UploadView, UploadActionView) {
    let m = upload.metadata;
    if published < m.chunks {
        (
            upload_in(upload, UploadPhase::Chunk(published as usize)),
            UploadActionView::PublishChunk {
                key: chunk_key(upload.root, m.resource_name, published),
                chunk_number: published as usize,
                chunk_size: m.chunk_size,
            },
        )
    } else {
        (
            upload_in(upload, UploadPhase::Metadata),
            UploadActionView::PublishMetadata {
                key: metadata_key(upload.root, m.resource_name),
                metadata: m,
            },
        )
    }
}

/// One step of an upload: where it stands after `event`, and what it asks
/// for.
pub open spec fn upload_step(upload: UploadView, event: UploadEvent) -> (
    UploadView,
    UploadActionView,
) {
    match upload.phase {
        UploadPhase::Finished => (
            upload,
            UploadActionView::Complete {
                key: metadata_key(upload.root, upload.metadata.resource_name),
            },
        ),
        UploadPhase::Failed(e) => (upload, UploadActionView::Abort(e)),
        UploadPhase::Start => match event {
            UploadEvent::Begin => upload_next(upload, 0),
            UploadEvent::Failure(e) => (
                upload_in(upload, UploadPhase::Failed(e)),
                UploadActionView::Abort(e),
            ),
            UploadEvent::Published => (upload, UploadActionView::Wait),
        },
        UploadPhase::Chunk(i) => match event {
            UploadEvent::Published => upload_next(upload, i as nat + 1),
            UploadEvent::Failure(e) => (
                upload_in(upload, UploadPhase::Failed(e)),
                UploadActionView::Abort(e),
            ),
            UploadEvent::Begin => (upload, UploadActionView::Wait),
        },
        UploadPhase::Metadata => match event {
            UploadEvent::Published => (
                upload_in(upload, UploadPhase::Finished),
                UploadActionView::Complete {
                    key: metadata_key(upload.root, upload.metadata.resource_name),
                },
            ),
            UploadEvent::Failure(e) => (
                upload_in(upload, UploadPhase::Failed(e)),
                UploadActionView::Abort(e),
            ),
            UploadEvent::Begin => (upload, UploadActionView::Wait),
        },
    }
}

/// The upload after it began and `n` publications were reported, and what
/// it asks for then.
pub open spec fn upload_after(upload: UploadView, n: nat) -> (UploadView, UploadActionView)
    decreases n,
{
    if n == 0 {
        upload_step(upload, UploadEvent::Begin)
    } else {
        upload_step(upload_after(upload, (n - 1) as nat).0, UploadEvent::Published)
    }
}

/// An upload publishes the chunks in ascending order, each under its key,
/// then the metadata record, and ends after that: the record is published
/// once every chunk was, and not before.
pub proof fn lemma_upload_order(upload: UploadView, n: nat)
    requires
        upload.phase == UploadPhase::Start,
    ensures
        n < upload.metadata.chunks ==> upload_after(upload, n) == (
            upload_in(upload, UploadPhase::Chunk(n as usize)),
            UploadActionView::PublishChunk {
                key: chunk_key(upload.root, upload.metadata.resource_name, n),
                chunk_number: n as usize,
                chunk_size: upload.metadata.chunk_size,
            },
        ),
        n == upload.metadata.chunks ==> upload_after(upload, n) == (
            upload_in(upload, UploadPhase::Metadata),
            UploadActionView::PublishMetadata {
                key: metadata_key(upload.root, upload.metadata.resource_name),
                metadata: upload.metadata,
            },
        ),
        n > upload.metadata.chunks ==> upload_after(upload, n) == (
            upload_in(upload, UploadPhase::Finished),
            UploadActionView::Complete {
                key: metadata_key(upload.root, upload.metadata.resource_name),
            },
        ),
    decreases n,
{
    if n > 0 {
        lemma_upload_order(upload, (n - 1) as nat);
    }
}

/// Every chunk that an upload publishes can be read: where the record of
/// the upload tells the size of the file and counts its chunks, each chunk
/// that the upload asks for starts inside the file or right at its end.
pub proof fn lemma_upload_reads_in_range(upload: UploadView, n: nat)
    requires
        upload.phase == UploadPhase::Start,
        upload.metadata.consistent(),
        n < upload.metadata.chunks,
    ensures
        upload_after(upload, n).1 matches UploadActionView::PublishChunk {
            chunk_number,
            chunk_size,
            ..
        } && chunk_in_range(upload.metadata.size as nat, chunk_number as nat, chunk_size as nat),
{
    lemma_upload_order(upload, n);
    lemma_counted_chunks_in_range(
        upload.metadata.size as nat,
        upload.metadata.chunk_size as nat,
        n,
    );
}

impl Upload {
    /// What comes once `published` chunks were published.
    fn next(&mut self, published: Option<usize>) -> (action: UploadAction)
        ensures
            (final(self)@, action@) == upload_next(
                old(self)@,
                match published {
                    Some(n) => n as nat,
                    None => usize::MAX as nat + 1,
                },
            ),
    {
        let index: usize = match published {
            Some(n) => n,
            None => self.metadata.chunks,
        };
        if index < self.metadata.chunks {
            let key = file_chunk_path(
                self.root.as_str(),
                self.metadata.resource_name.as_str(),
                index,
            );
            self.phase = UploadPhase::Chunk(index);
            UploadAction::PublishChunk { key, chunk_number: index, chunk_size: self.metadata.chunk_size }
        } else {
            let key = file_metadata_path(self.root.as_str(), self.metadata.resource_name.as_str());
            self.phase = UploadPhase::Metadata;
            UploadAction::PublishMetadata { key, metadata: self.metadata.clone() }
        }
    }

    /// Takes the upload one step further: `event` tells how what was asked
    /// for last went, and the result is what to do next. See `upload_step`.
    pub fn step(&mut self, event: UploadEvent) -> (action: UploadAction)
        ensures
            (final(self)@, action@) == upload_step(old(self)@, event),
    {
        match self.phase {
            UploadPhase::Finished => UploadAction::Complete {
                key: file_metadata_path(self.root.as_str(), self.metadata.resource_name.as_str()),
            },
            UploadPhase::Failed(e) => UploadAction::Abort(e),
            UploadPhase::Start => match event {
                UploadEvent::Begin => self.next(Some(0)),
                UploadEvent::Failure(e) => {
                    self.phase = UploadPhase::Failed(e);
                    UploadAction::Abort(e)
                },
                UploadEvent::Published => UploadAction::Wait,
            },
            UploadPhase::Chunk(i) => match event {
                UploadEvent::Published => self.next(i.checked_add(1)),
                UploadEvent::Failure(e) => {
                    self.phase = UploadPhase::Failed(e);
                    UploadAction::Abort(e)
                },
                UploadEvent::Begin => UploadAction::Wait,
            },
            UploadPhase::Metadata => match event {
                UploadEvent::Published => {
                    self.phase = UploadPhase::Finished;
                    UploadAction::Complete {
                        key: file_metadata_path(
                            self.root.as_str(),
                            self.metadata.resource_name.as_str(),
                        ),
                    }
                },
                UploadEvent::Failure(e) => {
                    self.phase = UploadPhase::Failed(e);
                    UploadAction::Abort(e)
                },
                UploadEvent::Begin => UploadAction::Wait,
            },
        }
    }
}

/// Where a download stands.
#[derive(Debug, Clone, Copy, PartialEq, Eq, Structural)]
pub enum DownloadPhase {
    /// Nothing was asked for yet.
    Start,
    /// The metadata record was asked for.
    Metadata,
    /// The payload of the record was handed out to be decoded.
    Decoding,
    /// The record is known; the destination is being brought to size.
    Allocating,
    /// The chunk of this number was asked for.
    Fetching(usize),
    /// The chunk of this number was handed out to be written.
    Writing(usize),
    /// Every chunk was written.
    Finished,
    /// The download was given up.
    Failed(CdnError),
}

/// What the caller reports to a download.
#[derive(Debug, PartialEq, Eq)]
pub enum DownloadEvent {
    /// The download may start.
    Begin,
    /// The replies to the query that was asked for.
    Replies(Vec<Reply>),
    /// What decoding the metadata payload gave: the record, or `None` where
    /// the payload is no metadata record.
    Record(Option<FileMetadata>),
    /// The destination was brought to size, or the chunk was written.
    Done,
    /// What was to be done failed.
    Failure(CdnError),
}

/// What the caller reports to a download, by its view.
pub enum DownloadEventView {
    Begin,
    Replies(Seq<ReplyView>),
    Record(Option<FileMetadataView>),
    Done,
    Failure(CdnError),
}

impl View for DownloadEvent {
    type V = DownloadEventView;

    open spec fn view(&self) -> DownloadEventView {
        match self {
            DownloadEvent::Begin => DownloadEventView::Begin,
            DownloadEvent::Replies(replies) => DownloadEventView::Replies(replies_view(replies@)),
            DownloadEvent::Record(record) => DownloadEventView::Record(record_view(*record)),
            DownloadEvent::Done => DownloadEventView::Done,
            DownloadEvent::Failure(e) => DownloadEventView::Failure(*e),
        }
    }
}

/// What a download asks of the caller.
#[derive(Debug, PartialEq, Eq)]
pub enum DownloadAction {
    /// Query this selector and report the replies.
    Query(String),
    /// Decode this payload as a metadata record and report what it gave.
    Decode(Vec<u8>),
    /// Create the destination, or empty it, and bring it to this size.
    Allocate(u64),
    /// Write `data`, the chunk `chunk_num`, at its place in the
    /// destination.
    Write { chunk_num: usize, chunk_size: usize, data: Vec<u8> },
    /// Nothing is left to do. The destination holds the file.
    Complete,
    /// Give up with this error.
    Abort(CdnError),
    /// The event answers nothing that was asked for. The download stands
    /// where it stood.
    Wait,
}

/// What a download asks of the caller, by its view.
pub enum DownloadActionView {
    Query(Seq<char>),
    Decode(Seq<u8>),
    Allocate(u64),
    Write { chunk_num: usize, chunk_size: usize, data: Seq<u8> },
    Complete,
    Abort(CdnError),
    Wait,
}

impl View for DownloadAction {
    type V = DownloadActionView;

    open spec fn view(&self) -> DownloadActionView {
        match self {
            DownloadAction::Query(selector) => DownloadActionView::Query(selector@),
            DownloadAction::Decode(payload) => DownloadActionView::Decode(payload@),
            DownloadAction::Allocate(size) => DownloadActionView::Allocate(*size),
            DownloadAction::Write { chunk_num, chunk_size, data } => DownloadActionView::Write {
                chunk_num: *chunk_num,
                chunk_size: *chunk_size,
                data: data@,
            },
            DownloadAction::Complete => DownloadActionView::Complete,
            DownloadAction::Abort(e) => DownloadActionView::Abort(*e),
            DownloadAction::Wait => DownloadActionView::Wait,
        }
    }
}

/// One download: the resource that is asked for, what its record said
/// about its chunks, and how far the download has come. Before the record
/// is known, `chunks` and `chunk_size` are zero.
#[derive(Debug, PartialEq, Eq)]
pub struct Download {
    pub root: String,
    pub resource_name: String,
    pub chunks: usize,
    pub chunk_size: usize,
    pub phase: DownloadPhase,
}

/// A download by its view.
pub struct DownloadView {
    pub root: Seq<char>,
    pub resource_name: Seq<char>,
    pub chunks: usize,
    pub chunk_size: usize,
    pub phase: DownloadPhase,
}

impl View for Download {
    type V = DownloadView;

    open spec fn view(&self) -> DownloadView {
        DownloadView {
            root: self.root@,
            resource_name: self.resource_name@,
            chunks: self.chunks,
            chunk_size: self.chunk_size,
            phase: self.phase,
        }
    }
}

/// The download `download` in the phase `phase`.
pub open spec fn download_in(download: DownloadView, phase: DownloadPhase) -> DownloadView {
    DownloadView {
        root: download.root,
        resource_name: download.resource_name,
        chunks: download.chunks,
        chunk_size: download.chunk_size,
        phase,
    }
}

/// The download `download` given up with the error `e`.
pub open spec fn download_failed(download: DownloadView, e: CdnError) -> (
    DownloadView,
    DownloadActionView,
) {
    (download_in(download, DownloadPhase::Failed(e)), DownloadActionView::Abort(e))
}

/// What comes once `written` chunks were written: the query for the next
/// chunk, or the end when no chunk is left.
pub open spec fn download_next(download: DownloadView, written: nat) -> (
    DownloadView,
    DownloadActionView,
) {
    if written < download.chunks {
        (
            download_in(download, DownloadPhase::Fetching(written as usize)),
            DownloadActionView::Query(
                chunk_key(download.root, download.resource_name, written),
            ),
        )
    } else {
        (download_in(download, DownloadPhase::Finished), DownloadActionView::Complete)
    }
}

/// One step of a download: where it stands after `event`, and what it asks
/// for.
///
/// The record is asked for first. Its query must have one reply, tagged as
/// structured, and the payload must decode. The destination is then brought
/// to the size that the record gives. After that each chunk is asked for in
/// ascending order; its query must have one reply, tagged as binary, whose
/// payload is written at the chunk's place. A failure that the caller
/// reports, a query without a reply or with several, a wrong tag and a
/// payload that does not decode each end the download.
pub open spec fn download_step(download: DownloadView, event: DownloadEventView) -> (
    DownloadView,
    DownloadActionView,
) {
    match download.phase {
        DownloadPhase::Finished => (download, DownloadActionView::Complete),
        DownloadPhase::Failed(e) => (download, DownloadActionView::Abort(e)),
        _ => match event {
            DownloadEventView::Failure(e) => download_failed(download, e),
            DownloadEventView::Begin => match download.phase {
                DownloadPhase::Start => (
                    download_in(download, DownloadPhase::Metadata),
                    DownloadActionView::Query(metadata_key(download.root, download.resource_name)),
                ),
                _ => (download, DownloadActionView::Wait),
            },
            DownloadEventView::Replies(replies) => match download.phase {
                DownloadPhase::Metadata => match single_payload_spec(
                    replies,
                    Encoding::Structured,
                ) {
                    Ok(payload) => (
                        download_in(download, DownloadPhase::Decoding),
                        DownloadActionView::Decode(payload),
                    ),
                    Err(e) => download_failed(download, e),
                },
                DownloadPhase::Fetching(i) => match single_payload_spec(replies, Encoding::Binary) {
                    Ok(data) => (
                        download_in(download, DownloadPhase::Writing(i)),
                        DownloadActionView::Write {
                            chunk_num: i,
                            chunk_size: download.chunk_size,
                            data,
                        },
                    ),
                    Err(e) => download_failed(download, e),
                },
                _ => (download, DownloadActionView::Wait),
            },
            DownloadEventView::Record(record) => match download.phase {
                DownloadPhase::Decoding => match record {
                    Some(m) => (
                        DownloadView {
                            root: download.root,
                            resource_name: download.resource_name,
                            chunks: m.chunks,
                            chunk_size: m.chunk_size,
                            phase: DownloadPhase::Allocating,
                        },
                        DownloadActionView::Allocate(m.size),
                    ),
                    None => download_failed(download, CdnError::MalformedMetadata),
                },
                _ => (download, DownloadActionView::Wait),
            },
            DownloadEventView::Done => match download.phase {
                DownloadPhase::Allocating => download_next(download, 0),
                DownloadPhase::Writing(i) => download_next(download, i as nat + 1),
                _ => (download, DownloadActionView::Wait),
            },
        },
    }
}

/// The one reply that answers the query for a chunk with the bytes `data`.
pub open spec fn chunk_reply(data: Seq<u8>) -> DownloadEventView {
    DownloadEventView::Replies(seq![ReplyView { encoding: Encoding::Binary, payload: data }])
}

/// The download after the destination was brought to size and the first `n`
/// chunks were fetched and written, where the query for chunk `i` had the
/// one binary reply `chunks(i)`.
pub open spec fn download_after(
    download: DownloadView,
    chunks: spec_fn(nat) -> Seq<u8>,
    n: nat,
) -> DownloadView
    decreases n,
{
    if n == 0 {
        download_step(download, DownloadEventView::Done).0
    } else {
        let fetching = download_after(download, chunks, (n - 1) as nat);
        let writing = download_step(fetching, chunk_reply(chunks((n - 1) as nat))).0;
        download_step(writing, DownloadEventView::Done).0
    }
}

/// What such a download asks for when the reply for chunk `n` arrives.
pub open spec fn download_write(
    download: DownloadView,
    chunks: spec_fn(nat) -> Seq<u8>,
    n: nat,
) -> DownloadActionView {
    download_step(download_after(download, chunks, n), chunk_reply(chunks(n))).1
}

/// The destination after such a download wrote its first `n` chunks into
/// `dest`.
pub open spec fn download_written(
    dest: Seq<u8>,
    download: DownloadView,
    chunks: spec_fn(nat) -> Seq<u8>,
    n: nat,
) -> Seq<u8>
    decreases n,
{
    if n == 0 {
        dest
    } else {
        let before = download_written(dest, download, chunks, (n - 1) as nat);
        match download_write(download, chunks, (n - 1) as nat) {
            DownloadActionView::Write { chunk_num, chunk_size, data } => place(
                before,
                chunk_num as nat,
                chunk_size as nat,
                data,
            ),
            _ => before,
        }
    }
}

/// A download asks for the chunks in ascending order and has each written
/// at the place of its number, with the chunk size of the record; it ends
/// when as many chunks were written as the record counts.
pub proof fn lemma_download_order(download: DownloadView, chunks: spec_fn(nat) -> Seq<u8>, n: nat)
    requires
        download.phase == DownloadPhase::Allocating,
        n <= download.chunks,
    ensures
        n < download.chunks ==> download_after(download, chunks, n) == download_in(
            download,
            DownloadPhase::Fetching(n as usize),
        ) && download_write(download, chunks, n) == (DownloadActionView::Write {
            chunk_num: n as usize,
            chunk_size: download.chunk_size,
            data: chunks(n),
        }),
        n == download.chunks ==> download_after(download, chunks, n) == download_in(
            download,
            DownloadPhase::Finished,
        ),
    decreases n,
{
    if n > 0 {
        let k = (n - 1) as nat;
        lemma_download_order(download, chunks, k);
        let reply = ReplyView { encoding: Encoding::Binary, payload: chunks(k) };
        assert(seq![reply].len() == 1);
        assert(seq![reply][0] == reply);
    }
    if n < download.chunks {
        let reply = ReplyView { encoding: Encoding::Binary, payload: chunks(n) };
        assert(seq![reply].len() == 1);
        assert(seq![reply][0] == reply);
    }
}

/// Such a download writes what putting the chunks together writes.
pub proof fn lemma_download_assembles(
    dest: Seq<u8>,
    download: DownloadView,
    file: Seq<u8>,
    n: nat,
)
    requires
        download.phase == DownloadPhase::Allocating,
        n <= download.chunks,
    ensures
        download_written(
            dest,
            download,
            |i: nat| chunk_of(file, i, download.chunk_size as nat),
            n,
        ) == assemble(dest, file, download.chunk_size as nat, n),
    decreases n,
{
    if n > 0 {
        let chunks = |i: nat| chunk_of(file, i, download.chunk_size as nat);
        lemma_download_assembles(dest, download, file, (n - 1) as nat);
        lemma_download_order(download, chunks, (n - 1) as nat);
    }
}

/// What was uploaded is what is downloaded. Where the record that a
/// download received tells the size, the chunk size and the chunk count of
/// a file, and each query for a chunk is answered with that chunk of the
/// file, the download ends with a destination that holds the file's bytes
/// and has the file's length.
pub proof fn lemma_download_round_trip(dest: Seq<u8>, download: DownloadView, file: Seq<u8>)
    requires
        download.phase == DownloadPhase::Allocating,
        download.chunk_size > 0,
        download.chunks == chunk_count_spec(file.len(), download.chunk_size as nat),
        dest.len() == file.len(),
    ensures
        download_after(
            download,
            |i: nat| chunk_of(file, i, download.chunk_size as nat),
            download.chunks as nat,
        ).phase == DownloadPhase::Finished,
        download_written(
            dest,
            download,
            |i: nat| chunk_of(file, i, download.chunk_size as nat),
            download.chunks as nat,
        ) == file,
{
    let chunks = |i: nat| chunk_of(file, i, download.chunk_size as nat);
    lemma_download_order(download, chunks, download.chunks as nat);
    lemma_download_assembles(dest, download, file, download.chunks as nat);
    lemma_round_trip(dest, file, download.chunk_size as nat);
}

impl Download {
    /// Gives the download up with the error `e`.
    fn fail(&mut self, e: CdnError) -> (action: DownloadAction)
        ensures
            (final(self)@, action@) == download_failed(old(self)@, e),
    {
        self.phase = DownloadPhase::Failed(e);
        DownloadAction::Abort(e)
    }

    /// What comes once `written` chunks were written.
    fn next(&mut self, written: Option<usize>) -> (action: DownloadAction)
        ensures
            (final(self)@, action@) == download_next(
                old(self)@,
                match written {
                    Some(n) => n as nat,
                    None => usize::MAX as nat + 1,
                },
            ),
    {
        let index: usize = match written {
            Some(n) => n,
            None => self.chunks,
        };
        if index < self.chunks {
            let selector = file_chunk_path(self.root.as_str(), self.resource_name.as_str(), index);
            self.phase = DownloadPhase::Fetching(index);
            DownloadAction::Query(selector)
        } else {
            self.phase = DownloadPhase::Finished;
            DownloadAction::Complete
        }
    }

    /// Takes the download one step further: `event` tells how what was
    /// asked for last went, and the result is what to do next. See
    /// `download_step`.
    pub fn step(&mut self, event: DownloadEvent) -> (action: DownloadAction)
        ensures
            (final(self)@, action@) == download_step(old(self)@, event@),
    {
        match self.phase {
            DownloadPhase::Finished => {
                return DownloadAction::Complete;
            },
            DownloadPhase::Failed(e) => {
                return DownloadAction::Abort(e);
            },
            _ => {},
        }
        match event {
            DownloadEvent::Failure(e) => self.fail(e),
            DownloadEvent::Begin => match self.phase {
                DownloadPhase::Start => {
                    let selector = file_metadata_path(
                        self.root.as_str(),
                        self.resource_name.as_str(),
                    );
                    self.phase = DownloadPhase::Metadata;
                    DownloadAction::Query(selector)
                },
                _ => DownloadAction::Wait,
            },
            DownloadEvent::Replies(replies) => match self.phase {
                DownloadPhase::Metadata => match single_payload(replies, Encoding::Structured) {
                    Ok(payload) => {
                        self.phase = DownloadPhase::Decoding;
                        DownloadAction::Decode(payload)
                    },
                    Err(e) => self.fail(e),
                },
                DownloadPhase::Fetching(i) => match single_payload(replies, Encoding::Binary) {
                    Ok(data) => {
                        self.phase = DownloadPhase::Writing(i);
                        DownloadAction::Write { chunk_num: i, chunk_size: self.chunk_size, data }
                    },
                    Err(e) => self.fail(e),
                },
                _ => DownloadAction::Wait,
            },
            DownloadEvent::Record(record) => match self.phase {
                DownloadPhase::Decoding => match record {
                    Some(m) => {
                        self.chunks = m.chunks;
                        self.chunk_size = m.chunk_size;
                        self.phase = DownloadPhase::Allocating;
                        DownloadAction::Allocate(m.size)
                    },
                    None => self.fail(CdnError::MalformedMetadata),
                },
                _ => DownloadAction::Wait,
            },
            DownloadEvent::Done => match self.phase {
                DownloadPhase::Allocating => self.next(Some(0)),
                DownloadPhase::Writing(i) => self.next(i.checked_add(1)),
                _ => DownloadAction::Wait,
            },
        }
    }
}

impl Client {
    /// A client that builds its keys under `root`, or under the default
    /// root where none is given, and cuts files into chunks of the default
    /// size.
    pub fn new(root: Option<String>) -> (client: Client)
        ensures
            client.root@ == (match root {
                Some(r) => r@,
                None => default_root(),
            }),
            client.chunk_size == DEFAULT_CHUNK_SIZE,
    {
        let root = match root {
            Some(r) => r,
            None => {
                proof {
                    reveal_strlit("/zenohcdn");
                }
                let r = String::from_str(DEFAULT_ROOT);
                assert(r@ =~= default_root());
                r
            },
        };
        Client { root, chunk_size: DEFAULT_CHUNK_SIZE }
    }

    /// Prepares the upload of a file under the name `resource_name`.
    ///
    /// `filename` is the base name of the file's path, or `None` where the
    /// path has no file name, which is refused as an invalid path;
    /// `checksum` is the digest of the file's content and `size` its length
    /// in bytes. The record of the upload counts `size / chunk_size + 1`
    /// chunks of the client's chunk size. Nothing is published before the
    /// first step.
    pub fn upload(
        &self,
        filename: Option<String>,
        checksum: String,
        size: u64,
        resource_name: &str,
    ) -> (upload: Result<Upload, CdnError>)
        requires
            chunk_count_fits(size as nat, self.chunk_size as nat),
        ensures
            filename is None ==> upload == Err::<Upload, CdnError>(CdnError::InvalidPath),
            filename is Some ==> upload is Ok && upload->Ok_0@ == (UploadView {
                root: self.root@,
                metadata: FileMetadataView {
                    filename: filename->Some_0@,
                    checksum: checksum@,
                    chunk_size: self.chunk_size,
                    chunks: chunk_count_spec(size as nat, self.chunk_size as nat) as usize,
                    resource_name: resource_name@,
                    size,
                },
                phase: UploadPhase::Start,
            }),
    {
        let filename = match filename {
            Some(name) => name,
            None => {
                return Err(CdnError::InvalidPath);
            },
        };
        let chunks = chunk_count(size, self.chunk_size);
        let metadata = FileMetadata {
            filename,
            checksum,
            chunk_size: self.chunk_size,
            chunks,
            resource_name: String::from_str(resource_name),
            size,
        };
        Ok(Upload { root: self.root.clone(), metadata, phase: UploadPhase::Start })
    }

    /// Prepares the download of the resource `resource_name`. Nothing is
    /// asked for before the first step.
    pub fn download(&self, resource_name: &str) -> (download: Download)
        ensures
            download@ == (DownloadView {
                root: self.root@,
                resource_name: resource_name@,
                chunks: 0,
                chunk_size: 0,
                phase: DownloadPhase::Start,
            }),
    {
        Download {
            root: self.root.clone(),
            resource_name: String::from_str(resource_name),
            chunks: 0,
            chunk_size: 0,
            phase: DownloadPhase::Start,
        }
    }
}

} // verus!
