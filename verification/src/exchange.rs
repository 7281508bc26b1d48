//! One client and one server, end to end: what a server has on disk after a
//! client uploaded a file to it, what it answers to the queries of a
//! download, and what the download writes.
//!
//! The transport, the disk and the serialization of records are modelled
//! here as far as the protocol looks at them. A disk is the content of each
//! file by shard and file name. Publishing hands the server one
//! notification, and querying reads one file of its disk. The serialization
//! is any pair of functions of which the second reads back what the first
//! wrote.

use vstd::prelude::*;
use crate::chunks::{
    assemble, chunk_fits, chunk_in_range, chunk_len, chunk_of, lemma_assemble_prefix,
    lemma_counted_chunks_in_range, lemma_round_trip, place,
};
use crate::client::{
    download_in, download_step, upload_in, upload_step, DownloadActionView, DownloadEventView,
    DownloadPhase, DownloadView, UploadActionView, UploadEvent, UploadPhase, UploadView,
};
use crate::decimal::{decimal, lemma_decimal_round_trip, parse_index_spec};
use crate::digest::shard_name;
use crate::error::CdnError;
use crate::keys::{
    chunk_key, key_prefix, last_segment, lemma_classify_chunk_key, lemma_classify_metadata_key,
    metadata_key,
};
use crate::message::{Encoding, ReplyView, SampleKind, SampleView};
use crate::server::{
    disk_after, metadata_file, process_query_spec, reply_spec,
};
use crate::types::FileMetadataView;

verus! {

/// The notification that publishes `payload` under `key` with the tag
/// `encoding`.
pub open spec fn published(key: Seq<char>, encoding: Encoding, payload: Seq<u8>) -> SampleView {
    SampleView { res_name: key, encoding, payload, kind: SampleKind::Put }
}

/// The replies that a client gets to a query for `key` from one server with
/// the disk `disk`: the file that the key addresses, or nothing where the
/// key is refused or the file is not there.
pub open spec fn answer(
    disk: Map<(Seq<char>, Seq<char>), Seq<u8>>,
    prefix: Seq<char>,
    key: Seq<char>,
) -> Seq<ReplyView> {
    match process_query_spec(prefix, key) {
        Ok(target) => {
            let content = if disk.dom().contains((target.shard, target.file)) {
                Some(disk[(target.shard, target.file)])
            } else {
                None
            };
            match reply_spec(key, target.encoding, content) {
                Ok(sample) => seq![
                    ReplyView { encoding: sample.encoding, payload: sample.payload },
                ],
                Err(_) => Seq::empty(),
            }
        },
        Err(_) => Seq::empty(),
    }
}

/// How an upload is carried out against one server: what the caller reports
/// after doing what `action` asks for, and the server's disk after that.
/// The chunks are read from `file`; the record is serialized by `encode`
/// and read back by `decode`.
pub open spec fn perform_upload(
    action: UploadActionView,
    file: Seq<u8>,
    disk: Map<(Seq<char>, Seq<char>), Seq<u8>>,
    prefix: Seq<char>,
    encode: spec_fn(FileMetadataView) -> Seq<u8>,
    decode: spec_fn(Seq<u8>) -> Option<FileMetadataView>,
) -> (UploadEvent, Map<(Seq<char>, Seq<char>), Seq<u8>>) {
    match action {
        UploadActionView::PublishChunk { key, chunk_number, chunk_size } => {
            if chunk_in_range(file.len(), chunk_number as nat, chunk_size as nat) {
                let data = chunk_of(file, chunk_number as nat, chunk_size as nat);
                (
                    UploadEvent::Published,
                    disk_after(disk, prefix, published(key, Encoding::Binary, data), None),
                )
            } else {
                (UploadEvent::Failure(CdnError::ChunkOutOfRange), disk)
            }
        },
        UploadActionView::PublishMetadata { key, metadata } => {
            let payload = encode(metadata);
            (
                UploadEvent::Published,
                disk_after(
                    disk,
                    prefix,
                    published(key, Encoding::Structured, payload),
                    decode(payload),
                ),
            )
        },
        _ => (UploadEvent::Published, disk),
    }
}

/// The upload and the server's disk after at most `steps` steps of an
/// upload that goes on from `event`. The upload ends when it asks for
/// nothing more.
pub open spec fn upload_run(
    upload: UploadView,
    event: UploadEvent,
    file: Seq<u8>,
    disk: Map<(Seq<char>, Seq<char>), Seq<u8>>,
    prefix: Seq<char>,
    encode: spec_fn(FileMetadataView) -> Seq<u8>,
    decode: spec_fn(Seq<u8>) -> Option<FileMetadataView>,
    steps: nat,
) -> (UploadView, Map<(Seq<char>, Seq<char>), Seq<u8>>)
    decreases steps,
{
    if steps == 0 {
        (upload, disk)
    } else {
        let (next, action) = upload_step(upload, event);
        match action {
            UploadActionView::PublishChunk { .. } | UploadActionView::PublishMetadata { .. } => {
                let (outcome, stored) = perform_upload(action, file, disk, prefix, encode, decode);
                upload_run(next, outcome, file, stored, prefix, encode, decode, (steps - 1) as nat)
            },
            _ => (next, disk),
        }
    }
}

/// How a download is carried out against one server: what the caller
/// reports after doing what `action` asks for, and the destination after
/// that. A query is answered from `disk`; the destination is brought to size
/// filled with zeros.
pub open spec fn perform_download(
    action: DownloadActionView,
    dest: Seq<u8>,
    disk: Map<(Seq<char>, Seq<char>), Seq<u8>>,
    prefix: Seq<char>,
    decode: spec_fn(Seq<u8>) -> Option<FileMetadataView>,
) -> (DownloadEventView, Seq<u8>) {
    match action {
        DownloadActionView::Query(selector) => (
            DownloadEventView::Replies(answer(disk, prefix, selector)),
            dest,
        ),
        DownloadActionView::Decode(payload) => (DownloadEventView::Record(decode(payload)), dest),
        DownloadActionView::Allocate(size) => (
            DownloadEventView::Done,
            Seq::new(size as nat, |i: int| 0u8),
        ),
        DownloadActionView::Write { chunk_num, chunk_size, data } => {
            if chunk_fits(dest.len(), chunk_num as nat, chunk_size as nat, data.len()) {
                (DownloadEventView::Done, place(dest, chunk_num as nat, chunk_size as nat, data))
            } else {
                (DownloadEventView::Failure(CdnError::ChunkOutOfRange), dest)
            }
        },
        _ => (DownloadEventView::Done, dest),
    }
}

/// The download and the destination after at most `steps` steps of a
/// download that goes on from `event`. The download ends when it asks for
/// nothing more.
pub open spec fn download_run(
    download: DownloadView,
    event: DownloadEventView,
    dest: Seq<u8>,
    disk: Map<(Seq<char>, Seq<char>), Seq<u8>>,
    prefix: Seq<char>,
    decode: spec_fn(Seq<u8>) -> Option<FileMetadataView>,
    steps: nat,
) -> (DownloadView, Seq<u8>)
    decreases steps,
{
    if steps == 0 {
        (download, dest)
    } else {
        let (next, action) = download_step(download, event);
        match action {
            DownloadActionView::Complete | DownloadActionView::Abort(_) | DownloadActionView::Wait => (
                next,
                dest,
            ),
            _ => {
                let (outcome, written) = perform_download(action, dest, disk, prefix, decode);
                download_run(next, outcome, written, disk, prefix, decode, (steps - 1) as nat)
            },
        }
    }
}

/// An upload that has a step left takes it: it does what the step asks for
/// and goes on from what came of it, or ends where the step asks for
/// nothing more.
pub proof fn lemma_upload_run_step(
    upload: UploadView,
    event: UploadEvent,
    file: Seq<u8>,
    disk: Map<(Seq<char>, Seq<char>), Seq<u8>>,
    prefix: Seq<char>,
    encode: spec_fn(FileMetadataView) -> Seq<u8>,
    decode: spec_fn(Seq<u8>) -> Option<FileMetadataView>,
    steps: nat,
    next: UploadView,
    action: UploadActionView,
)
    requires
        steps > 0,
        upload_step(upload, event) == (next, action),
    ensures
        action is PublishChunk || action is PublishMetadata ==> upload_run(
            upload,
            event,
            file,
            disk,
            prefix,
            encode,
            decode,
            steps,
        ) == upload_run(
            next,
            perform_upload(action, file, disk, prefix, encode, decode).0,
            file,
            perform_upload(action, file, disk, prefix, encode, decode).1,
            prefix,
            encode,
            decode,
            (steps - 1) as nat,
        ),
        !(action is PublishChunk || action is PublishMetadata) ==> upload_run(
            upload,
            event,
            file,
            disk,
            prefix,
            encode,
            decode,
            steps,
        ) == (next, disk),
{
}

/// A download that has a step left takes it: it does what the step asks
/// for and goes on from what came of it, or ends where the step asks for
/// nothing more.
pub proof fn lemma_download_run_step(
    download: DownloadView,
    event: DownloadEventView,
    dest: Seq<u8>,
    disk: Map<(Seq<char>, Seq<char>), Seq<u8>>,
    prefix: Seq<char>,
    decode: spec_fn(Seq<u8>) -> Option<FileMetadataView>,
    steps: nat,
    next: DownloadView,
    action: DownloadActionView,
)
    requires
        steps > 0,
        download_step(download, event) == (next, action),
    ensures
        action is Complete || action is Abort || action is Wait ==> download_run(
            download,
            event,
            dest,
            disk,
            prefix,
            decode,
            steps,
        ) == (next, dest),
        !(action is Complete || action is Abort || action is Wait) ==> download_run(
            download,
            event,
            dest,
            disk,
            prefix,
            decode,
            steps,
        ) == download_run(
            next,
            perform_download(action, dest, disk, prefix, decode).0,
            perform_download(action, dest, disk, prefix, decode).1,
            disk,
            prefix,
            decode,
            (steps - 1) as nat,
        ),
{
}

/// The disk after the first `n` chunks of `file` were published under the
/// keys of the resource `name` and stored.
pub open spec fn disk_with_chunks(
    disk: Map<(Seq<char>, Seq<char>), Seq<u8>>,
    root: Seq<char>,
    name: Seq<char>,
    file: Seq<u8>,
    chunk_size: nat,
    n: nat,
) -> Map<(Seq<char>, Seq<char>), Seq<u8>>
    decreases n,
{
    if n == 0 {
        disk
    } else {
        disk_after(
            disk_with_chunks(disk, root, name, file, chunk_size, (n - 1) as nat),
            key_prefix(root),
            published(
                chunk_key(root, name, (n - 1) as nat),
                Encoding::Binary,
                chunk_of(file, (n - 1) as nat, chunk_size),
            ),
            None,
        )
    }
}

/// The disk after a whole upload: every chunk that the record counts, then
/// the record, serialized as `encoded`.
pub open spec fn disk_after_upload(
    disk: Map<(Seq<char>, Seq<char>), Seq<u8>>,
    root: Seq<char>,
    metadata: FileMetadataView,
    file: Seq<u8>,
    encoded: Seq<u8>,
) -> Map<(Seq<char>, Seq<char>), Seq<u8>> {
    disk_after(
        disk_with_chunks(
            disk,
            root,
            metadata.resource_name,
            file,
            metadata.chunk_size as nat,
            metadata.chunks as nat,
        ),
        key_prefix(root),
        published(
            metadata_key(root, metadata.resource_name),
            Encoding::Structured,
            encoded,
        ),
        Some(metadata),
    )
}

/// Different indices are written differently, and no index is written as
/// the name of the metadata file.
pub proof fn lemma_chunk_files_differ(i: nat, j: nat)
    ensures
        decimal(i) == decimal(j) ==> i == j,
        decimal(i) != metadata_file(),
{
    lemma_decimal_round_trip(i);
    lemma_decimal_round_trip(j);
    assert(metadata_file()[0] == 'm');
}

/// After the first `n` chunks of a file were published, the shard of the
/// resource holds each of them in the file named by its index.
pub proof fn lemma_disk_with_chunks(
    disk: Map<(Seq<char>, Seq<char>), Seq<u8>>,
    root: Seq<char>,
    name: Seq<char>,
    file: Seq<u8>,
    chunk_size: nat,
    n: nat,
    i: nat,
)
    requires
        i < n <= usize::MAX,
    ensures
        disk_with_chunks(disk, root, name, file, chunk_size, n).dom().contains(
            (shard_name(name), decimal(i)),
        ),
        disk_with_chunks(disk, root, name, file, chunk_size, n)[(shard_name(name), decimal(i))]
            == chunk_of(file, i, chunk_size),
    decreases n,
{
    let k = (n - 1) as nat;
    lemma_classify_chunk_key(root, name, k as usize);
    if i < k {
        lemma_disk_with_chunks(disk, root, name, file, chunk_size, k, i);
        lemma_chunk_files_differ(i, k);
    }
}

/// After an upload, the server answers the query for each chunk with that
/// chunk, tagged as binary, and the query for the record with the record
/// as it was serialized, tagged as structured. The record is found as long
/// as the last segment of the resource name does not read as an index.
pub proof fn lemma_upload_is_served(
    disk: Map<(Seq<char>, Seq<char>), Seq<u8>>,
    root: Seq<char>,
    metadata: FileMetadataView,
    file: Seq<u8>,
    encoded: Seq<u8>,
    i: nat,
)
    ensures
        i < metadata.chunks ==> answer(
            disk_after_upload(disk, root, metadata, file, encoded),
            key_prefix(root),
            chunk_key(root, metadata.resource_name, i),
        ) == seq![
            ReplyView {
                encoding: Encoding::Binary,
                payload: chunk_of(file, i, metadata.chunk_size as nat),
            },
        ],
        parse_index_spec(last_segment(metadata.resource_name)) is None ==> answer(
            disk_after_upload(disk, root, metadata, file, encoded),
            key_prefix(root),
            metadata_key(root, metadata.resource_name),
        ) == seq![ReplyView { encoding: Encoding::Structured, payload: encoded }],
{
    let name = metadata.resource_name;
    if i < metadata.chunks {
        lemma_disk_with_chunks(
            disk,
            root,
            name,
            file,
            metadata.chunk_size as nat,
            metadata.chunks as nat,
            i,
        );
        lemma_classify_chunk_key(root, name, i as usize);
        lemma_chunk_files_differ(i, i);
    }
    if parse_index_spec(last_segment(name)) is None {
        lemma_classify_metadata_key(root, name);
    }
}

/// An upload that is carried out to its end leaves on the server's disk
/// every chunk of the file and the record, and ends as finished.
pub proof fn lemma_upload_run(
    upload: UploadView,
    published_chunks: nat,
    file: Seq<u8>,
    disk: Map<(Seq<char>, Seq<char>), Seq<u8>>,
    encode: spec_fn(FileMetadataView) -> Seq<u8>,
    decode: spec_fn(Seq<u8>) -> Option<FileMetadataView>,
    steps: nat,
)
    requires
        upload.metadata.consistent(),
        upload.metadata.size == file.len(),
        decode(encode(upload.metadata)) == Some(upload.metadata),
        published_chunks <= upload.metadata.chunks,
        published_chunks == 0 ==> upload.phase == UploadPhase::Start,
        published_chunks > 0 ==> upload.phase == UploadPhase::Chunk(
            (published_chunks - 1) as usize,
        ),
        steps >= upload.metadata.chunks - published_chunks + 2,
    ensures
        upload_run(
            upload,
            if published_chunks == 0 {
                UploadEvent::Begin
            } else {
                UploadEvent::Published
            },
            file,
            disk_with_chunks(
                disk,
                upload.root,
                upload.metadata.resource_name,
                file,
                upload.metadata.chunk_size as nat,
                published_chunks,
            ),
            key_prefix(upload.root),
            encode,
            decode,
            steps,
        ) == (
            upload_in(upload, UploadPhase::Finished),
            disk_after_upload(disk, upload.root, upload.metadata, file, encode(upload.metadata)),
        ),
    decreases upload.metadata.chunks - published_chunks,
{
    let m = upload.metadata;
    let prefix = key_prefix(upload.root);
    let event = if published_chunks == 0 {
        UploadEvent::Begin
    } else {
        UploadEvent::Published
    };
    let stored = disk_with_chunks(
        disk,
        upload.root,
        m.resource_name,
        file,
        m.chunk_size as nat,
        published_chunks,
    );
    if published_chunks < m.chunks {
        let next = upload_in(upload, UploadPhase::Chunk(published_chunks as usize));
        let action = UploadActionView::PublishChunk {
            key: chunk_key(upload.root, m.resource_name, published_chunks),
            chunk_number: published_chunks as usize,
            chunk_size: m.chunk_size,
        };
        assert(upload_step(upload, event) == (next, action));
        lemma_counted_chunks_in_range(m.size as nat, m.chunk_size as nat, published_chunks);
        assert(perform_upload(action, file, stored, prefix, encode, decode) == (
            UploadEvent::Published,
            disk_with_chunks(
                disk,
                upload.root,
                m.resource_name,
                file,
                m.chunk_size as nat,
                published_chunks + 1,
            ),
        ));
        lemma_upload_run_step(
            upload,
            event,
            file,
            stored,
            prefix,
            encode,
            decode,
            steps,
            next,
            action,
        );
        lemma_upload_run(
            next,
            published_chunks + 1,
            file,
            disk,
            encode,
            decode,
            (steps - 1) as nat,
        );
    } else {
        let next = upload_in(upload, UploadPhase::Metadata);
        let action = UploadActionView::PublishMetadata {
            key: metadata_key(upload.root, m.resource_name),
            metadata: m,
        };
        let after = disk_after_upload(disk, upload.root, m, file, encode(m));
        let done = upload_in(upload, UploadPhase::Finished);
        assert(upload_step(upload, event) == (next, action));
        assert(perform_upload(action, file, stored, prefix, encode, decode) == (
            UploadEvent::Published,
            after,
        ));
        lemma_upload_run_step(
            upload,
            event,
            file,
            stored,
            prefix,
            encode,
            decode,
            steps,
            next,
            action,
        );
        assert(upload_step(next, UploadEvent::Published) == (
            done,
            UploadActionView::Complete { key: metadata_key(upload.root, m.resource_name) },
        ));
        lemma_upload_run_step(
            next,
            UploadEvent::Published,
            file,
            after,
            prefix,
            encode,
            decode,
            (steps - 1) as nat,
            done,
            UploadActionView::Complete { key: metadata_key(upload.root, m.resource_name) },
        );
    }
}

/// A download that is served from the disk that an upload left, and that
/// has come to ask for the chunk `fetching`, goes on to the end: it writes
/// each chunk that is left at its place and ends as finished with the
/// file in the destination.
pub proof fn lemma_download_run_chunks(
    download: DownloadView,
    fetching: nat,
    dest: Seq<u8>,
    file: Seq<u8>,
    metadata: FileMetadataView,
    disk: Map<(Seq<char>, Seq<char>), Seq<u8>>,
    encoded: Seq<u8>,
    decode: spec_fn(Seq<u8>) -> Option<FileMetadataView>,
    steps: nat,
)
    requires
        metadata.consistent(),
        metadata.size == file.len(),
        download.resource_name == metadata.resource_name,
        download.chunks == metadata.chunks,
        download.chunk_size == metadata.chunk_size,
        fetching < metadata.chunks,
        download.phase == DownloadPhase::Fetching(fetching as usize),
        dest.len() == file.len(),
        steps >= 2 * (metadata.chunks - fetching),
    ensures
        download_run(
            download,
            DownloadEventView::Replies(
                answer(
                    disk_after_upload(disk, download.root, metadata, file, encoded),
                    key_prefix(download.root),
                    chunk_key(download.root, download.resource_name, fetching),
                ),
            ),
            assemble(dest, file, metadata.chunk_size as nat, fetching),
            disk_after_upload(disk, download.root, metadata, file, encoded),
            key_prefix(download.root),
            decode,
            steps,
        ) == (download_in(download, DownloadPhase::Finished), file),
    decreases metadata.chunks - fetching,
{
    let c = metadata.chunk_size as nat;
    let stored = disk_after_upload(disk, download.root, metadata, file, encoded);
    let prefix = key_prefix(download.root);
    let replies = answer(
        stored,
        prefix,
        chunk_key(download.root, download.resource_name, fetching),
    );
    let chunk = chunk_of(file, fetching, c);
    let before = assemble(dest, file, c, fetching);
    lemma_upload_is_served(disk, download.root, metadata, file, encoded, fetching);
    assert(replies.len() == 1);
    assert(replies[0] == ReplyView { encoding: Encoding::Binary, payload: chunk });
    lemma_counted_chunks_in_range(file.len(), c, fetching);
    lemma_assemble_prefix(dest, file, c, fetching);
    assert(chunk.len() == chunk_len(file.len(), fetching, c));
    assert(chunk_fits(before.len(), fetching, c, chunk.len()));

    let writing = download_in(download, DownloadPhase::Writing(fetching as usize));
    let write = DownloadActionView::Write {
        chunk_num: fetching as usize,
        chunk_size: download.chunk_size,
        data: chunk,
    };
    let after = assemble(dest, file, c, fetching + 1);
    assert(download_step(download, DownloadEventView::Replies(replies)) == (writing, write));
    assert(perform_download(write, before, stored, prefix, decode) == (
        DownloadEventView::Done,
        after,
    ));
    lemma_download_run_step(
        download,
        DownloadEventView::Replies(replies),
        before,
        stored,
        prefix,
        decode,
        steps,
        writing,
        write,
    );

    if fetching + 1 < metadata.chunks {
        let next = download_in(download, DownloadPhase::Fetching((fetching + 1) as usize));
        let request = DownloadActionView::Query(
            chunk_key(download.root, download.resource_name, fetching + 1),
        );
        assert(download_step(writing, DownloadEventView::Done) == (next, request));
        lemma_download_run_step(
            writing,
            DownloadEventView::Done,
            after,
            stored,
            prefix,
            decode,
            (steps - 1) as nat,
            next,
            request,
        );
        lemma_download_run_chunks(
            next,
            fetching + 1,
            dest,
            file,
            metadata,
            disk,
            encoded,
            decode,
            (steps - 2) as nat,
        );
    } else {
        let next = download_in(download, DownloadPhase::Finished);
        assert(download_step(writing, DownloadEventView::Done) == (
            next,
            DownloadActionView::Complete,
        ));
        lemma_download_run_step(
            writing,
            DownloadEventView::Done,
            after,
            stored,
            prefix,
            decode,
            (steps - 1) as nat,
            next,
            DownloadActionView::Complete,
        );
        lemma_round_trip(dest, file, c);
    }
}

/// What was uploaded is what is downloaded.
///
/// A client uploads a file to a server, and a client of the same root
/// downloads the resource from that server. Where both are carried out to
/// their ends, the upload ends as finished, the download ends as finished,
/// and the destination holds the bytes of the file and has its length.
///
/// This holds for every file, every chunk size above zero and every state
/// of the disk and of the destination before, as long as the record is read
/// back as it was serialized and the last segment of the resource name does
/// not read as an index. A resource of such a name cannot be downloaded:
/// the key of its record reads as the key of a chunk.
pub proof fn lemma_download_of_upload(
    upload: UploadView,
    download: DownloadView,
    file: Seq<u8>,
    disk: Map<(Seq<char>, Seq<char>), Seq<u8>>,
    dest: Seq<u8>,
    encode: spec_fn(FileMetadataView) -> Seq<u8>,
    decode: spec_fn(Seq<u8>) -> Option<FileMetadataView>,
    upload_steps: nat,
    download_steps: nat,
)
    requires
        upload.phase == UploadPhase::Start,
        upload.metadata.consistent(),
        upload.metadata.size == file.len(),
        decode(encode(upload.metadata)) == Some(upload.metadata),
        parse_index_spec(last_segment(upload.metadata.resource_name)) is None,
        download.phase == DownloadPhase::Start,
        download.root == upload.root,
        download.resource_name == upload.metadata.resource_name,
        upload_steps >= upload.metadata.chunks + 2,
        download_steps >= 2 * upload.metadata.chunks + 4,
    ensures
        ({
            let prefix = key_prefix(upload.root);
            let (uploaded, stored) = upload_run(
                upload,
                UploadEvent::Begin,
                file,
                disk,
                prefix,
                encode,
                decode,
                upload_steps,
            );
            let (downloaded, written) = download_run(
                download,
                DownloadEventView::Begin,
                dest,
                stored,
                prefix,
                decode,
                download_steps,
            );
            &&& uploaded.phase == UploadPhase::Finished
            &&& downloaded.phase == DownloadPhase::Finished
            &&& written == file
        }),
{
    let m = upload.metadata;
    let prefix = key_prefix(upload.root);
    let encoded = encode(m);
    lemma_upload_run(upload, 0, file, disk, encode, decode, upload_steps);
    let stored = disk_after_upload(disk, upload.root, m, file, encoded);
    lemma_upload_is_served(disk, upload.root, m, file, encoded, 0);

    let record = answer(stored, prefix, metadata_key(upload.root, m.resource_name));
    assert(record.len() == 1);
    assert(record[0] == ReplyView { encoding: Encoding::Structured, payload: encoded });
    let asking = download_in(download, DownloadPhase::Metadata);
    let decoding = download_in(download, DownloadPhase::Decoding);
    let allocating = DownloadView {
        root: download.root,
        resource_name: download.resource_name,
        chunks: m.chunks,
        chunk_size: m.chunk_size,
        phase: DownloadPhase::Allocating,
    };
    let fetching = download_in(allocating, DownloadPhase::Fetching(0));
    let blank = Seq::new(m.size as nat, |i: int| 0u8);
    let ask = DownloadActionView::Query(metadata_key(upload.root, m.resource_name));
    let read = DownloadActionView::Decode(encoded);
    let size = DownloadActionView::Allocate(m.size);
    let first = DownloadActionView::Query(chunk_key(upload.root, m.resource_name, 0));
    assert(download_step(download, DownloadEventView::Begin) == (asking, ask));
    lemma_download_run_step(
        download,
        DownloadEventView::Begin,
        dest,
        stored,
        prefix,
        decode,
        download_steps,
        asking,
        ask,
    );
    assert(download_step(asking, DownloadEventView::Replies(record)) == (decoding, read));
    lemma_download_run_step(
        asking,
        DownloadEventView::Replies(record),
        dest,
        stored,
        prefix,
        decode,
        (download_steps - 1) as nat,
        decoding,
        read,
    );
    assert(download_step(decoding, DownloadEventView::Record(Some(m))) == (allocating, size));
    lemma_download_run_step(
        decoding,
        DownloadEventView::Record(Some(m)),
        dest,
        stored,
        prefix,
        decode,
        (download_steps - 2) as nat,
        allocating,
        size,
    );
    assert(download_step(allocating, DownloadEventView::Done) == (fetching, first));
    lemma_download_run_step(
        allocating,
        DownloadEventView::Done,
        blank,
        stored,
        prefix,
        decode,
        (download_steps - 3) as nat,
        fetching,
        first,
    );
    assert(assemble(blank, file, m.chunk_size as nat, 0) == blank);
    lemma_download_run_chunks(
        fetching,
        0,
        blank,
        file,
        m,
        disk,
        encoded,
        decode,
        (download_steps - 4) as nat,
    );
}

} // verus!
