use zenoh_cdn::digest::hash_path;
use zenoh_cdn::error::CdnError;
use zenoh_cdn::message::{Encoding, Sample, SampleKind};
use zenoh_cdn::server::{IngestStep, QueryTarget, Server, Skipped, StoreRequest};
use zenoh_cdn::types::{FileMetadata, ServerConfig};

fn server() -> Server {
    Server::new(ServerConfig {
        chunks_dir: "/var/cdn".to_string(),
        resource_space: "/zenohcdn/**".to_string(),
    })
}

fn sample(key: &str, encoding: Encoding, payload: &[u8], kind: SampleKind) -> Sample {
    Sample { res_name: key.to_string(), encoding, payload: payload.to_vec(), kind }
}

fn record(resource_name: &str) -> FileMetadata {
    FileMetadata {
        filename: "movie.mp4".to_string(),
        checksum: "sum".to_string(),
        chunk_size: 4,
        chunks: 3,
        resource_name: resource_name.to_string(),
        size: 10,
    }
}

#[test]
fn a_new_server_keeps_its_configuration() {
    let s = server();
    assert_eq!(s.config.chunks_dir, "/var/cdn");
    assert_eq!(s.config.resource_space, "/zenohcdn/**");
}

#[test]
fn a_chunk_goes_to_the_file_of_its_index() {
    let step = server().process_sample(sample(
        "/zenohcdn/files/videos/movie/2",
        Encoding::Binary,
        &[1, 2, 3],
        SampleKind::Put,
    ));
    assert_eq!(
        step,
        Ok(IngestStep::Store(StoreRequest {
            shard: hash_path("videos/movie"),
            file: "2".to_string(),
            content: vec![1, 2, 3],
        }))
    );
}

#[test]
fn a_patched_chunk_is_stored_like_a_written_one() {
    let step = server().process_sample(sample(
        "/zenohcdn/files/f/0",
        Encoding::Binary,
        &[],
        SampleKind::Patch,
    ));
    assert_eq!(
        step,
        Ok(IngestStep::Store(StoreRequest {
            shard: hash_path("f"),
            file: "0".to_string(),
            content: vec![],
        }))
    );
}

#[test]
fn a_chunk_file_is_named_in_plain_decimal() {
    let step = server().process_sample(sample(
        "/zenohcdn/files/f/007",
        Encoding::Binary,
        &[1],
        SampleKind::Put,
    ));
    assert_eq!(
        step,
        Ok(IngestStep::Store(StoreRequest {
            shard: hash_path("f"),
            file: "7".to_string(),
            content: vec![1],
        }))
    );
}

#[test]
fn a_binary_payload_at_a_metadata_key_is_a_malformed_key() {
    let step = server().process_sample(sample(
        "/zenohcdn/files/videos/movie",
        Encoding::Binary,
        &[1, 2, 3],
        SampleKind::Put,
    ));
    assert_eq!(step, Err(CdnError::MalformedKey));
}

#[test]
fn a_binary_payload_outside_the_prefix_is_a_malformed_key() {
    let step = server().process_sample(sample(
        "/elsewhere/files/f/1",
        Encoding::Binary,
        &[1],
        SampleKind::Put,
    ));
    assert_eq!(step, Err(CdnError::MalformedKey));
}

#[test]
fn a_structured_payload_is_to_be_decoded() {
    let step = server().process_sample(sample(
        "/zenohcdn/files/videos/movie",
        Encoding::Structured,
        b"{\"a\":1}",
        SampleKind::Put,
    ));
    assert_eq!(step, Ok(IngestStep::Decode(b"{\"a\":1}".to_vec())));
}

#[test]
fn a_deletion_stores_nothing() {
    for encoding in [Encoding::Binary, Encoding::Structured, Encoding::Other] {
        let step = server().process_sample(sample(
            "/zenohcdn/files/f/1",
            encoding,
            &[1],
            SampleKind::Delete,
        ));
        assert_eq!(step, Ok(IngestStep::Skip(Skipped::Deletion)));
    }
    let outside = server().process_sample(sample("x", Encoding::Binary, &[], SampleKind::Delete));
    assert_eq!(outside, Ok(IngestStep::Skip(Skipped::Deletion)));
}

#[test]
fn an_unknown_tag_stores_nothing() {
    let step = server().process_sample(sample(
        "/zenohcdn/files/f/1",
        Encoding::Other,
        &[1],
        SampleKind::Put,
    ));
    assert_eq!(step, Ok(IngestStep::Skip(Skipped::UnknownEncoding)));
}

#[test]
fn metadata_goes_to_the_shard_that_the_record_names() {
    let request = server().process_metadata(b"text".to_vec(), Some(record("videos/movie")));
    assert_eq!(
        request,
        Ok(StoreRequest {
            shard: hash_path("videos/movie"),
            file: "metadata".to_string(),
            content: b"text".to_vec(),
        })
    );
}

#[test]
fn metadata_that_does_not_decode_is_malformed() {
    assert_eq!(
        server().process_metadata(b"garbage".to_vec(), None),
        Err(CdnError::MalformedMetadata)
    );
}

#[test]
fn a_query_for_a_chunk_reads_the_file_of_its_index() {
    assert_eq!(
        server().process_query("/zenohcdn/files/videos/movie/2"),
        Ok(QueryTarget {
            shard: hash_path("videos/movie"),
            file: "2".to_string(),
            encoding: Encoding::Binary,
        })
    );
}

#[test]
fn a_query_for_a_resource_reads_its_metadata() {
    assert_eq!(
        server().process_query("/zenohcdn/files/videos/movie"),
        Ok(QueryTarget {
            shard: hash_path("videos/movie"),
            file: "metadata".to_string(),
            encoding: Encoding::Structured,
        })
    );
}

#[test]
fn a_query_outside_the_prefix_is_a_malformed_key() {
    assert_eq!(server().process_query("/elsewhere/f/1"), Err(CdnError::MalformedKey));
    assert_eq!(server().process_query(""), Err(CdnError::MalformedKey));
}

#[test]
fn a_reply_carries_the_file_under_the_key() {
    let s = server();
    let key = "/zenohcdn/files/f/1";
    let target = s.process_query(key).unwrap();
    assert_eq!(
        s.reply(key, &target, Some(vec![4, 5])),
        Ok(Sample {
            res_name: key.to_string(),
            encoding: Encoding::Binary,
            payload: vec![4, 5],
            kind: SampleKind::Put,
        })
    );
    let key = "/zenohcdn/files/f";
    let target = s.process_query(key).unwrap();
    assert_eq!(
        s.reply(key, &target, Some(b"{}".to_vec())),
        Ok(Sample {
            res_name: key.to_string(),
            encoding: Encoding::Structured,
            payload: b"{}".to_vec(),
            kind: SampleKind::Put,
        })
    );
}

#[test]
fn a_reply_with_an_empty_file_is_an_empty_payload() {
    let s = server();
    let key = "/zenohcdn/files/f/2";
    let target = s.process_query(key).unwrap();
    assert_eq!(s.reply(key, &target, Some(vec![])).unwrap().payload, Vec::<u8>::new());
}

#[test]
fn a_missing_file_is_not_found() {
    let s = server();
    let key = "/zenohcdn/files/f/9";
    let target = s.process_query(key).unwrap();
    assert_eq!(s.reply(key, &target, None), Err(CdnError::NotFound));
}

#[test]
fn handling_depends_on_the_message_alone() {
    let s = server();
    let message = sample("/zenohcdn/files/f/1", Encoding::Binary, &[1], SampleKind::Put);
    let before = s.process_sample(message.clone());
    let _ = s.process_sample(sample("/zenohcdn/files/f", Encoding::Binary, &[1], SampleKind::Put));
    let _ = s.process_metadata(vec![], None);
    let _ = s.process_query("nonsense");
    assert_eq!(s.process_sample(message), before);
}
