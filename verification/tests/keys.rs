use zenoh_cdn::decimal::{chars_of, format_index, parse_digits};
use zenoh_cdn::error::CdnError;
use zenoh_cdn::keys::{
    classify, extract_chunk_number, extract_complete_file_path, extract_file_path,
    file_chunk_path, file_metadata_path, get_file_metadata_path, list_file_path,
    resource_prefix, KeyRef, DEFAULT_ROOT, FILES_KEY, METADATA_KEY, SEPARATOR,
};

fn chunk(name: &str, index: usize) -> KeyRef {
    KeyRef::Chunk { resource_name: name.to_string(), index }
}

fn metadata(name: &str) -> KeyRef {
    KeyRef::Metadata { resource_name: name.to_string() }
}

#[test]
fn constants_have_their_values() {
    assert_eq!(FILES_KEY, "files");
    assert_eq!(METADATA_KEY, "metadata");
    assert_eq!(DEFAULT_ROOT, "/zenohcdn");
    assert_eq!(SEPARATOR, "/");
}

#[test]
fn format_index_writes_decimal() {
    assert_eq!(format_index(0), "0");
    assert_eq!(format_index(7), "7");
    assert_eq!(format_index(10), "10");
    assert_eq!(format_index(1_048_576), "1048576");
    assert_eq!(format_index(usize::MAX), usize::MAX.to_string());
}

#[test]
fn chars_of_keeps_every_character() {
    assert_eq!(chars_of(""), Vec::<char>::new());
    assert_eq!(chars_of("a/é/7"), vec!['a', '/', 'é', '/', '7']);
}

#[test]
fn parse_digits_reads_runs_of_digits() {
    assert_eq!(parse_digits(&chars_of("0")), Some(0));
    assert_eq!(parse_digits(&chars_of("42")), Some(42));
    assert_eq!(parse_digits(&chars_of("007")), Some(7));
    assert_eq!(parse_digits(&chars_of(&usize::MAX.to_string())), Some(usize::MAX));
}

#[test]
fn parse_digits_refuses_everything_else() {
    assert_eq!(parse_digits(&chars_of("")), None);
    assert_eq!(parse_digits(&chars_of("+5")), None);
    assert_eq!(parse_digits(&chars_of("-5")), None);
    assert_eq!(parse_digits(&chars_of("5a")), None);
    assert_eq!(parse_digits(&chars_of(" 5")), None);
    assert_eq!(parse_digits(&chars_of("٣")), None);
    assert_eq!(parse_digits(&chars_of("340282366920938463463374607431768211456")), None);
    let mut beyond = usize::MAX.to_string();
    beyond.push('0');
    assert_eq!(parse_digits(&chars_of(&beyond)), None);
}

#[test]
fn parse_digits_inverts_format_index() {
    for n in [0usize, 1, 9, 10, 99, 100, 12345, usize::MAX - 1, usize::MAX] {
        assert_eq!(parse_digits(&chars_of(&format_index(n))), Some(n));
    }
}

#[test]
fn metadata_key_is_root_files_name() {
    assert_eq!(file_metadata_path("/zenohcdn", "movie.mp4"), "/zenohcdn/files/movie.mp4");
    assert_eq!(file_metadata_path("root", "a/b/c"), "root/files/a/b/c");
    assert_eq!(file_metadata_path("", ""), "/files/");
}

#[test]
fn chunk_key_is_root_files_name_index() {
    assert_eq!(file_chunk_path("/zenohcdn", "movie.mp4", 0), "/zenohcdn/files/movie.mp4/0");
    assert_eq!(file_chunk_path("root", "a/b/c", 17), "root/files/a/b/c/17");
    assert_eq!(file_chunk_path("root", "été", 2), "root/files/été/2");
}

#[test]
fn stored_metadata_and_listing_keys() {
    assert_eq!(get_file_metadata_path("/zenohcdn", "ABCD"), "/zenohcdn/files/ABCD/metadata");
    assert_eq!(list_file_path("/zenohcdn"), "/zenohcdn/files/*/metadata");
}

#[test]
fn extract_file_path_drops_prefix_and_last_segment() {
    assert_eq!(
        extract_file_path("/zenohcdn/files/", "/zenohcdn/files/a/b/3"),
        Ok("a/b".to_string())
    );
    assert_eq!(extract_file_path("p/", "p/name/0"), Ok("name".to_string()));
    assert_eq!(extract_file_path("p/", "p/name"), Ok(String::new()));
    assert_eq!(extract_file_path("p/", "p/"), Ok(String::new()));
    assert_eq!(extract_file_path("p/", "p/a/"), Ok("a".to_string()));
    assert_eq!(extract_file_path("p/", "p//3"), Ok(String::new()));
    assert_eq!(extract_file_path("", "a/b"), Ok("a".to_string()));
}

#[test]
fn extract_file_path_refuses_a_foreign_key() {
    assert_eq!(extract_file_path("/zenohcdn/files/", "/other/files/a/3"), Err(CdnError::MalformedKey));
    assert_eq!(extract_file_path("/zenohcdn/files/", "/zenohcdn/files"), Err(CdnError::MalformedKey));
    assert_eq!(extract_file_path("abc", ""), Err(CdnError::MalformedKey));
}

#[test]
fn extract_complete_file_path_drops_the_prefix_only() {
    assert_eq!(
        extract_complete_file_path("/zenohcdn/files/", "/zenohcdn/files/a/b/3"),
        Ok("a/b/3".to_string())
    );
    assert_eq!(extract_complete_file_path("p/", "p/"), Ok(String::new()));
    assert_eq!(extract_complete_file_path("p/", "q/a"), Err(CdnError::MalformedKey));
    assert_eq!(extract_complete_file_path("é/", "é/ü"), Ok("ü".to_string()));
}

#[test]
fn extract_chunk_number_reads_the_last_segment() {
    assert_eq!(extract_chunk_number("/zenohcdn/files/a/b/42"), Ok(42));
    assert_eq!(extract_chunk_number("7"), Ok(7));
    assert_eq!(extract_chunk_number("a/007"), Ok(7));
    assert_eq!(extract_chunk_number("a/0"), Ok(0));
}

#[test]
fn extract_chunk_number_refuses_what_is_no_index() {
    assert_eq!(extract_chunk_number("a/b"), Err(CdnError::MalformedKey));
    assert_eq!(extract_chunk_number("a/"), Err(CdnError::MalformedKey));
    assert_eq!(extract_chunk_number(""), Err(CdnError::MalformedKey));
    assert_eq!(extract_chunk_number("a/+5"), Err(CdnError::MalformedKey));
    assert_eq!(extract_chunk_number("a/-1"), Err(CdnError::MalformedKey));
    assert_eq!(extract_chunk_number("a/1.5"), Err(CdnError::MalformedKey));
    assert_eq!(
        extract_chunk_number("a/99999999999999999999999999999"),
        Err(CdnError::MalformedKey)
    );
}

#[test]
fn classify_tells_chunks_from_metadata() {
    let prefix = "/zenohcdn/files/";
    assert_eq!(classify(prefix, "/zenohcdn/files/movie.mp4/3"), Ok(chunk("movie.mp4", 3)));
    assert_eq!(classify(prefix, "/zenohcdn/files/movie.mp4"), Ok(metadata("movie.mp4")));
    assert_eq!(classify(prefix, "/zenohcdn/files/a/b/c/0"), Ok(chunk("a/b/c", 0)));
    assert_eq!(classify(prefix, "/zenohcdn/files/a/b/c"), Ok(metadata("a/b/c")));
    assert_eq!(classify(prefix, "/zenohcdn/files/"), Ok(metadata("")));
    assert_eq!(classify(prefix, "/zenohcdn/files/a/"), Ok(metadata("a/")));
    assert_eq!(classify(prefix, "/zenohcdn/files/5"), Ok(chunk("", 5)));
}

#[test]
fn classify_refuses_a_key_without_the_prefix() {
    let prefix = "/zenohcdn/files/";
    assert_eq!(classify(prefix, "/zenohcdn/movie.mp4/3"), Err(CdnError::MalformedKey));
    assert_eq!(classify(prefix, "/zenohcdn/files"), Err(CdnError::MalformedKey));
    assert_eq!(classify(prefix, ""), Err(CdnError::MalformedKey));
    assert_eq!(classify(prefix, "zenohcdn/files/a/3"), Err(CdnError::MalformedKey));
}

#[test]
fn classify_inverts_key_construction() {
    let roots = ["/zenohcdn", "root", "", "/a/b"];
    let names = ["movie.mp4", "a/b/c", "dir/", "été/ça", "with space", "x/+5", "x/1e3", ""];
    let indices = [0usize, 1, 9, 10, 4096, usize::MAX];
    for root in roots {
        let prefix = format!("{}/files/", root);
        for name in names {
            assert_eq!(
                classify(&prefix, &file_metadata_path(root, name)),
                Ok(metadata(name)),
                "metadata of {:?} under {:?}",
                name,
                root
            );
            for index in indices {
                assert_eq!(
                    classify(&prefix, &file_chunk_path(root, name, index)),
                    Ok(chunk(name, index)),
                    "chunk {} of {:?} under {:?}",
                    index,
                    name,
                    root
                );
            }
        }
    }
}

#[test]
fn classify_is_the_same_on_every_call() {
    let first = classify("/zenohcdn/files/", "/zenohcdn/files/a/b/12");
    let second = classify("/zenohcdn/files/", "/zenohcdn/files/a/b/12");
    assert_eq!(first, second);
}

#[test]
fn a_name_that_ends_in_digits_reads_as_a_chunk() {
    let key = file_metadata_path("/zenohcdn", "videos/2024");
    assert_eq!(classify("/zenohcdn/files/", &key), Ok(chunk("videos", 2024)));
    let chunk_key = file_chunk_path("/zenohcdn", "videos/2024", 1);
    assert_eq!(classify("/zenohcdn/files/", &chunk_key), Ok(chunk("videos/2024", 1)));
}

#[test]
fn a_name_that_ends_in_too_many_digits_reads_as_metadata() {
    let name = "videos/99999999999999999999999999999";
    let key = file_metadata_path("/zenohcdn", name);
    assert_eq!(classify("/zenohcdn/files/", &key), Ok(metadata(name)));
}

#[test]
fn resource_prefix_ends_the_root_with_files() {
    assert_eq!(resource_prefix("/zenohcdn/**"), "/zenohcdn/files/");
    assert_eq!(resource_prefix("/zenohcdn"), "/zenohcdn/files/");
    assert_eq!(resource_prefix("/a/**/b/**"), "/a/files/");
    assert_eq!(resource_prefix("/**"), "/files/");
    assert_eq!(resource_prefix(""), "/files/");
    assert_eq!(resource_prefix("/a/*"), "/a/*/files/");
    assert_eq!(resource_prefix("/a/**b"), "/a/files/");
    assert_eq!(resource_prefix("/é/**"), "/é/files/");
}

#[test]
fn a_server_of_a_root_reads_the_keys_of_its_clients() {
    let prefix = resource_prefix("/zenohcdn/**");
    assert_eq!(
        classify(&prefix, &file_chunk_path(DEFAULT_ROOT, "a/b", 5)),
        Ok(chunk("a/b", 5))
    );
    assert_eq!(classify(&prefix, &file_metadata_path(DEFAULT_ROOT, "a/b")), Ok(metadata("a/b")));
}
