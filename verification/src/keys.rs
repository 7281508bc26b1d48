//! The key namespace: how chunk and metadata keys are built from a root, a
//! resource name and a chunk index, and how an observed key is read back.
//!
//! A metadata key is `root/files/name`; a chunk key is `root/files/name/index`
//! with the index in decimal. The resource name is opaque and may itself hold
//! `/`. A key is told apart by its last segment alone: where that segment
//! reads as an index the key addresses a chunk. A resource whose own last
//! segment reads as an index can therefore not be told from a chunk of its
//! parent; this is a known limit of the naming scheme.

use vstd::prelude::*;
use vstd::string::*;
use crate::decimal::{
    all_digits, chars_of, decimal, format_index, is_digit, lemma_decimal_round_trip, parse_digits,
    parse_index_spec,
};
use crate::error::CdnError;

verus! {

/// The segment under which all resources live.
pub const FILES_KEY: &'static str = "files";

/// The name of the file that holds a resource's metadata on disk.
pub const METADATA_KEY: &'static str = "metadata";

/// The root that clients use unless told otherwise.
pub const DEFAULT_ROOT: &'static str = "/zenohcdn";

/// What separates the segments of a key.
pub const SEPARATOR: &'static str = "/";

/// `/files/`, which stands between the root and the resource name.
pub open spec fn files_infix() -> Seq<char> {
    seq!['/', 'f', 'i', 'l', 'e', 's', '/']
}

/// `/metadata`, which ends the key of a stored metadata file.
pub open spec fn metadata_suffix() -> Seq<char> {
    seq!['/', 'm', 'e', 't', 'a', 'd', 'a', 't', 'a']
}

/// The prefix that every key under `root` carries: `root/files/`.
pub open spec fn key_prefix(root: Seq<char>) -> Seq<char> {
    root + files_infix()
}

/// The key of the metadata of the resource `name`: `root/files/name`.
pub open spec fn metadata_key(root: Seq<char>, name: Seq<char>) -> Seq<char> {
    key_prefix(root) + name
}

/// The key of chunk `index` of the resource `name`: `root/files/name/index`.
pub open spec fn chunk_key(root: Seq<char>, name: Seq<char>, index: nat) -> Seq<char> {
    key_prefix(root) + name + seq!['/'] + decimal(index)
}

/// Where the last `/` of `s` stands, or -1 where `s` holds none.
pub open spec fn last_slash(s: Seq<char>) -> int
    decreases s.len(),
{
    if s.len() == 0 {
        -1
    } else if s.last() == '/' {
        s.len() - 1
    } else {
        last_slash(s.drop_last())
    }
}

/// What follows the last `/` of `s`; all of `s` where it holds none.
pub open spec fn last_segment(s: Seq<char>) -> Seq<char> {
    s.skip(last_slash(s) + 1)
}

/// What stands before the last `/` of `s`; nothing where it holds none.
pub open spec fn parent(s: Seq<char>) -> Seq<char> {
    if last_slash(s) < 0 {
        Seq::<char>::empty()
    } else {
        s.take(last_slash(s))
    }
}

/// `path` without `prefix` in front, where it starts with it.
pub open spec fn strip_prefix(prefix: Seq<char>, path: Seq<char>) -> Option<Seq<char>> {
    if prefix.is_prefix_of(path) {
        Some(path.skip(prefix.len() as int))
    } else {
        None
    }
}

/// What a key addresses.
#[derive(Debug, PartialEq, Eq)]
pub enum KeyRef {
    /// Chunk `index` of the resource `resource_name`.
    Chunk { resource_name: String, index: usize },
    /// The metadata of the resource `resource_name`.
    Metadata { resource_name: String },
}

/// What a key addresses, with the resource name as a sequence of characters.
pub enum KeyRefView {
    Chunk { resource_name: Seq<char>, index: usize },
    Metadata { resource_name: Seq<char> },
}

impl View for KeyRef {
    type V = KeyRefView;

    open spec fn view(&self) -> KeyRefView {
        match self {
            KeyRef::Chunk { resource_name, index } => KeyRefView::Chunk {
                resource_name: resource_name@,
                index: *index,
            },
            KeyRef::Metadata { resource_name } => KeyRefView::Metadata {
                resource_name: resource_name@,
            },
        }
    }
}

/// What `key` addresses below `prefix`: a chunk where the last segment of
/// what follows the prefix reads as an index, the metadata of the resource
/// named by all that follows the prefix otherwise. A key that does not start
/// with the prefix addresses nothing.
pub open spec fn classify_spec(prefix: Seq<char>, key: Seq<char>) -> Result<KeyRefView, CdnError> {
    match strip_prefix(prefix, key) {
        None => Err(CdnError::MalformedKey),
        Some(rest) => match parse_index_spec(last_segment(rest)) {
            Some(index) => Ok(KeyRefView::Chunk { resource_name: parent(rest), index }),
            None => Ok(KeyRefView::Metadata { resource_name: rest }),
        },
    }
}

/// A position that holds `/` and is followed by none is the last `/`; where
/// no position holds one, there is none.
pub proof fn lemma_last_slash_is(s: Seq<char>, k: int)
    requires
        -1 <= k < s.len(),
        k >= 0 ==> s[k] == '/',
        forall|j: int| k < j < s.len() ==> s[j] != '/',
    ensures
        last_slash(s) == k,
    decreases s.len(),
{
    if s.len() > 0 && s.last() != '/' {
        lemma_last_slash_is(s.drop_last(), k);
    }
}

/// A run of digits holds no `/`.
pub proof fn lemma_digits_hold_no_slash(s: Seq<char>)
    requires
        all_digits(s),
    ensures
        forall|j: int| 0 <= j < s.len() ==> s[j] != '/',
{
    assert forall|j: int| 0 <= j < s.len() implies s[j] != '/' by {
        assert(is_digit(s[j]));
    }
}

/// Cuts `name/segment` at the `/` between the two, where `segment` holds none.
pub proof fn lemma_split_joined(name: Seq<char>, segment: Seq<char>)
    requires
        forall|j: int| 0 <= j < segment.len() ==> segment[j] != '/',
    ensures
        parent(name + seq!['/'] + segment) == name,
        last_segment(name + seq!['/'] + segment) == segment,
{
    let s = name + seq!['/'] + segment;
    lemma_last_slash_is(s, name.len() as int);
    assert(s.take(name.len() as int) =~= name);
    assert(s.skip(name.len() as int + 1) =~= segment);
}

/// The key of a chunk is read back as that chunk, whatever the resource is
/// called.
pub proof fn lemma_classify_chunk_key(root: Seq<char>, name: Seq<char>, index: usize)
    ensures
        classify_spec(key_prefix(root), chunk_key(root, name, index as nat)) == Ok::<
            KeyRefView,
            CdnError,
        >(KeyRefView::Chunk { resource_name: name, index }),
{
    let prefix = key_prefix(root);
    let key = chunk_key(root, name, index as nat);
    let rest = name + seq!['/'] + decimal(index as nat);
    assert(key =~= prefix + rest);
    assert(prefix.is_prefix_of(key));
    assert(key.skip(prefix.len() as int) =~= rest);
    lemma_decimal_round_trip(index as nat);
    lemma_digits_hold_no_slash(decimal(index as nat));
    lemma_split_joined(name, decimal(index as nat));
}

/// The key of a resource's metadata is read back as that resource's metadata,
/// unless the last segment of the resource name itself reads as an index.
pub proof fn lemma_classify_metadata_key(root: Seq<char>, name: Seq<char>)
    requires
        parse_index_spec(last_segment(name)) is None,
    ensures
        classify_spec(key_prefix(root), metadata_key(root, name)) == Ok::<KeyRefView, CdnError>(
            KeyRefView::Metadata { resource_name: name },
        ),
{
    let prefix = key_prefix(root);
    let key = metadata_key(root, name);
    assert(prefix.is_prefix_of(key));
    assert(key.skip(prefix.len() as int) =~= name);
}

/// Classification depends on the key and the prefix alone, and every key gets
/// exactly one answer: a chunk, a metadata record, or a refusal.
pub proof fn lemma_classify_total(prefix: Seq<char>, key: Seq<char>)
    ensures
        classify_spec(prefix, key) is Err <==> !prefix.is_prefix_of(key),
        classify_spec(prefix, key) is Err ==> classify_spec(prefix, key) == Err::<
            KeyRefView,
            CdnError,
        >(CdnError::MalformedKey),
{
}

/// The resource name of the chunk key `path` below `prefix`: what stands
/// between the prefix and the last `/` after it.
pub open spec fn extract_file_path_spec(prefix: Seq<char>, path: Seq<char>) -> Result<
    Seq<char>,
    CdnError,
> {
    match strip_prefix(prefix, path) {
        Some(rest) => Ok(parent(rest)),
        None => Err(CdnError::MalformedKey),
    }
}

/// All of `path` that follows `prefix`.
pub open spec fn extract_complete_file_path_spec(prefix: Seq<char>, path: Seq<char>) -> Result<
    Seq<char>,
    CdnError,
> {
    match strip_prefix(prefix, path) {
        Some(rest) => Ok(rest),
        None => Err(CdnError::MalformedKey),
    }
}

/// The chunk index that `path` ends in.
pub open spec fn extract_chunk_number_spec(path: Seq<char>) -> Result<usize, CdnError> {
    match parse_index_spec(last_segment(path)) {
        Some(index) => Ok(index),
        None => Err(CdnError::MalformedKey),
    }
}

/// Whether `/**` stands in `s` at position `i`.
pub open spec fn wildcard_at(s: Seq<char>, i: int) -> bool {
    0 <= i && i + 3 <= s.len() && s[i] == '/' && s[i + 1] == '*' && s[i + 2] == '*'
}

/// Where the first `/**` at or after `from` starts in `s`; the length of `s`
/// where there is none.
pub open spec fn first_wildcard(s: Seq<char>, from: int) -> int
    decreases s.len() - from,
{
    if from < 0 || from + 3 > s.len() {
        s.len() as int
    } else if wildcard_at(s, from) {
        from
    } else {
        first_wildcard(s, from + 1)
    }
}

/// The root of a resource space: what stands before its first `/**`.
pub open spec fn space_root(resource_space: Seq<char>) -> Seq<char> {
    resource_space.take(first_wildcard(resource_space, 0))
}

/// The prefix of the keys that a server of `resource_space` stores and
/// serves: the root of the space, then `/files/`.
pub open spec fn resource_prefix_spec(resource_space: Seq<char>) -> Seq<char> {
    key_prefix(space_root(resource_space))
}

/// The first `/**` is one, and none starts before it.
pub proof fn lemma_first_wildcard(s: Seq<char>, from: int)
    requires
        0 <= from,
    ensures
        from <= first_wildcard(s, from) || first_wildcard(s, from) == s.len(),
        first_wildcard(s, from) <= s.len(),
        first_wildcard(s, from) < s.len() ==> wildcard_at(s, first_wildcard(s, from)),
        forall|i: int| from <= i < first_wildcard(s, from) ==> !wildcard_at(s, i),
    decreases s.len() - from,
{
    if from + 3 <= s.len() && !wildcard_at(s, from) {
        lemma_first_wildcard(s, from + 1);
    }
}

/// A server whose resource space is `root/**` uses the prefix under which
/// clients of `root` build their keys, as long as no `/**` starts inside
/// `root` itself.
pub proof fn lemma_resource_prefix_of_root(root: Seq<char>)
    requires
        forall|i: int| 0 <= i < root.len() ==> !wildcard_at(root + seq!['/', '*', '*'], i),
    ensures
        resource_prefix_spec(root + seq!['/', '*', '*']) == key_prefix(root),
{
    let space = root + seq!['/', '*', '*'];
    lemma_first_wildcard(space, 0);
    assert(wildcard_at(space, root.len() as int));
    assert(first_wildcard(space, 0) == root.len());
    assert(space.take(root.len() as int) =~= root);
}

/// Builds the key of a resource's metadata: `prefix/files/name`.
pub fn file_metadata_path(prefix: &str, name: &str) -> (key: String)
    ensures
        key@ == metadata_key(prefix@, name@),
{
    proof {
        reveal_strlit("/");
        reveal_strlit("files");
    }
    let mut key = String::from_str(prefix);
    key.append(SEPARATOR);
    key.append(FILES_KEY);
    key.append(SEPARATOR);
    assert(key@ =~= key_prefix(prefix@));
    key.append(name);
    key
}

/// Builds the key of one chunk: `prefix/files/name/chunk`.
pub fn file_chunk_path(prefix: &str, name: &str, chunk: usize) -> (key: String)
    ensures
        key@ == chunk_key(prefix@, name@, chunk as nat),
{
    proof {
        reveal_strlit("/");
    }
    let mut key = file_metadata_path(prefix, name);
    key.append(SEPARATOR);
    let index = format_index(chunk);
    key.append(index.as_str());
    key
}

/// Builds the key under which the metadata of the shard `hash` is listed:
/// `prefix/files/hash/metadata`.
pub fn get_file_metadata_path(prefix: &str, hash: &str) -> (key: String)
    ensures
        key@ == metadata_key(prefix@, hash@) + metadata_suffix(),
{
    proof {
        reveal_strlit("/");
        reveal_strlit("metadata");
    }
    let mut key = file_metadata_path(prefix, hash);
    key.append(SEPARATOR);
    key.append(METADATA_KEY);
    assert(key@ =~= metadata_key(prefix@, hash@) + metadata_suffix());
    key
}

/// Builds the pattern that matches the listed metadata of every shard:
/// `prefix/files/*/metadata`.
pub fn list_file_path(prefix: &str) -> (key: String)
    ensures
        key@ == metadata_key(prefix@, seq!['*']) + metadata_suffix(),
{
    proof {
        reveal_strlit("*");
    }
    let key = get_file_metadata_path(prefix, "*");
    assert("*"@ =~= seq!['*']);
    key
}

/// Whether `path` starts with `prefix`.
fn starts_with(prefix: &Vec<char>, path: &Vec<char>) -> (b: bool)
    ensures
        b == prefix@.is_prefix_of(path@),
{
    if prefix.len() > path.len() {
        return false;
    }
    let mut i: usize = 0;
    while i < prefix.len()
        invariant
            0 <= i <= prefix.len() <= path.len(),
            forall|j: int| 0 <= j < i ==> prefix@[j] == path@[j],
        decreases prefix.len() - i,
    {
        if prefix[i] != path[i] {
            assert(path@.subrange(0, prefix@.len() as int)[i as int] != prefix@[i as int]);
            return false;
        }
        i = i + 1;
    }
    assert(prefix@ =~= path@.subrange(0, prefix@.len() as int));
    true
}

/// Finds the last `/` of `v`.
fn find_last_slash(v: &Vec<char>) -> (k: Option<usize>)
    ensures
        match k {
            Some(i) => last_slash(v@) == i && i < v.len(),
            None => last_slash(v@) == -1,
        },
{
    let mut i: usize = v.len();
    while i > 0
        invariant
            0 <= i <= v.len(),
            forall|j: int| i <= j < v.len() ==> v@[j] != '/',
        decreases i,
    {
        if v[i - 1] == '/' {
            proof {
                lemma_last_slash_is(v@, i - 1);
            }
            return Some(i - 1);
        }
        i = i - 1;
    }
    proof {
        lemma_last_slash_is(v@, -1);
    }
    None
}

/// The characters of `v` from `from` up to `to`.
fn copy_range(v: &Vec<char>, from: usize, to: usize) -> (r: Vec<char>)
    requires
        from <= to <= v.len(),
    ensures
        r@ == v@.subrange(from as int, to as int),
{
    let mut r: Vec<char> = Vec::new();
    let mut i: usize = from;
    while i < to
        invariant
            from <= i <= to <= v.len(),
            r@ == v@.subrange(from as int, i as int),
        decreases to - i,
    {
        r.push(v[i]);
        assert(r@ =~= v@.subrange(from as int, i + 1));
        i = i + 1;
    }
    r
}

/// The name of the resource that the chunk key `path` belongs to: `path`
/// without `prefix` in front and without its last segment. A key that does
/// not start with `prefix` is refused.
pub fn extract_file_path(prefix: &str, path: &str) -> (name: Result<String, CdnError>)
    ensures
        match name {
            Ok(n) => extract_file_path_spec(prefix@, path@) == Ok::<Seq<char>, CdnError>(n@),
            Err(e) => extract_file_path_spec(prefix@, path@) == Err::<Seq<char>, CdnError>(e),
        },
{
    let p = chars_of(prefix);
    let k = chars_of(path);
    if !starts_with(&p, &k) {
        return Err(CdnError::MalformedKey);
    }
    let rest = path.substring_char(p.len(), k.len());
    assert(rest@ =~= path@.skip(prefix@.len() as int));
    let r = chars_of(rest);
    match find_last_slash(&r) {
        Some(i) => {
            let name = rest.substring_char(0, i);
            assert(name@ =~= rest@.take(i as int));
            Ok(String::from_str(name))
        },
        None => Ok(String::new()),
    }
}

/// All of `path` that follows `prefix`. A key that does not start with
/// `prefix` is refused.
pub fn extract_complete_file_path(prefix: &str, path: &str) -> (name: Result<String, CdnError>)
    ensures
        match name {
            Ok(n) => extract_complete_file_path_spec(prefix@, path@) == Ok::<Seq<char>, CdnError>(
                n@,
            ),
            Err(e) => extract_complete_file_path_spec(prefix@, path@) == Err::<
                Seq<char>,
                CdnError,
            >(e),
        },
{
    let p = chars_of(prefix);
    let k = chars_of(path);
    if !starts_with(&p, &k) {
        return Err(CdnError::MalformedKey);
    }
    let rest = path.substring_char(p.len(), k.len());
    assert(rest@ =~= path@.skip(prefix@.len() as int));
    Ok(String::from_str(rest))
}

/// The chunk index that `path` ends in: its last segment, read as an index.
/// A path whose last segment is no index is refused.
pub fn extract_chunk_number(path: &str) -> (index: Result<usize, CdnError>)
    ensures
        index == extract_chunk_number_spec(path@),
{
    let k = chars_of(path);
    let from: usize = match find_last_slash(&k) {
        Some(i) => i + 1,
        None => 0,
    };
    let segment = copy_range(&k, from, k.len());
    assert(segment@ =~= last_segment(path@));
    match parse_digits(&segment) {
        Some(index) => Ok(index),
        None => Err(CdnError::MalformedKey),
    }
}

/// Tells what `key` addresses below `prefix`: chunk `index` of a resource
/// where the key's last segment reads as an index, the metadata of the
/// resource named by all that follows the prefix otherwise. A key that does
/// not start with `prefix` is refused.
pub fn classify(prefix: &str, key: &str) -> (target: Result<KeyRef, CdnError>)
    ensures
        match target {
            Ok(t) => classify_spec(prefix@, key@) == Ok::<KeyRefView, CdnError>(t@),
            Err(e) => classify_spec(prefix@, key@) == Err::<KeyRefView, CdnError>(e),
        },
{
    let rest = match extract_complete_file_path(prefix, key) {
        Ok(rest) => rest,
        Err(e) => {
            return Err(e);
        },
    };
    match extract_chunk_number(rest.as_str()) {
        Ok(index) => {
            let r = chars_of(rest.as_str());
            let resource_name = match find_last_slash(&r) {
                Some(i) => {
                    let name = rest.as_str().substring_char(0, i);
                    assert(name@ =~= rest@.take(i as int));
                    String::from_str(name)
                },
                None => String::new(),
            };
            Ok(KeyRef::Chunk { resource_name, index })
        },
        Err(_) => Ok(KeyRef::Metadata { resource_name: rest }),
    }
}

/// The prefix of the keys that a server of `resource_space` stores and
/// serves: what stands before the first `/**` of the space, then `/files/`.
pub fn resource_prefix(resource_space: &str) -> (prefix: String)
    ensures
        prefix@ == resource_prefix_spec(resource_space@),
{
    let s = chars_of(resource_space);
    let mut i: usize = 0;
    while s.len() - i >= 3 && !(s[i] == '/' && s[i + 1] == '*' && s[i + 2] == '*')
        invariant
            0 <= i <= s.len(),
            first_wildcard(s@, 0) == first_wildcard(s@, i as int),
        decreases s.len() - i,
    {
        i = i + 1;
    }
    let end: usize = if s.len() - i >= 3 {
        i
    } else {
        s.len()
    };
    assert(end == first_wildcard(s@, 0));
    let root = resource_space.substring_char(0, end);
    assert(root@ =~= space_root(resource_space@));
    proof {
        reveal_strlit("/");
        reveal_strlit("files");
    }
    let mut prefix = String::from_str(root);
    prefix.append(SEPARATOR);
    prefix.append(FILES_KEY);
    prefix.append(SEPARATOR);
    assert(prefix@ =~= resource_prefix_spec(resource_space@));
    prefix
}

} // verus!
