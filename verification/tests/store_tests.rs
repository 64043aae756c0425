use flate2::read::ZlibDecoder;
use flate2::write::ZlibEncoder;
use flate2::Compression;
use git_objects::digits::decimal_digits;
use git_objects::digits::parse_decimal;
use git_objects::error::GitError;
use git_objects::hex::bytes_slice_to_hex;
use git_objects::mode::EntryMode;
use git_objects::object::GitObject;
use git_objects::scan::find_byte;
use git_objects::store::blob_from_inflated;
use git_objects::store::compress;
use git_objects::store::decompress;
use git_objects::store::finish_store;
use git_objects::store::hash_object;
use git_objects::store::hashed_blob;
use git_objects::store::list_entries;
use git_objects::store::load_blob;
use git_objects::store::load_object;
use git_objects::store::object_from_inflated;
use git_objects::store::retrieve;
use git_objects::store::retrieve_blob;
use git_objects::store::sha1_to_file_path;
use git_objects::store::ReadOutcome;
use git_objects::store::WriteOutcome;
use git_objects::text::split_around;
use git_objects::text::string_of_bytes;
use git_objects::text::text_is;
use std::io::Read;
use std::io::Write;

fn deflate(bytes: &[u8]) -> Vec<u8> {
    let mut encoder = ZlibEncoder::new(Vec::new(), Compression::default());
    encoder.write_all(bytes).unwrap();
    encoder.finish().unwrap()
}

fn inflate(bytes: &[u8]) -> Vec<u8> {
    let mut decoder = ZlibDecoder::new(bytes);
    let mut out = Vec::new();
    decoder.read_to_end(&mut out).unwrap();
    out
}

fn blob(content: &str) -> GitObject {
    GitObject::Blob { content: String::from(content) }
}

#[test]
fn hello_has_the_known_identifier() {
    let hashed = hash_object(String::from("hello\n")).ok().unwrap();
    assert_eq!(hashed.sha1_hash, "ce013625030ba8dba906f756967f9e9ca394464a");
    assert_eq!(hashed.folder_path, ".git/objects/ce");
    assert_eq!(hashed.file_name, "013625030ba8dba906f756967f9e9ca394464a");
    assert_eq!(inflate(&hashed.bytes), b"blob 6\0hello\n");
}

#[test]
fn empty_blob_has_the_known_identifier() {
    let hashed = hash_object(String::new()).ok().unwrap();
    assert_eq!(hashed.sha1_hash, "e69de29bb2d1d6434b8b29ae775ad8c2e48c5391");
}

#[test]
fn identifier_is_forty_lowercase_hex_digits() {
    for content in ["", "a", "hello\n", "\0\0", "h\u{e9}"] {
        let hashed = hash_object(String::from(content)).ok().unwrap();
        assert_eq!(hashed.sha1_hash.len(), 40);
        assert!(hashed.sha1_hash.bytes().all(|b| b.is_ascii_digit() || (b'a'..=b'f').contains(&b)));
    }
}

#[test]
fn same_content_has_the_same_identifier() {
    let first = hash_object(String::from("same payload")).ok().unwrap();
    let second = hash_object(String::from("same payload")).ok().unwrap();
    assert_eq!(first.sha1_hash, second.sha1_hash);
    assert_eq!(first.folder_path, second.folder_path);
    assert_eq!(first.file_name, second.file_name);
    let other = hash_object(String::from("other payload")).ok().unwrap();
    assert_ne!(first.sha1_hash, other.sha1_hash);
}

#[test]
fn storing_twice_gives_the_same_object() {
    let first = hash_object(String::from("stored twice")).ok().unwrap();
    let stored = finish_store(first.sha1_hash.clone(), WriteOutcome::Created);
    let second = hash_object(String::from("stored twice")).ok().unwrap();
    assert_eq!(second.bytes, first.bytes);
    let again = finish_store(second.sha1_hash, WriteOutcome::AlreadyExists);
    assert_eq!(stored, Ok(first.sha1_hash));
    assert_eq!(again, stored);
}

#[test]
fn stored_bytes_are_compressed_not_copied() {
    let content = "abcabcabc".repeat(100);
    let hashed = hash_object(content.clone()).ok().unwrap();
    let canonical = blob(&content).as_string();
    assert_ne!(hashed.bytes, canonical.as_bytes());
    assert!(hashed.bytes.len() < canonical.len());
    assert_eq!(inflate(&hashed.bytes), canonical.as_bytes());
}

#[test]
fn stored_blob_is_read_back() {
    for content in ["", "hello\n", "line one\nline two\n", "nul\0inside", "h\u{e9}llo w\u{f6}rld"] {
        let hashed = hash_object(String::from(content)).ok().unwrap();
        assert_eq!(load_object(&hashed.bytes), Ok(blob(content)));
        assert_eq!(load_blob(&hashed.bytes), Ok(blob(content)));
        assert_eq!(retrieve(ReadOutcome::Found(hashed.bytes.clone())), Ok(blob(content)));
        assert_eq!(retrieve_blob(ReadOutcome::Found(hashed.bytes)), Ok(blob(content)));
        let back = load_object(&hash_object(String::from(content)).ok().unwrap().bytes);
        assert_eq!(back.ok().unwrap().get_blob_content(), content);
    }
}

#[test]
fn stored_tree_is_read_back() {
    let mut payload = b"40000 src\0".to_vec();
    payload.extend_from_slice(&[0u8; 20]);
    payload.extend_from_slice(b"100644 Cargo.toml\0");
    payload.extend_from_slice(&[0xffu8; 20]);
    let mut canonical = format!("tree {}\0", payload.len()).into_bytes();
    canonical.extend_from_slice(&payload);
    let stored = deflate(&canonical);
    let object = load_object(&stored).ok().unwrap();
    assert_eq!(object.get_type(), "tree");
    let entries = list_entries(ReadOutcome::Found(stored.clone())).ok().unwrap();
    assert_eq!(&entries, object.get_tree_content());
    assert_eq!(entries.len(), 2);
    assert_eq!(entries[0].mode, EntryMode::Directory);
    assert_eq!(entries[0].name, "src");
    assert_eq!(entries[0].sha1_hash, "0".repeat(40));
    assert_eq!(entries[1].mode, EntryMode::RegularFile);
    assert_eq!(entries[1].name, "Cargo.toml");
    assert_eq!(entries[1].sha1_hash, "f".repeat(40));
    assert_eq!(load_blob(&stored), Err(GitError::MalformedObject));
}

#[test]
fn listing_the_entries_of_a_blob_is_unsupported() {
    let hashed = hash_object(String::from("text")).ok().unwrap();
    assert_eq!(list_entries(ReadOutcome::Found(hashed.bytes)), Err(GitError::UnsupportedKind));
}

#[test]
fn missing_object_is_not_found() {
    let (folder, file) = sha1_to_file_path("deadbeefdeadbeefdeadbeefdeadbeefdeadbeef");
    assert_eq!(folder, ".git/objects/de");
    assert_eq!(file, "adbeefdeadbeefdeadbeefdeadbeefdeadbeef");
    assert_eq!(retrieve(ReadOutcome::Missing), Err(GitError::NotFound));
    assert_eq!(retrieve_blob(ReadOutcome::Missing), Err(GitError::NotFound));
    assert_eq!(list_entries(ReadOutcome::Missing), Err(GitError::NotFound));
}

#[test]
fn failed_read_is_an_io_failure_with_its_path() {
    let path = String::from(".git/objects/de/adbeef");
    assert_eq!(
        retrieve(ReadOutcome::Failed(path.clone())),
        Err(GitError::IoFailure(path.clone()))
    );
    assert_eq!(
        retrieve_blob(ReadOutcome::Failed(path.clone())),
        Err(GitError::IoFailure(path.clone()))
    );
    assert_eq!(list_entries(ReadOutcome::Failed(path.clone())), Err(GitError::IoFailure(path)));
}

#[test]
fn corrupt_stream_is_a_decompression_failure() {
    assert_eq!(load_object(b"this is no zlib stream"), Err(GitError::DecompressionFailed));
    assert_eq!(load_blob(b"this is no zlib stream"), Err(GitError::DecompressionFailed));
    assert_eq!(load_object(b""), Err(GitError::DecompressionFailed));
    let hashed = hash_object(String::from("some longer content, to be cut")).ok().unwrap();
    let cut = &hashed.bytes[..hashed.bytes.len() / 2];
    assert_eq!(load_object(cut), Err(GitError::DecompressionFailed));
    assert_eq!(
        retrieve(ReadOutcome::Found(b"garbage".to_vec())),
        Err(GitError::DecompressionFailed)
    );
}

#[test]
fn sound_stream_with_a_bad_object_is_malformed() {
    assert_eq!(load_object(&deflate(b"no header here")), Err(GitError::MalformedObject));
    assert_eq!(load_blob(&deflate(b"no header here")), Err(GitError::MalformedObject));
    assert_eq!(load_object(&deflate(b"blob 3\0hello")), Err(GitError::SizeMismatch));
    assert_eq!(load_blob(&deflate(b"blob 3\0hello")), Err(GitError::SizeMismatch));
    assert_eq!(load_object(&deflate(b"commit 0\0")), Err(GitError::UnsupportedKind));
    assert_eq!(load_object(&deflate(b"tag 0\0")), Err(GitError::UnknownKind));
    assert_eq!(load_blob(&deflate(b"blob 2\0\xff\xfe")), Err(GitError::MalformedObject));
    assert_eq!(load_object(&deflate(b"blob 2\0\xff\xfe")), Err(GitError::MalformedObject));
}

#[test]
fn any_bytes_go_through_the_compressor_and_back() {
    let all: Vec<u8> = (0..=255u8).collect();
    let mut listing = b"tree 30\040000 src\0".to_vec();
    listing.extend_from_slice(&[0u8; 20]);
    for bytes in [&b""[..], &b"hello\n"[..], &[0u8; 1000][..], &all[..], &listing[..]] {
        let stored = compress(bytes).ok().unwrap();
        assert_eq!(decompress(&stored), Ok(bytes.to_vec()));
        assert_eq!(inflate(&stored), bytes);
        assert_eq!(decompress(&deflate(bytes)), Ok(bytes.to_vec()));
    }
    assert_ne!(compress(&[0u8; 1000]).ok().unwrap(), vec![0u8; 1000]);
    assert_eq!(decompress(b"no stream"), Err(GitError::DecompressionFailed));
    let stored = compress(&all).ok().unwrap();
    assert_eq!(decompress(&stored[..stored.len() - 1]), Err(GitError::DecompressionFailed));
    assert_eq!(load_object(&compress(&listing).ok().unwrap()).ok().unwrap().get_type(), "tree");
}

#[test]
fn outcomes_of_the_decompressor() {
    let failed = std::io::Error::new(std::io::ErrorKind::InvalidInput, "corrupt");
    assert_eq!(object_from_inflated(Err(failed)), Err(GitError::DecompressionFailed));
    let failed = std::io::Error::new(std::io::ErrorKind::UnexpectedEof, "cut");
    assert_eq!(blob_from_inflated(Err(failed)), Err(GitError::DecompressionFailed));
    assert_eq!(object_from_inflated(Ok(b"blob 2\0hi".to_vec())), Ok(blob("hi")));
    assert_eq!(blob_from_inflated(Ok(b"blob 2\0hi".to_vec())), Ok(blob("hi")));
    assert_eq!(blob_from_inflated(Ok(vec![0xc0])), Err(GitError::MalformedObject));
}

#[test]
fn outcomes_of_the_compressor() {
    let id = String::from("ce013625030ba8dba906f756967f9e9ca394464a");
    let failed = std::io::Error::new(std::io::ErrorKind::Other, "no room");
    assert!(matches!(hashed_blob(id.clone(), Err(failed)), Err(GitError::CompressionFailed)));
    let hashed = hashed_blob(id.clone(), Ok(vec![1, 2, 3])).ok().unwrap();
    assert_eq!(hashed.sha1_hash, id);
    assert_eq!(hashed.folder_path, ".git/objects/ce");
    assert_eq!(hashed.file_name, "013625030ba8dba906f756967f9e9ca394464a");
    assert_eq!(hashed.bytes, vec![1, 2, 3]);
}

#[test]
fn existing_file_counts_as_stored() {
    let id = String::from("ce013625030ba8dba906f756967f9e9ca394464a");
    assert_eq!(finish_store(id.clone(), WriteOutcome::Created), Ok(id.clone()));
    assert_eq!(finish_store(id.clone(), WriteOutcome::AlreadyExists), Ok(id.clone()));
    let path = String::from(".git/objects/ce/0136");
    assert_eq!(
        finish_store(id, WriteOutcome::Failed(path.clone())),
        Err(GitError::IoFailure(path))
    );
}

#[test]
fn path_splits_after_two_characters() {
    assert_eq!(sha1_to_file_path("ab"), (String::from(".git/objects/ab"), String::new()));
    assert_eq!(sha1_to_file_path("abc"), (String::from(".git/objects/ab"), String::from("c")));
    let id = "0123456789abcdef0123456789abcdef01234567";
    let (folder, file) = sha1_to_file_path(id);
    assert_eq!(folder, ".git/objects/01");
    assert_eq!(file.len(), 38);
    assert_eq!(format!("{}{}", &folder[13..], file), id);
}

#[test]
fn hex_has_two_lowercase_digits_for_each_byte() {
    assert_eq!(bytes_slice_to_hex(&[]), "");
    assert_eq!(bytes_slice_to_hex(&[0]), "00");
    assert_eq!(bytes_slice_to_hex(&[0x0f, 0xf0, 0xab, 0x09, 0x9a]), "0ff0ab099a");
    assert_eq!(bytes_slice_to_hex(&[255, 16, 1]), "ff1001");
    let all: Vec<u8> = (0..=255u8).collect();
    let expected: String = all.iter().map(|b| format!("{:02x}", b)).collect();
    assert_eq!(bytes_slice_to_hex(&all), expected);
}

#[test]
fn decimal_numbers_are_read() {
    assert_eq!(parse_decimal(b"0"), Some(0));
    assert_eq!(parse_decimal(b"6"), Some(6));
    assert_eq!(parse_decimal(b"100644"), Some(100644));
    assert_eq!(parse_decimal(b"0007"), Some(7));
    assert_eq!(parse_decimal(usize::MAX.to_string().as_bytes()), Some(usize::MAX));
}

#[test]
fn what_is_no_decimal_number_is_not_read() {
    for bad in ["", "+", "+42", "-1", "++1", "1+", " 1", "1 ", "1a", "a", "1_000", "0x10", "1.0"] {
        assert_eq!(parse_decimal(bad.as_bytes()), None);
    }
    let too_large = format!("{}0", usize::MAX);
    assert_eq!(parse_decimal(too_large.as_bytes()), None);
    let one_more = (usize::MAX as u128 + 1).to_string();
    assert_eq!(parse_decimal(one_more.as_bytes()), None);
}

#[test]
fn unsigned_decimal_numbers_agree_with_std() {
    for text in ["0", "12", "00", "18446744073709551615", "18446744073709551616", "x", ""] {
        assert_eq!(parse_decimal(text.as_bytes()), text.parse::<usize>().ok());
    }
}

#[test]
fn decimal_digits_are_written_the_shortest_way() {
    assert_eq!(decimal_digits(0), b"0".to_vec());
    assert_eq!(decimal_digits(6), b"6".to_vec());
    assert_eq!(decimal_digits(10), b"10".to_vec());
    assert_eq!(decimal_digits(100644), b"100644".to_vec());
    assert_eq!(decimal_digits(usize::MAX), usize::MAX.to_string().into_bytes());
    for n in [0usize, 1, 9, 10, 99, 100, 12345, usize::MAX] {
        assert_eq!(parse_decimal(&decimal_digits(n)), Some(n));
    }
}

#[test]
fn scanning_finds_the_first_byte() {
    assert_eq!(find_byte(b"a b c", b' ', 0), 1);
    assert_eq!(find_byte(b"a b c", b' ', 1), 1);
    assert_eq!(find_byte(b"a b c", b' ', 2), 3);
    assert_eq!(find_byte(b"a b c", b' ', 4), 5);
    assert_eq!(find_byte(b"a b c", b'x', 0), 5);
    assert_eq!(find_byte(b"", 0, 0), 0);
}

#[test]
fn text_helpers() {
    assert!(text_is("blob", "blob"));
    assert!(!text_is("blob", "blo"));
    assert!(!text_is("", "blob"));
    assert_eq!(string_of_bytes(b"tree"), "tree");
    assert_eq!(string_of_bytes(&[0x41, 0xff]), "A\u{ff}");
    assert_eq!(split_around("h\u{e9}ad\0t\u{e9}il", 5), ("h\u{e9}ad", "t\u{e9}il"));
    assert_eq!(split_around("\0", 0), ("", ""));
}
