use git_objects::entry::parse_tree_entry_bytes;
use git_objects::entry::TreeEntry;
use git_objects::error::GitError;
use git_objects::mode::EntryMode;
use git_objects::tree::extract_from_vec_at;
use git_objects::tree::parse_str_tree_entry_vec;
use git_objects::tree::tree_entry_end_pos;

fn entry_bytes(mode: &str, name: &[u8], hash: &[u8]) -> Vec<u8> {
    let mut out = mode.as_bytes().to_vec();
    out.push(b' ');
    out.extend_from_slice(name);
    out.push(0);
    out.extend_from_slice(hash);
    out
}

fn hash_of(seed: u8) -> Vec<u8> {
    (0..20u8).map(|i| seed.wrapping_mul(31).wrapping_add(i.wrapping_mul(7))).collect()
}

fn hex(bytes: &[u8]) -> String {
    bytes.iter().map(|b| format!("{:02x}", b)).collect()
}

#[test]
fn mode_codes() {
    assert_eq!(EntryMode::from_mode_value(100644), Ok(EntryMode::RegularFile));
    assert_eq!(EntryMode::from_mode_value(100755), Ok(EntryMode::ExecutableFile));
    assert_eq!(EntryMode::from_mode_value(120000), Ok(EntryMode::SymbolicLink));
    assert_eq!(EntryMode::from_mode_value(40000), Ok(EntryMode::Directory));
    assert_eq!(EntryMode::RegularFile.code(), 100644);
    assert_eq!(EntryMode::ExecutableFile.code(), 100755);
    assert_eq!(EntryMode::SymbolicLink.code(), 120000);
    assert_eq!(EntryMode::Directory.code(), 40000);
}

#[test]
fn mode_is_found_again_from_its_code() {
    for mode in [
        EntryMode::RegularFile,
        EntryMode::ExecutableFile,
        EntryMode::SymbolicLink,
        EntryMode::Directory,
    ] {
        assert_eq!(EntryMode::from_mode_value(mode.code()), Ok(mode));
    }
}

#[test]
fn unknown_mode_code_is_an_error() {
    assert_eq!(EntryMode::from_mode_value(999999), Err(GitError::UnknownEntryMode));
    assert_eq!(EntryMode::from_mode_value(100664), Err(GitError::UnknownEntryMode));
    assert_eq!(EntryMode::from_mode_value(0), Err(GitError::UnknownEntryMode));
    assert_eq!(EntryMode::from_mode_value(usize::MAX), Err(GitError::UnknownEntryMode));
}

#[test]
fn entry_with_unknown_mode_fails() {
    let teb = entry_bytes("999999", b"odd", &[1u8; 20]);
    assert_eq!(TreeEntry::from_bytes(&teb), Err(GitError::UnknownEntryMode));
    assert_eq!(parse_str_tree_entry_vec(&teb), Err(GitError::UnknownEntryMode));
    let parts = parse_tree_entry_bytes(&teb).ok().unwrap();
    assert_eq!(parts.0, 999999);
}

#[test]
fn one_directory_entry_with_zero_hash() {
    let payload = entry_bytes("40000", b"src", &[0u8; 20]);
    let entries = parse_str_tree_entry_vec(&payload).ok().unwrap();
    assert_eq!(entries.len(), 1);
    assert_eq!(entries[0].mode, EntryMode::Directory);
    assert_eq!(entries[0].name, "src");
    assert_eq!(entries[0].sha1_hash, "0000000000000000000000000000000000000000");
    assert_eq!(entries[0].sha1_hash.len(), 40);
}

#[test]
fn empty_payload_has_no_entries() {
    assert_eq!(parse_str_tree_entry_vec(b""), Ok(vec![]));
    assert_eq!(tree_entry_end_pos(b""), Vec::<usize>::new());
}

#[test]
fn entries_come_back_in_order() {
    let modes = [
        ("100644", EntryMode::RegularFile),
        ("100755", EntryMode::ExecutableFile),
        ("120000", EntryMode::SymbolicLink),
        ("40000", EntryMode::Directory),
    ];
    let names: [&str; 7] =
        ["zeta", "alpha", "alpha", "with space", "  lead", "m.rs", "caf\u{e9} \u{4e2d}"];
    let mut payload = Vec::new();
    let mut expected = Vec::new();
    for (i, name) in names.iter().enumerate() {
        let (digits, mode) = modes[i % 4];
        let hash = hash_of(i as u8);
        payload.extend_from_slice(&entry_bytes(digits, name.as_bytes(), &hash));
        expected.push(TreeEntry {
            mode,
            name: String::from(*name),
            sha1_hash: hex(&hash),
        });
    }
    assert_eq!(parse_str_tree_entry_vec(&payload), Ok(expected));
}

#[test]
fn zero_bytes_inside_a_hash_end_no_name() {
    let mut hash = vec![0u8; 20];
    hash[3] = 0x20;
    hash[19] = 0x7f;
    let mut payload = entry_bytes("100644", b"a", &hash);
    payload.extend_from_slice(&entry_bytes("100755", b"b", &[0u8; 20]));
    let entries = parse_str_tree_entry_vec(&payload).ok().unwrap();
    assert_eq!(entries.len(), 2);
    assert_eq!(entries[0].name, "a");
    assert_eq!(entries[0].sha1_hash, hex(&hash));
    assert_eq!(entries[1].name, "b");
    assert_eq!(entries[1].mode, EntryMode::ExecutableFile);
    assert_eq!(tree_entry_end_pos(&payload), vec![29, 58]);
}

#[test]
fn name_splits_at_first_space_only() {
    let teb = entry_bytes("100644", b"my file name.txt", &[9u8; 20]);
    let entry = TreeEntry::from_bytes(&teb).ok().unwrap();
    assert_eq!(entry.name, "my file name.txt");
    assert_eq!(entry.mode, EntryMode::RegularFile);
}

#[test]
fn name_may_be_empty() {
    let teb = entry_bytes("100644", b"", &[9u8; 20]);
    assert_eq!(TreeEntry::from_bytes(&teb).ok().unwrap().name, "");
}

#[test]
fn name_is_read_as_utf8() {
    let mut teb = b"100644 \xc3\xa9\0".to_vec();
    teb.extend_from_slice(&[0x01u8; 20]);
    assert_eq!(
        parse_tree_entry_bytes(&teb),
        Ok((100644usize, "\u{e9}".to_string(), "01".repeat(20)))
    );
    let entry = TreeEntry::from_bytes(&teb).ok().unwrap();
    assert_eq!(entry.name, "\u{e9}");
    assert_eq!(entry.name.chars().count(), 1);
    let teb = entry_bytes("40000", "\u{65e5}\u{672c} \u{1f600}".as_bytes(), &[9u8; 20]);
    assert_eq!(TreeEntry::from_bytes(&teb).ok().unwrap().name, "\u{65e5}\u{672c} \u{1f600}");
}

#[test]
fn name_that_is_no_utf8_is_malformed() {
    for name in [&[0xe9u8][..], &[b'a', 0xc3][..], &[0xff, 0xfe][..], &[0xed, 0xa0, 0x80][..]] {
        let teb = entry_bytes("100644", name, &[9u8; 20]);
        assert_eq!(parse_tree_entry_bytes(&teb), Err(GitError::MalformedObject));
        assert_eq!(TreeEntry::from_bytes(&teb), Err(GitError::MalformedObject));
        assert_eq!(parse_str_tree_entry_vec(&teb), Err(GitError::MalformedObject));
    }
}

#[test]
fn mode_is_written_in_digits_only() {
    let teb = entry_bytes("+40000", b"s", &[9u8; 20]);
    assert_eq!(parse_tree_entry_bytes(&teb), Err(GitError::MalformedObject));
    assert_eq!(TreeEntry::from_bytes(&teb), Err(GitError::MalformedObject));
    let teb = entry_bytes("040000", b"s", &[9u8; 20]);
    assert_eq!(TreeEntry::from_bytes(&teb).ok().unwrap().mode, EntryMode::Directory);
}

#[test]
fn truncated_hash_is_malformed() {
    let whole = entry_bytes("40000", b"src", &[7u8; 20]);
    for cut in 1..=20usize {
        let short = &whole[..whole.len() - cut];
        assert_eq!(parse_str_tree_entry_vec(short), Err(GitError::MalformedObject));
    }
    let mut two = whole.clone();
    two.extend_from_slice(&whole[..whole.len() - 1]);
    assert_eq!(parse_str_tree_entry_vec(&two), Err(GitError::MalformedObject));
}

#[test]
fn bytes_after_the_last_entry_are_malformed() {
    let mut payload = entry_bytes("40000", b"src", &[7u8; 20]);
    payload.extend_from_slice(b"100644 x");
    assert_eq!(parse_str_tree_entry_vec(&payload), Err(GitError::MalformedObject));
    assert_eq!(parse_str_tree_entry_vec(b"100644 no-end"), Err(GitError::MalformedObject));
}

#[test]
fn first_bad_entry_decides_the_error() {
    let mut payload = entry_bytes("40000", b"ok", &[7u8; 20]);
    payload.extend_from_slice(&entry_bytes("123", b"bad-mode", &[7u8; 20]));
    payload.extend_from_slice(&entry_bytes("x", b"bad-digits", &[7u8; 20]));
    assert_eq!(parse_str_tree_entry_vec(&payload), Err(GitError::UnknownEntryMode));
    let mut payload = entry_bytes("x", b"bad-digits", &[7u8; 20]);
    payload.extend_from_slice(&entry_bytes("123", b"bad-mode", &[7u8; 20]));
    assert_eq!(parse_str_tree_entry_vec(&payload), Err(GitError::MalformedObject));
    let mut payload = entry_bytes("123", b"bad-mode", &[7u8; 20]);
    payload.extend_from_slice(b"cut");
    assert_eq!(parse_str_tree_entry_vec(&payload), Err(GitError::UnknownEntryMode));
}

#[test]
fn entry_without_space_is_malformed() {
    let mut teb = b"100644name\0".to_vec();
    teb.extend_from_slice(&[0x20u8; 20]);
    assert_eq!(TreeEntry::from_bytes(&teb), Err(GitError::MalformedObject));
    assert_eq!(parse_tree_entry_bytes(&teb), Err(GitError::MalformedObject));
}

#[test]
fn entry_without_nul_is_malformed() {
    assert_eq!(parse_tree_entry_bytes(b"100644 name"), Err(GitError::MalformedObject));
    assert_eq!(parse_tree_entry_bytes(b""), Err(GitError::MalformedObject));
}

#[test]
fn entry_with_bad_mode_digits_is_malformed() {
    for digits in ["", "10a644", "-1", "+1", "0x40", "999999999999999999999999999999"] {
        let teb = entry_bytes(digits, b"n", &[1u8; 20]);
        assert_eq!(parse_tree_entry_bytes(&teb), Err(GitError::MalformedObject));
        assert_eq!(TreeEntry::from_bytes(&teb), Err(GitError::MalformedObject));
    }
}

#[test]
fn entry_hash_must_have_twenty_bytes() {
    assert_eq!(
        parse_tree_entry_bytes(&entry_bytes("40000", b"n", &[1u8; 19])),
        Err(GitError::MalformedObject)
    );
    assert_eq!(
        parse_tree_entry_bytes(&entry_bytes("40000", b"n", &[1u8; 21])),
        Err(GitError::MalformedObject)
    );
    assert_eq!(
        parse_tree_entry_bytes(&entry_bytes("40000", b"n", &[])),
        Err(GitError::MalformedObject)
    );
}

#[test]
fn entry_parts_are_split_out() {
    let hash: Vec<u8> = (0..20u8).collect();
    let teb = entry_bytes("100755", b"run.sh", &hash);
    assert_eq!(
        parse_tree_entry_bytes(&teb),
        Ok((
            100755usize,
            String::from("run.sh"),
            String::from("000102030405060708090a0b0c0d0e0f10111213")
        ))
    );
}

#[test]
fn end_positions_follow_each_nul_by_twenty_one() {
    let mut payload = entry_bytes("40000", b"src", &[1u8; 20]);
    assert_eq!(tree_entry_end_pos(&payload), vec![30]);
    payload.extend_from_slice(&entry_bytes("100644", b"a", &[2u8; 20]));
    assert_eq!(tree_entry_end_pos(&payload), vec![30, 59]);
    payload.extend_from_slice(b"100644 tail\0short");
    assert_eq!(tree_entry_end_pos(&payload), vec![30, 59]);
    assert_eq!(tree_entry_end_pos(b"no nul here"), Vec::<usize>::new());
    assert_eq!(tree_entry_end_pos(&[0u8; 21]), vec![21]);
    assert_eq!(tree_entry_end_pos(&[0u8; 20]), Vec::<usize>::new());
    assert_eq!(tree_entry_end_pos(&[0u8; 43]), vec![21, 42]);
}

#[test]
fn pieces_are_cut_at_the_positions() {
    let data = b"abcdefghij";
    let pieces = extract_from_vec_at(data, &[3, 3, 7]);
    assert_eq!(pieces, vec![&b"abc"[..], &b""[..], &b"defg"[..]]);
    assert_eq!(extract_from_vec_at(data, &[]), Vec::<&[u8]>::new());
    assert_eq!(extract_from_vec_at(data, &[10]), vec![&data[..]]);
    assert_eq!(extract_from_vec_at(data, &[0]), vec![&b""[..]]);
}
