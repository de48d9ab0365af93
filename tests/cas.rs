use r13y::cas::{ContentAddressedStorage, IngestAction, ReadEvent};
use r13y::text::{hex_digest, hex_lower, join, lines, split};

const HELLO_SHA256: &str = "2cf24dba5fb0a30e26e83b2ac5b9e29e1b161e5c1fa7425e73043362938b9824";
const EMPTY_SHA256: &str = "e3b0c44298fc1c149afbf4c8996fb92427ae41e4649b934ca495991b7852b855";

#[test]
fn ingest_names_file_by_sha256() {
    let cas = ContentAddressedStorage::new("./tmp/".to_string());
    let id = cas.from_chunks(&vec![b"hello".to_vec()]);
    assert_eq!(id.id(), HELLO_SHA256);
    assert_eq!(id.as_path_buf(), format!("./tmp/{}", HELLO_SHA256));
}

#[test]
fn ingest_of_nothing_is_digest_of_empty() {
    let cas = ContentAddressedStorage::new("./tmp".to_string());
    let id = cas.from_chunks(&vec![]);
    assert_eq!(id.id(), EMPTY_SHA256);
    assert_eq!(id.as_path_buf(), format!("./tmp/{}", EMPTY_SHA256));
}

#[test]
fn ingest_twice_gives_same_id_whatever_the_chunks() {
    let cas = ContentAddressedStorage::new("./tmp/".to_string());
    let a = cas.from_chunks(&vec![b"hello".to_vec()]);
    let b = cas.from_chunks(&vec![b"he".to_vec(), Vec::new(), b"llo".to_vec()]);
    assert_eq!(a.id(), b.id());
    assert_eq!(a.as_path_buf(), b.as_path_buf());
}

#[test]
fn lookup_after_ingest_finds_the_path() {
    let cas = ContentAddressedStorage::new("./tmp/".to_string());
    let id = cas.from_chunks(&vec![b"hello".to_vec()]);
    let found = cas.str_to_id(id.id(), true).unwrap();
    assert_eq!(found.id(), HELLO_SHA256);
    assert_eq!(found.as_path_buf(), id.as_path_buf());
    assert!(cas.str_to_id(id.id(), false).is_none());
}

#[test]
fn ingest_steps_follow_read_outcomes() {
    let cas = ContentAddressedStorage::new("./tmp/".to_string());
    let mut ingest = cas.ingest();
    assert_eq!(ingest.step(&ReadEvent::Read(b"hel".to_vec())), IngestAction::Write);
    assert_eq!(ingest.step(&ReadEvent::Interrupted), IngestAction::Retry);
    assert_eq!(ingest.step(&ReadEvent::Read(b"lo".to_vec())), IngestAction::Write);
    assert_eq!(ingest.step(&ReadEvent::Read(Vec::new())), IngestAction::Finish);
    let id = ingest.finish();
    assert_eq!(id.id(), HELLO_SHA256);
}

#[test]
fn ingest_aborts_on_read_error() {
    let cas = ContentAddressedStorage::new("./tmp/".to_string());
    let mut ingest = cas.ingest();
    assert_eq!(ingest.step(&ReadEvent::Failed), IngestAction::Abort);
}

#[test]
fn digests_are_lowercase_hex() {
    let cas = ContentAddressedStorage::new("./tmp/".to_string());
    let id = cas.from_chunks(&vec![vec![0u8, 255, 16]]);
    assert!(hex_digest(id.id()));
    assert!(!hex_digest("ABC"));
    assert!(!hex_digest(&HELLO_SHA256.to_uppercase()));
    assert_eq!(hex_lower(&[0x0a, 0x14, 0x1e, 0xff]), "0a141eff");
}

#[test]
fn paths_join_like_pathbuf() {
    assert_eq!(join("./tmp/", "abc"), "./tmp/abc");
    assert_eq!(join("./tmp", "abc"), "./tmp/abc");
    assert_eq!(join("", "abc"), "abc");
    assert_eq!(join("./tmp", "/abs"), "/abs");
}

#[test]
fn lines_follow_bufread() {
    assert_eq!(lines("a\r\nb\n"), vec!["a".to_string(), "b".to_string()]);
    assert_eq!(lines(""), Vec::<String>::new());
    assert_eq!(lines("a\n\nb"), vec!["a".to_string(), "".to_string(), "b".to_string()]);
    assert_eq!(lines("x\r"), vec!["x\r".to_string()]);
}

#[test]
fn split_keeps_empty_pieces() {
    assert_eq!(split("a.b", '.'), vec!["a".to_string(), "b".to_string()]);
    assert_eq!(split("", '.'), vec!["".to_string()]);
    assert_eq!(split("a.", '.'), vec!["a".to_string(), "".to_string()]);
}
