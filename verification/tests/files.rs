use pastemp::files::{Contents, Files, Metadata, BLOCK_SIZE};
use pastemp::time::DateTime;

fn pattern(len: usize) -> Vec<u8> {
    (0..len).map(|i| (i % 251) as u8).collect()
}

#[test]
fn blocks_hold_64_kib() {
    assert_eq!(BLOCK_SIZE, 65_536);
    assert_eq!(Files::block_size(), 65_536);
}

#[test]
fn entries_and_blocks_have_their_collections() {
    assert_eq!(Files::files_name(), "files");
    assert_eq!(Files::blocks_name(), "blocks");
}

#[test]
fn new_contents_are_empty() {
    let contents = Contents::new();
    assert_eq!(contents.len(), 0);
    assert!(contents.is_empty());
    assert_eq!(contents.block_count(), 0);
    assert!(contents.block(0).is_none());
    assert_eq!(contents.to_vec(), Vec::<u8>::new());
}

#[test]
fn small_content_takes_one_block() {
    let mut contents = Contents::new();
    contents.append(b"hello");
    assert_eq!(contents.len(), 5);
    assert!(!contents.is_empty());
    assert_eq!(contents.block_count(), 1);
    assert_eq!(contents.block(0), Some(&b"hello"[..]));
    assert!(contents.block(1).is_none());
}

#[test]
fn appending_nothing_adds_no_block() {
    let mut contents = Contents::new();
    contents.append(b"");
    assert_eq!(contents.block_count(), 0);
    contents.append(b"a");
    contents.append(b"");
    assert_eq!(contents.block_count(), 1);
    assert_eq!(contents.to_vec(), b"a".to_vec());
}

#[test]
fn a_full_block_is_followed_by_a_new_one() {
    let data = pattern(BLOCK_SIZE + 1);
    let mut contents = Contents::new();
    contents.append(&data);
    assert_eq!(contents.len(), BLOCK_SIZE + 1);
    assert_eq!(contents.block_count(), 2);
    assert_eq!(contents.block(0), Some(&data[..BLOCK_SIZE]));
    assert_eq!(contents.block(1), Some(&data[BLOCK_SIZE..]));
    assert_eq!(contents.to_vec(), data);
}

#[test]
fn exactly_full_blocks() {
    let data = pattern(2 * BLOCK_SIZE);
    let mut contents = Contents::new();
    contents.append(&data);
    assert_eq!(contents.block_count(), 2);
    assert_eq!(contents.block(1).map(|block| block.len()), Some(BLOCK_SIZE));
    assert!(contents.block(2).is_none());
}

#[test]
fn small_appends_fill_the_last_block_first() {
    let data = pattern(3 * BLOCK_SIZE + 17);
    let mut whole = Contents::new();
    whole.append(&data);
    let mut pieces = Contents::new();
    for piece in data.chunks(10_007) {
        pieces.append(piece);
    }
    assert_eq!(pieces.len(), data.len());
    assert_eq!(pieces.block_count(), 4);
    assert_eq!(pieces.block_count(), whole.block_count());
    for index in 0..4 {
        assert_eq!(pieces.block(index), whole.block(index));
        let end = usize::min((index + 1) * BLOCK_SIZE, data.len());
        assert_eq!(pieces.block(index), Some(&data[index * BLOCK_SIZE..end]));
    }
    assert_eq!(pieces.to_vec(), data);
}

#[test]
fn truncate_drops_all_blocks() {
    let mut contents = Contents::new();
    contents.append(&pattern(BLOCK_SIZE + 5));
    contents.truncate();
    assert!(contents.is_empty());
    assert_eq!(contents.block_count(), 0);
    contents.append(b"again");
    assert_eq!(contents.to_vec(), b"again".to_vec());
}

#[test]
fn metadata_clone_keeps_the_fields() {
    let metadata =
        Metadata { delete_at: Some(DateTime::from_timestamp(5, 6)), owner: "alice".to_string() };
    let copy = metadata.clone();
    assert_eq!(copy.delete_at, metadata.delete_at);
    assert_eq!(copy.owner, metadata.owner);
}
