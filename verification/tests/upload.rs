use pastemp::alphabet::Draws;
use pastemp::config::Config;
use pastemp::db::{Sink, DB};
use pastemp::names::Attempt;
use pastemp::time::{DateTime, Duration};
use pastemp::upload::{
    create_file_at, finish, finished, Allowance, CreateError, UploadError, FILE_LIMIT,
};

const STEP: u32 = 1 << 26;

fn at(secs: i64) -> DateTime {
    DateTime::from_timestamp(secs, 0)
}

fn spell(name: &str) -> Vec<u32> {
    let alphabet = b"ABCDEFGHJKLMNPQRSTUVWXYZabcdefghijkmnopqrstuvwxyz123456789";
    name.bytes()
        .map(|b| alphabet.iter().position(|s| *s == b).expect("symbol") as u32 * STEP)
        .collect()
}

fn config() -> Config {
    Config {
        max_age: Duration::seconds(3600),
        time_to_delete: Duration::seconds(60),
        base_url: "https://paste.example".to_string(),
    }
}

fn create(
    db: &mut DB,
    name: &str,
    owner: &str,
    delete_at: Option<DateTime>,
    now: DateTime,
) -> Sink {
    let (attempt, sink) = db.try_create(name, 0, owner, delete_at, now);
    assert_eq!(attempt, Attempt::Created);
    let sink = sink.expect("a created entry has a sink");
    assert_eq!(sink.name(), name);
    sink
}

#[test]
fn file_limit_is_ten_million_bytes() {
    assert_eq!(FILE_LIMIT, 10_000_000);
    assert_eq!(Allowance::new().left(), 10_000_000);
}

#[test]
fn allowance_goes_down_by_each_chunk() {
    let mut allowance = Allowance::new();
    assert!(allowance.take(1).is_ok());
    assert_eq!(allowance.left(), 9_999_999);
    assert!(allowance.take(0).is_ok());
    assert_eq!(allowance.left(), 9_999_999);
    assert!(allowance.take(9_999_999).is_ok());
    assert_eq!(allowance.left(), 0);
    assert!(allowance.take(0).is_ok());
}

#[test]
fn allowance_turns_down_a_chunk_that_is_too_large() {
    let mut allowance = Allowance::new();
    assert!(allowance.take(9_999_990).is_ok());
    let taken = allowance.take(11);
    assert!(matches!(taken, Err(UploadError::FieldTooBig("file", 10_000_000))));
    assert_eq!(allowance.left(), 10);
    assert!(allowance.take(10).is_ok());
    assert!(matches!(allowance.take(1), Err(UploadError::FieldTooBig("file", 10_000_000))));
}

#[test]
fn create_file_stores_the_chunks_in_order() {
    let mut db = DB::new();
    let mut rng = Draws::from_words(spell("abcd"));
    let data = vec![b"hel".to_vec(), Vec::new(), b"lo".to_vec()];
    let created = create_file_at(&data, &mut db, &mut rng, "alice".to_string(), &config(), at(7));
    assert!(matches!(created.as_deref(), Ok("abcd")));
    let file = db.load_file_at("abcd", at(8)).expect("live");
    assert_eq!(file.contents().to_vec(), b"hello".to_vec());
    assert_eq!(file.metadata().owner, "alice");
    assert_eq!(file.metadata().delete_at, Some(at(3607)));
    assert_eq!(file.created_at(), at(7));
}

#[test]
fn create_file_without_chunks_reports_no_data() {
    let mut db = DB::new();
    let mut rng = Draws::from_words(spell("abcd"));
    let created = create_file_at(&Vec::new(), &mut db, &mut rng, "alice".to_string(), &config(), at(7));
    assert!(matches!(created, Err(CreateError::Upload(UploadError::NoData))));
    assert!(!db.contains("abcd"));
    assert!(db.load_file_at("abcd", at(7)).is_none());
    assert_eq!(rng.len(), 0);
}

#[test]
fn create_file_with_empty_chunks_reports_no_data() {
    let mut db = DB::new();
    let mut rng = Draws::from_words(spell("abcd"));
    let data = vec![Vec::new(), Vec::new(), Vec::new()];
    let created = create_file_at(&data, &mut db, &mut rng, "alice".to_string(), &config(), at(7));
    assert!(matches!(created, Err(CreateError::Upload(UploadError::NoData))));
    assert!(!db.contains("abcd"));
}

#[test]
fn create_file_without_data_removes_a_recycled_entry_too() {
    let mut db = DB::new();
    let abcd = create(&mut db, "abcd", "bob", None, at(0));
    assert_eq!(db.append(&abcd, b"old"), Ok(()));
    let mut rng = Draws::from_words(spell("abcdabcdabcdabcdabcdabcd"));
    let created = create_file_at(&Vec::new(), &mut db, &mut rng, "alice".to_string(), &config(), at(7));
    assert!(matches!(created, Err(CreateError::Upload(UploadError::NoData))));
    assert!(!db.contains("abcd"));
}

#[test]
fn create_file_takes_exactly_the_limit() {
    let mut db = DB::new();
    let mut rng = Draws::from_words(spell("abcd"));
    let data = vec![vec![7u8; 6_000_000], vec![8u8; 4_000_000]];
    let created = create_file_at(&data, &mut db, &mut rng, "alice".to_string(), &config(), at(7));
    assert!(matches!(created.as_deref(), Ok("abcd")));
    let file = db.file("abcd").expect("stored");
    assert_eq!(file.contents().len(), 10_000_000);
    assert_eq!(file.contents().block_count(), 153);
    assert_eq!(file.contents().block(152).map(|block| block.len()), Some(38_528));
    assert_eq!(file.contents().block(91).map(|block| block[36_223]), Some(7));
    assert_eq!(file.contents().block(91).map(|block| block[36_224]), Some(8));
}

#[test]
fn create_file_stops_at_the_chunk_past_the_limit() {
    let mut db = DB::new();
    let mut rng = Draws::from_words(spell("abcd"));
    let data = vec![vec![7u8; 6_000_000], vec![8u8; 4_000_001], b"tail".to_vec()];
    let created = create_file_at(&data, &mut db, &mut rng, "alice".to_string(), &config(), at(7));
    assert!(matches!(
        created,
        Err(CreateError::Upload(UploadError::FieldTooBig("file", 10_000_000)))
    ));
    let file = db.file("abcd").expect("what was written stays");
    assert_eq!(file.contents().len(), 6_000_000);
    assert_eq!(file.metadata().owner, "alice");
}

#[test]
fn create_file_with_a_first_chunk_past_the_limit_leaves_an_empty_entry() {
    let mut db = DB::new();
    let mut rng = Draws::from_words(spell("abcd"));
    let data = vec![vec![1u8; 10_000_001]];
    let created = create_file_at(&data, &mut db, &mut rng, "alice".to_string(), &config(), at(7));
    assert!(matches!(
        created,
        Err(CreateError::Upload(UploadError::FieldTooBig("file", 10_000_000)))
    ));
    assert!(db.file("abcd").expect("stays").contents().is_empty());
}

#[test]
fn create_file_reports_a_used_up_supply() {
    let mut db = DB::new();
    let mut rng = Draws::from_words(spell("ab"));
    let data = vec![b"hello".to_vec()];
    let created = create_file_at(&data, &mut db, &mut rng, "alice".to_string(), &config(), at(7));
    assert!(matches!(created, Err(CreateError::OutOfDraws)));
    assert!(!db.contains("ab"));
}

#[test]
fn create_file_with_random_draws() {
    let mut db = DB::new();
    let mut rng = Draws::random(64);
    let data = vec![b"hello".to_vec()];
    let now = DateTime::now();
    let created = create_file_at(&data, &mut db, &mut rng, "alice".to_string(), &config(), now);
    let name = created.expect("64 words are enough but for a chance of 1 in 10^60");
    assert_eq!(name.len(), 4);
    let alphabet = "ABCDEFGHJKLMNPQRSTUVWXYZabcdefghijkmnopqrstuvwxyz123456789";
    assert!(name.chars().all(|c| alphabet.contains(c)));
    assert!(db.load_file_at(&name, DateTime::now()).is_some());
}

#[test]
fn finish_gives_the_name_of_an_entry_with_content() {
    let mut db = DB::new();
    let abcd = create(&mut db, "abcd", "alice", None, at(0));
    assert_eq!(db.append(&abcd, b"x"), Ok(()));
    assert_eq!(finish(&mut db, abcd).ok().as_deref(), Some("abcd"));
    assert!(db.contains("abcd"));
}

#[test]
fn finish_removes_an_entry_without_content() {
    let mut db = DB::new();
    let abcd = create(&mut db, "abcd", "alice", None, at(0));
    assert_eq!(db.append(&abcd, b""), Ok(()));
    assert!(matches!(finish(&mut db, abcd), Err(UploadError::NoData)));
    assert!(!db.contains("abcd"));
    assert!(db.load_file_at("abcd", at(0)).is_none());
}

#[test]
fn finish_of_a_removed_entry_has_no_data() {
    let mut db = DB::new();
    let abcd = create(&mut db, "abcd", "alice", None, at(0));
    assert_eq!(db.append(&abcd, b"x"), Ok(()));
    db.delete("abcd");
    assert!(matches!(finish(&mut db, abcd), Err(UploadError::NoData)));
    assert!(!db.contains("abcd"));
}

#[test]
fn an_upload_of_no_bytes_has_no_data() {
    assert!(matches!(finished(0), Err(UploadError::NoData)));
    assert!(finished(1).is_ok());
    assert!(finished(u64::MAX).is_ok());
}

#[test]
fn create_file_by_the_clock() {
    let mut db = DB::new();
    let data = vec![b"hel".to_vec(), b"lo".to_vec()];
    let name = pastemp::upload::create_file(&data, &mut db, "alice".to_string(), &config())
        .expect("64 words are enough but for a chance of 1 in 10^30");
    assert_eq!(name.len(), 4);
    let file = db.load_file(&name).expect("live");
    assert_eq!(file.contents().to_vec(), b"hello".to_vec());
    assert_eq!(file.metadata().owner, "alice");
    assert_eq!(file.metadata().delete_at, Some(file.created_at().plus(Duration::seconds(3600))));
}

#[test]
fn create_file_by_the_clock_without_data() {
    let mut db = DB::new();
    let created = pastemp::upload::create_file(&Vec::new(), &mut db, "alice".to_string(), &config());
    assert!(matches!(created, Err(CreateError::Upload(UploadError::NoData))));
}
