use pastemp::form::{
    extension_field, extension_of, extension_too_big, field_kind, invalid_field, location,
    reply_body, ExtensionFault, ExtensionField, Field, Form, EXTENSION_LIMIT,
};
use pastemp::text::{chars_of, lines_with_endings, string_of, trim, trim_range, without_char};
use pastemp::upload::UploadError;

#[test]
fn the_form_has_two_fields() {
    assert_eq!(field_kind("data"), Field::Data);
    assert_eq!(field_kind("extension"), Field::Extension);
    assert_eq!(field_kind(""), Field::Invalid);
    assert_eq!(field_kind("Data"), Field::Invalid);
    assert_eq!(field_kind("file"), Field::Invalid);
    assert_eq!(field_kind("data "), Field::Invalid);
}

#[test]
fn an_unknown_field_is_named_in_the_error() {
    assert!(matches!(invalid_field("file"), UploadError::InvalidField(name) if name == "file"));
}

#[test]
fn extension_is_what_follows_the_last_dot() {
    assert_eq!(extension_of("notes.txt").as_deref(), Some("txt"));
    assert_eq!(extension_of("archive.tar.gz").as_deref(), Some("gz"));
    assert_eq!(extension_of(".bashrc").as_deref(), Some("bashrc"));
    assert_eq!(extension_of("a.b.").as_deref(), None);
    assert_eq!(extension_of("README").as_deref(), None);
    assert_eq!(extension_of("").as_deref(), None);
    assert_eq!(extension_of(".").as_deref(), None);
}

#[test]
fn extension_of_a_file_name_is_trimmed() {
    assert_eq!(extension_of("notes. txt \n").as_deref(), Some("txt"));
    assert_eq!(extension_of("notes.\u{a0}md\u{2003}").as_deref(), Some("md"));
    assert_eq!(extension_of("notes.  ").as_deref(), None);
    assert_eq!(extension_of("notes.t x").as_deref(), Some("t x"));
    assert_eq!(extension_of("caf\u{e9}.\u{fc}ml").as_deref(), Some("\u{fc}ml"));
}

#[test]
fn trim_takes_off_white_space_at_both_ends() {
    assert_eq!(trim("  a b \t\r\n"), "a b");
    assert_eq!(trim("\u{2028}x\u{3000}"), "x");
    assert_eq!(trim("x"), "x");
    assert_eq!(trim("   "), "");
    assert_eq!(trim(""), "");
    assert_eq!(trim("\u{200b}x"), "\u{200b}x");
}

#[test]
fn trim_range_starts_where_it_is_told() {
    let chars = chars_of(" ab  cd ");
    assert_eq!(chars, vec![' ', 'a', 'b', ' ', ' ', 'c', 'd', ' ']);
    assert_eq!(trim_range(&chars, 0), (1, 7));
    assert_eq!(trim_range(&chars, 3), (5, 7));
    assert_eq!(trim_range(&chars, 7), (8, 8));
    assert_eq!(trim_range(&chars, 8), (8, 8));
    assert_eq!(string_of(&chars, 1, 3), "ab");
    assert_eq!(string_of(&chars, 2, 2), "");
}

#[test]
fn extension_field_joins_its_chunks() {
    let chunks = vec![b" r".to_vec(), Vec::new(), b"s \n".to_vec()];
    assert_eq!(extension_field(&chunks), Ok(Some("rs".to_string())));
}

#[test]
fn extension_field_without_text_gives_none() {
    assert_eq!(extension_field(&Vec::new()), Ok(None));
    assert_eq!(extension_field(&vec![b"  ".to_vec(), b"\n".to_vec()]), Ok(None));
}

#[test]
fn extension_field_may_hold_twenty_bytes() {
    assert_eq!(EXTENSION_LIMIT, 20);
    let twenty = vec![b"0123456789".to_vec(), b"0123456789".to_vec()];
    assert_eq!(extension_field(&twenty), Ok(Some("01234567890123456789".to_string())));
    let more = vec![b"0123456789".to_vec(), b"01234567890".to_vec()];
    assert_eq!(extension_field(&more), Err(ExtensionFault::TooBig));
}

#[test]
fn extension_field_counts_bytes_before_trimming() {
    let padded = vec![b"                    x".to_vec()];
    assert_eq!(extension_field(&padded), Err(ExtensionFault::TooBig));
    // seven characters of three bytes each
    let wide = vec!["\u{20ac}\u{20ac}\u{20ac}\u{20ac}\u{20ac}\u{20ac}\u{20ac}".as_bytes().to_vec()];
    assert_eq!(extension_field(&wide), Err(ExtensionFault::TooBig));
    let six = vec!["\u{20ac}\u{20ac}\u{20ac}\u{20ac}\u{20ac}\u{20ac}".as_bytes().to_vec()];
    assert_eq!(extension_field(&six).map(|ext| ext.map(|ext| ext.chars().count())), Ok(Some(6)));
}

#[test]
fn extension_field_stops_at_the_first_fault() {
    let chunks = vec![b"012345678901234567890".to_vec(), vec![0xff]];
    assert_eq!(extension_field(&chunks), Err(ExtensionFault::TooBig));
    let chunks = vec![vec![0xff], b"012345678901234567890".to_vec()];
    assert_eq!(extension_field(&chunks), Err(ExtensionFault::NotText));
}

#[test]
fn extension_field_takes_each_chunk_as_text_of_its_own() {
    assert_eq!(extension_field(&vec![vec![0xc3, 0xa9]]), Ok(Some("\u{e9}".to_string())));
    assert_eq!(extension_field(&vec![vec![0xc3], vec![0xa9]]), Err(ExtensionFault::NotText));
    assert_eq!(extension_field(&vec![vec![0xed, 0xa0, 0x80]]), Err(ExtensionFault::NotText));
    assert_eq!(extension_field(&vec![vec![0xc0, 0x80]]), Err(ExtensionFault::NotText));
}

#[test]
fn extension_field_step_by_step() {
    let mut field = ExtensionField::new();
    assert_eq!(field.push(b"t"), Ok(()));
    assert_eq!(field.push(&[0x80]), Err(ExtensionFault::NotText));
    assert_eq!(field.push(b"xt "), Ok(()));
    assert_eq!(field.finish().as_deref(), Some("txt"));
}

#[test]
fn an_extension_that_is_too_big_names_the_field() {
    assert!(matches!(extension_too_big(), UploadError::FieldTooBig("extension", 20)));
}

#[test]
fn a_form_without_content_has_no_data() {
    assert!(matches!(Form::new().finish(), Err(UploadError::NoData)));
    let mut form = Form::new();
    form.extension(Some("txt".to_string()));
    form.file_name("a.md");
    assert!(matches!(form.finish(), Err(UploadError::NoData)));
}

#[test]
fn a_form_gives_the_entry_and_the_last_extension_noted() {
    let mut form = Form::new();
    form.stored("abcd".to_string());
    assert_eq!(form.finish().ok(), Some(("abcd".to_string(), None)));

    let mut form = Form::new();
    form.extension(Some("txt".to_string()));
    form.file_name("photo.png");
    form.stored("abcd".to_string());
    assert_eq!(form.finish().ok(), Some(("abcd".to_string(), Some("png".to_string()))));

    let mut form = Form::new();
    form.file_name("photo.png");
    form.stored("abcd".to_string());
    form.extension(Some("txt".to_string()));
    form.extension(None);
    form.file_name("README");
    form.stored("wxyz".to_string());
    assert_eq!(form.finish().ok(), Some(("wxyz".to_string(), Some("txt".to_string()))));
}

#[test]
fn location_is_the_name_with_its_extension() {
    assert_eq!(location("abcd", None), "abcd");
    assert_eq!(location("abcd", Some("txt")), "abcd.txt");
    assert_eq!(location("abcd", Some("")), "abcd.");
}

#[test]
fn reply_body_is_the_address_and_a_line_feed() {
    assert_eq!(reply_body("", "abcd.txt"), "abcd.txt\n");
    assert_eq!(reply_body("https://paste.example", "abcd"), "https://paste.example/abcd\n");
    assert_eq!(reply_body("https://paste.example/", "abcd"), "https://paste.example/abcd\n");
    assert_eq!(reply_body("/", "abcd"), "/abcd\n");
    assert_eq!(reply_body("x", ""), "x/\n");
}

#[test]
fn lines_keep_their_line_feeds() {
    assert_eq!(lines_with_endings("foo\nbar\nbaz"), vec!["foo\n", "bar\n", "baz"]);
    assert_eq!(lines_with_endings("foo\n"), vec!["foo\n"]);
    assert_eq!(lines_with_endings("\n\nx"), vec!["\n", "\n", "x"]);
    assert_eq!(lines_with_endings("a\r\nb"), vec!["a\r\n", "b"]);
    assert_eq!(lines_with_endings(""), Vec::<String>::new());
}

#[test]
fn lines_are_split_as_the_highlighter_splits_them() {
    for text in ["", "one", "one\n", "\n", "a\n\nb\n", "\u{e9}\n\u{20ac}", "x\r\ny\r"] {
        let expected: Vec<String> =
            syntect::util::LinesWithEndings::from(text).map(str::to_string).collect();
        assert_eq!(lines_with_endings(text), expected);
    }
}

#[test]
fn without_char_drops_every_occurrence() {
    assert_eq!(without_char("a\r\nb\r", '\r'), "a\nb");
    assert_eq!(without_char("\r\r", '\r'), "");
    assert_eq!(without_char("abc", '\r'), "abc");
    assert_eq!(without_char("", '\r'), "");
    assert_eq!(without_char("x\r\ny", '\r'), "x\r\ny".replace('\r', ""));
}
