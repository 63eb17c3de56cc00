//! The rules of the upload form: its fields, the extension that an upload is shown under, and
//! the reply to an upload.

use crate::text::{
    after_last_dot, chars_of, lemma_after_last_dot, lemma_no_dot, str_from_utf8, string_of, trim,
    trim_range, trimmed,
};
use crate::upload::UploadError;
use vstd::prelude::*;
use vstd::string::StringExecFns;
use vstd::utf8::{decode_utf8, encode_utf8, valid_utf8};

verus! {

/// Largest number of bytes that the form's extension field may hold.
pub const EXTENSION_LIMIT: usize = 20;

/// What a field of the form is for.
#[derive(Clone, Copy, Debug, PartialEq, Eq, Structural)]
pub enum Field {
    /// The content to store.
    Data,
    /// The extension to show the content under.
    Extension,
    /// No field of the form.
    Invalid,
}

/// What the field of the given name is for.
pub open spec fn field_of(name: Seq<char>) -> Field {
    if name == "data"@ {
        Field::Data
    } else if name == "extension"@ {
        Field::Extension
    } else {
        Field::Invalid
    }
}

/// What the field `name` is for: `data` holds the content, `extension` the extension, and no
/// other field is known.
pub fn field_kind(name: &str) -> (field: Field)
    ensures
        field == field_of(name@),
{
    let name = name.to_owned();
    if name == "data".to_owned() {
        Field::Data
    } else if name == "extension".to_owned() {
        Field::Extension
    } else {
        Field::Invalid
    }
}

/// The error for a field `name` that the form does not know.
pub fn invalid_field(name: &str) -> (error: UploadError)
    ensures
        error matches UploadError::InvalidField(field) && field@ == name@,
{
    UploadError::InvalidField(name.to_owned())
}

/// `text` as an extension: without the white space around it, and none where nothing is left.
pub open spec fn as_extension(text: Seq<char>) -> Option<Seq<char>> {
    if trimmed(text).len() > 0 {
        Some(trimmed(text))
    } else {
        None
    }
}

/// The extension that a file name gives: what follows its last `.`, as an extension.
pub open spec fn extension_in(file_name: Seq<char>) -> Option<Seq<char>> {
    match after_last_dot(file_name) {
        Some(tail) => as_extension(tail),
        None => None,
    }
}

/// The extension that the name of an uploaded file gives: what follows its last `.`, without
/// the white space around it. None where the name holds no `.` or nothing but white space
/// follows the last one.
pub fn extension_of(file_name: &str) -> (extension: Option<String>)
    ensures
        match extension_in(file_name@) {
            Some(ext) => extension matches Some(extension) && extension@ == ext,
            None => extension is None,
        },
{
    let chars = chars_of(file_name);
    let mut at: usize = chars.len();
    while at > 0 && chars[at - 1] != '.'
        invariant
            at <= chars@.len(),
            forall|i: int| at <= i < chars@.len() ==> chars@[i] != '.',
        decreases at,
    {
        at = at - 1;
    }
    if at == 0 {
        proof {
            lemma_no_dot(chars@);
        }
        return None;
    }
    proof {
        lemma_after_last_dot(chars@, at - 1);
    }
    let range = trim_range(&chars, at);
    if range.0 < range.1 {
        Some(string_of(&chars, range.0, range.1))
    } else {
        None
    }
}

/// Why the extension field was turned down.
#[derive(Clone, Copy, Debug, PartialEq, Eq, Structural)]
pub enum ExtensionFault {
    /// A chunk of the field is not valid UTF-8.
    NotText,
    /// The field holds more than [`EXTENSION_LIMIT`] bytes.
    TooBig,
}

/// The text of an extension field after the chunks `chunks` are added to `text`: every chunk
/// must be valid UTF-8 on its own, and the text may at no point take more than
/// [`EXTENSION_LIMIT`] bytes.
pub open spec fn extension_text(chunks: Seq<Seq<u8>>, text: Seq<char>) -> Result<
    Seq<char>,
    ExtensionFault,
>
    decreases chunks.len(),
{
    if chunks.len() == 0 {
        Ok(text)
    } else if !valid_utf8(chunks[0]) {
        Err(ExtensionFault::NotText)
    } else if encode_utf8(text + decode_utf8(chunks[0])).len() > EXTENSION_LIMIT {
        Err(ExtensionFault::TooBig)
    } else {
        extension_text(chunks.drop_first(), text + decode_utf8(chunks[0]))
    }
}

/// The extension field of the form while its chunks come in.
///
/// Its view is the text so far.
#[derive(Debug)]
pub struct ExtensionField {
    text: String,
}

impl View for ExtensionField {
    type V = Seq<char>;

    closed spec fn view(&self) -> Seq<char> {
        self.text@
    }
}

impl ExtensionField {
    /// The field before its first chunk.
    pub fn new() -> (field: ExtensionField)
        ensures
            field@ == Seq::<char>::empty(),
    {
        ExtensionField { text: String::new() }
    }

    /// Adds the chunk `data` to the field.
    ///
    /// A chunk that is not valid UTF-8 is turned down and leaves the field as it was. A chunk
    /// that takes the text past [`EXTENSION_LIMIT`] bytes is turned down too.
    pub fn push(&mut self, data: &[u8]) -> (pushed: Result<(), ExtensionFault>)
        ensures
            !valid_utf8(data@) ==> pushed == Err::<(), ExtensionFault>(ExtensionFault::NotText)
                && final(self)@ == old(self)@,
            valid_utf8(data@) ==> final(self)@ == old(self)@ + decode_utf8(data@) && pushed == (
            if encode_utf8(final(self)@).len() > EXTENSION_LIMIT {
                Err::<(), ExtensionFault>(ExtensionFault::TooBig)
            } else {
                Ok::<(), ExtensionFault>(())
            }),
    {
        match str_from_utf8(data) {
            Some(chunk) => {
                self.text.append(chunk);
                if self.text.as_str().as_bytes().len() > EXTENSION_LIMIT {
                    Err(ExtensionFault::TooBig)
                } else {
                    Ok(())
                }
            },
            None => Err(ExtensionFault::NotText),
        }
    }

    /// The extension that the field gives: its text without the white space around it, and
    /// none where nothing is left.
    pub fn finish(self) -> (extension: Option<String>)
        ensures
            match as_extension(self@) {
                Some(ext) => extension matches Some(extension) && extension@ == ext,
                None => extension is None,
            },
    {
        let bare = trim(self.text.as_str());
        if bare.as_str().unicode_len() > 0 {
            Some(bare)
        } else {
            None
        }
    }
}

/// The error that a fault of the extension field is reported as, where it is one of the
/// upload's own: a field that is too big.
pub fn extension_too_big() -> (error: UploadError)
    ensures
        error matches UploadError::FieldTooBig(field, limit) && field@ == "extension"@ && limit
            == EXTENSION_LIMIT,
{
    UploadError::FieldTooBig("extension", EXTENSION_LIMIT)
}

/// Reads the extension field from its chunks.
pub fn extension_field(chunks: &Vec<Vec<u8>>) -> (extension: Result<
    Option<String>,
    ExtensionFault,
>)
    ensures
        match extension_text(crate::upload::chunks_of(chunks@), Seq::empty()) {
            Ok(text) => match as_extension(text) {
                Some(ext) => extension matches Ok(Some(extension)) && extension@ == ext,
                None => extension matches Ok(None),
            },
            Err(fault) => extension == Err::<Option<String>, ExtensionFault>(fault),
        },
{
    let mut field = ExtensionField::new();
    let ghost all = crate::upload::chunks_of(chunks@);
    let mut i: usize = 0;
    assert(all.subrange(0, all.len() as int) =~= all);
    while i < chunks.len()
        invariant
            i <= chunks@.len(),
            all == crate::upload::chunks_of(chunks@),
            extension_text(all.subrange(i as int, all.len() as int), field@) == extension_text(
                all,
                Seq::empty(),
            ),
        decreases chunks@.len() - i,
    {
        proof {
            let rest = all.subrange(i as int, all.len() as int);
            assert(rest[0] == chunks@[i as int]@);
            assert(rest.drop_first() =~= all.subrange(i + 1, all.len() as int));
        }
        match field.push(chunks[i].as_slice()) {
            Ok(()) => {},
            Err(fault) => {
                return Err(fault);
            },
        }
        i = i + 1;
    }
    Ok(field.finish())
}

/// What an upload form has given so far: the extension to show the content under, and the
/// name of the entry that its content was stored as.
#[derive(Debug)]
pub struct Form {
    extension: Option<String>,
    file: Option<String>,
}

/// A form as the rules see it.
pub struct FormView {
    pub extension: Option<Seq<char>>,
    pub file: Option<Seq<char>>,
}

/// The characters of an optional string.
pub open spec fn text_of(text: Option<String>) -> Option<Seq<char>> {
    match text {
        Some(text) => Some(text@),
        None => None,
    }
}

impl View for Form {
    type V = FormView;

    closed spec fn view(&self) -> FormView {
        FormView { extension: text_of(self.extension), file: text_of(self.file) }
    }
}

impl Form {
    /// A form before its first field.
    pub fn new() -> (form: Form)
        ensures
            form@ == (FormView { extension: None, file: None }),
    {
        Form { extension: None, file: None }
    }

    /// Takes note of the name that the uploaded file has at the sender: the extension that
    /// the name gives replaces the one noted so far; a name that gives none changes nothing.
    pub fn file_name(&mut self, file_name: &str)
        ensures
            final(self)@ == match extension_in(file_name@) {
                Some(ext) => FormView { extension: Some(ext), ..old(self)@ },
                None => old(self)@,
            },
    {
        match extension_of(file_name) {
            Some(extension) => {
                self.extension = Some(extension);
            },
            None => {},
        }
    }

    /// Takes note of the entry `name` that the content was stored as; it replaces one noted
    /// before.
    pub fn stored(&mut self, name: String)
        ensures
            final(self)@ == (FormView { file: Some(name@), ..old(self)@ }),
    {
        self.file = Some(name);
    }

    /// Takes note of what the extension field gave: an extension replaces the one noted so
    /// far, and none changes nothing.
    pub fn extension(&mut self, extension: Option<String>)
        ensures
            final(self)@ == match extension {
                Some(ext) => FormView { extension: Some(ext@), ..old(self)@ },
                None => old(self)@,
            },
    {
        match extension {
            Some(extension) => {
                self.extension = Some(extension);
            },
            None => {},
        }
    }

    /// What the whole form gave: the name of the entry and the extension to show it under. A
    /// form without content is turned down with `NoData`.
    pub fn finish(self) -> (given: Result<(String, Option<String>), UploadError>)
        ensures
            match self@.file {
                Some(name) => given matches Ok(pair) && pair.0@ == name && text_of(pair.1)
                    == self@.extension,
                None => given matches Err(UploadError::NoData),
            },
    {
        match self.file {
            Some(name) => Ok((name, self.extension)),
            None => Err(UploadError::NoData),
        }
    }
}

/// The name that an entry is shown under: its name, and after a `.` its extension where it
/// has one.
pub open spec fn shown_as(name: Seq<char>, extension: Option<Seq<char>>) -> Seq<char> {
    match extension {
        Some(extension) => name + seq!['.'] + extension,
        None => name,
    }
}

/// `base_url` as a prefix: with a `/` at its end, unless it is empty or has one already.
pub open spec fn prefix_of(base_url: Seq<char>) -> Seq<char> {
    if base_url.len() > 0 && base_url.last() != '/' {
        base_url + seq!['/']
    } else {
        base_url
    }
}

/// The name that an entry is shown under: `name`, and after a `.` its extension where it has
/// one.
pub fn location(name: &str, extension: Option<&str>) -> (shown: String)
    ensures
        shown@ == shown_as(name@, crate::expiry::token(extension)),
{
    let mut shown = name.to_owned();
    match extension {
        Some(extension) => {
            shown.push('.');
            shown.append(extension);
            assert(shown@ =~= name@ + seq!['.'] + extension@);
        },
        None => {},
    }
    shown
}

/// The body of the reply to an upload: the address of the new entry, `base_url` before the
/// name it is shown under, and a line feed.
pub fn reply_body(base_url: &str, shown: &str) -> (body: String)
    ensures
        body@ == prefix_of(base_url@) + shown@ + seq!['\n'],
{
    let mut body = base_url.to_owned();
    let chars = chars_of(base_url);
    if chars.len() > 0 && chars[chars.len() - 1] != '/' {
        body.push('/');
        assert(body@ =~= base_url@ + seq!['/']);
    }
    body.append(shown);
    body.push('\n');
    body
}

} // verus!
