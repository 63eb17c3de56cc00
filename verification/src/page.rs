//! How an entry is shown: under which name, as which media type, and on which page.

use crate::db::File;
use crate::expiry::token;
use crate::files::Contents;
use crate::form::{location, shown_as, text_of};
use crate::highlight::highlight;
use crate::text::str_from_utf8;
use syntect::parsing::SyntaxSet;
use vstd::prelude::*;
use vstd::utf8::{decode_utf8, valid_utf8};

verus! {

/// Content of at least this many bytes is not shown as text.
pub const TEXT_LIMIT: u64 = 50_000;

/// The name in a request for an entry: the entry's name and the extension to show it under.
#[derive(Debug)]
pub struct FileName {
    pub id: String,
    pub ext: Option<String>,
}

impl FileName {
    /// The name as it is written in an address: the entry's name, and after a `.` the
    /// extension where there is one.
    pub fn to_string(&self) -> (shown: String)
        ensures
            shown@ == shown_as(self.id@, text_of(self.ext)),
    {
        match &self.ext {
            Some(ext) => location(self.id.as_str(), Some(ext.as_str())),
            None => location(self.id.as_str(), None),
        }
    }
}

/// A media type, as far as the pages read it.
#[derive(Debug)]
pub struct MediaType {
    /// The top-level type, such as `image`.
    pub top: String,
    /// The media type as it is written, such as `image/png`.
    pub text: String,
}

/// The first media type that `mime_guess` gives for an extension, by its top-level type and
/// as it is written; `None` where it gives none.
pub uninterp spec fn guessed(ext: Seq<char>) -> Option<(Seq<char>, Seq<char>)>;

/// A media type by its top-level type and as it is written.
pub open spec fn media_type(guess: Option<MediaType>) -> Option<(Seq<char>, Seq<char>)> {
    match guess {
        Some(guess) => Some((guess.top@, guess.text@)),
        None => None,
    }
}

/// The first media type of `mime_guess::from_ext(ext)`, by `MimeGuess::first`: a lookup of
/// the extension in a table that is part of that crate.
#[verifier::external_body]
fn first_guess(ext: &str) -> (guess: Option<MediaType>)
    ensures
        media_type(guess) == guessed(ext@),
{
    mime_guess::from_ext(ext).first().map(
        |mime| MediaType { top: mime.type_().as_str().to_owned(), text: mime.as_ref().to_owned() },
    )
}

/// The media type that an optional extension stands for.
pub open spec fn guessed_for(ext: Option<Seq<char>>) -> Option<(Seq<char>, Seq<char>)> {
    match ext {
        Some(ext) => guessed(ext),
        None => None,
    }
}

/// The media type that the extension of a request stands for; none where the request has no
/// extension or the extension is not known.
pub fn guess(ext: Option<&str>) -> (guess: Option<MediaType>)
    ensures
        media_type(guess) == guessed_for(token(ext)),
{
    match ext {
        Some(ext) => first_guess(ext),
        None => None,
    }
}

/// The content type that an entry is sent with: the media type that its extension stands
/// for, and `application/octet-stream` where it stands for none.
pub open spec fn content_type_of(guess: Option<(Seq<char>, Seq<char>)>) -> Seq<char> {
    match guess {
        Some(guess) => guess.1,
        None => "application/octet-stream"@,
    }
}

/// The content type that an entry is sent with, given the media type that its extension
/// stands for.
pub fn content_type(guess: Option<MediaType>) -> (content_type: String)
    ensures
        content_type@ == content_type_of(media_type(guess)),
{
    match guess {
        Some(guess) => guess.text,
        None => "application/octet-stream".to_owned(),
    }
}

/// Whether a media type is an image.
pub open spec fn image(guess: Option<(Seq<char>, Seq<char>)>) -> bool {
    guess matches Some(guess) && guess.0 == "image"@
}

/// Whether the media type that an extension stands for is an image.
pub fn is_image(guess: &Option<MediaType>) -> (is: bool)
    ensures
        is == image(media_type(*guess)),
{
    match guess {
        Some(guess) => guess.top == "image".to_owned(),
        None => false,
    }
}

/// The page that an entry is shown on.
#[derive(Debug)]
pub enum Page {
    /// The content is shown as an image.
    Image,
    /// The content is shown as text marked up for its syntax: `code` is the markup, and
    /// `copy` the text as it is.
    Highlighted { code: String, copy: String },
    /// The content is shown as plain text: `code` and `copy` are both the text as it is.
    UnHighlighted { code: String, copy: String },
    /// The content is not text and is not shown.
    WrongType,
    /// The content is too large to be shown.
    TooLarge,
}

/// What is to be done with content, going by its media type and its size alone.
#[derive(Clone, Copy, Debug, PartialEq, Eq, Structural)]
pub enum Look {
    /// The content is shown as an image; its bytes need not be read.
    Image,
    /// The content is small enough to be shown as text; its bytes are to be read.
    Read,
    /// The content is too large to be shown; its bytes need not be read.
    TooLarge,
}

/// What is to be done with content of `len` bytes that is an image or not.
pub open spec fn looked(image: bool, len: nat) -> Look {
    if image {
        Look::Image
    } else if len < TEXT_LIMIT {
        Look::Read
    } else {
        Look::TooLarge
    }
}

/// What is to be done with content of `len` bytes that is an image or not: an image is shown
/// as one whatever its size, and other content is read where it has fewer than
/// [`TEXT_LIMIT`] bytes.
pub fn first_look(image: bool, len: u64) -> (look: Look)
    ensures
        look == looked(image, len as nat),
{
    if image {
        Look::Image
    } else if len < TEXT_LIMIT {
        Look::Read
    } else {
        Look::TooLarge
    }
}

/// The text that bytes spell, where they are valid UTF-8.
pub fn read_text(bytes: &[u8]) -> (text: Option<String>)
    ensures
        match text {
            Some(text) => valid_utf8(bytes@) && text@ == decode_utf8(bytes@),
            None => !valid_utf8(bytes@),
        },
{
    match str_from_utf8(bytes) {
        Some(text) => Some(text.to_owned()),
        None => None,
    }
}

/// The page for `text`, given its markup where the highlighter gave one: the page with the
/// markup, or the page with the plain text where there is none.
pub fn code_page(text: String, markup: Option<String>) -> (page: Page)
    ensures
        match markup {
            Some(markup) => page matches Page::Highlighted { code, copy } && code@ == markup@
                && copy@ == text@,
            None => page matches Page::UnHighlighted { code, copy } && code@ == text@ && copy@
                == text@,
        },
{
    match markup {
        Some(markup) => Page::Highlighted { code: markup, copy: text },
        None => Page::UnHighlighted { code: text.clone(), copy: text },
    }
}

/// Whether `page` shows `text`: marked up or plain, with `text` to copy.
pub open spec fn shows_text(page: Page, text: Seq<char>) -> bool {
    match page {
        Page::Highlighted { code, copy } => copy@ == text,
        Page::UnHighlighted { code, copy } => code@ == text && copy@ == text,
        _ => false,
    }
}

/// The page for content that was read, asked for with the extension `ext`.
///
/// Bytes that are not valid UTF-8 are of the wrong type. Text is marked up where `syntaxes`
/// knows a syntax for the extension and the highlighter takes every line of the text; it is
/// shown plain where there is no extension, no syntax for it, or a line that the highlighter
/// takes amiss.
pub fn read_page(bytes: &[u8], ext: Option<&str>, syntaxes: &SyntaxSet) -> (page: Page)
    ensures
        valid_utf8(bytes@) ==> shows_text(page, decode_utf8(bytes@)),
        !valid_utf8(bytes@) ==> page is WrongType,
        ext is None ==> !(page is Highlighted),
{
    match read_text(bytes) {
        Some(text) => {
            let markup = match ext {
                Some(ext) => highlight(text.as_str(), ext, syntaxes),
                None => None,
            };
            code_page(text, markup)
        },
        None => Page::WrongType,
    }
}

/// Whether `page` is the page for `content` that is an image or not.
///
/// An image has its own page, whatever its size. Other content of fewer than
/// [`TEXT_LIMIT`] bytes is shown as text where it is valid UTF-8, and as being of the wrong
/// type where it is not. Larger content is not shown.
pub open spec fn page_of(page: Page, image: bool, content: Seq<u8>) -> bool {
    match looked(image, content.len()) {
        Look::Image => page is Image,
        Look::Read => if valid_utf8(content) {
            shows_text(page, decode_utf8(content))
        } else {
            page is WrongType
        },
        Look::TooLarge => page is TooLarge,
    }
}

/// The page for `contents` that is an image or not, asked for with the extension `ext`.
pub fn choose_page(
    image: bool,
    contents: &Contents,
    ext: Option<&str>,
    syntaxes: &SyntaxSet,
) -> (page: Page)
    ensures
        page_of(page, image, contents@),
        ext is None ==> !(page is Highlighted),
{
    match first_look(image, contents.len() as u64) {
        Look::Image => Page::Image,
        Look::Read => {
            let bytes = contents.to_vec();
            read_page(bytes.as_slice(), ext, syntaxes)
        },
        Look::TooLarge => Page::TooLarge,
    }
}

/// The page that `file` is shown on when it is asked for with the extension `ext`.
pub fn page(file: &File, ext: Option<&str>, syntaxes: &SyntaxSet) -> (page: Page)
    ensures
        page_of(page, image(guessed_for(token(ext))), file@.content),
        ext is None ==> !(page is Highlighted),
{
    let guess = guess(ext);
    choose_page(is_image(&guess), file.contents(), ext, syntaxes)
}

} // verus!
