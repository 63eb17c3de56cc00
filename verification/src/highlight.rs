//! Text marked up for its syntax, by the highlighter of `syntect`.

use crate::text::{lines, lines_with_endings, texts, without_char};
use syntect::html::ClassedHTMLGenerator;
use syntect::parsing::SyntaxSet;
use vstd::prelude::*;

verus! {

/// The syntaxes that the highlighter knows.
#[verifier::external_type_specification]
#[verifier::external_body]
pub struct ExSyntaxSet(syntect::parsing::SyntaxSet);

/// The highlighter while lines are fed to it.
#[verifier::external_type_specification]
#[verifier::external_body]
pub struct ExClassedHtmlGenerator<'a>(syntect::html::ClassedHTMLGenerator<'a>);

/// The tokens, extensions and names, by which `SyntaxSet::find_syntax_by_token` finds a
/// syntax in a set.
pub uninterp spec fn known_tokens(syntaxes: SyntaxSet) -> Set<Seq<char>>;

/// The markup that a highlighter has written so far.
pub uninterp spec fn written(generator: ClassedHTMLGenerator) -> Seq<char>;

/// The number of `<span>` tags that a highlighter has opened and not closed yet.
pub uninterp spec fn open_spans(generator: ClassedHTMLGenerator) -> int;

/// `markup` with a closing tag for each of `spans` open `<span>` tags.
pub open spec fn closed(markup: Seq<char>, spans: int) -> Seq<char>
    decreases spans,
{
    if spans <= 0 {
        markup
    } else {
        closed(markup + "</span>"@, spans - 1)
    }
}

/// A highlighter for the syntax that `SyntaxSet::find_syntax_by_token` finds for `token` in
/// `syntaxes`, made by `ClassedHTMLGenerator::new_with_class_style` with the style
/// `SpacedPrefixed`. There is one where the set finds a syntax by the token, and only there;
/// it has written nothing yet and has no tag open, and it parses with the set that its syntax
/// is taken from. Nothing is claimed of which syntax is found.
#[verifier::external_body]
fn generator_for<'a>(
    syntaxes: &'a SyntaxSet,
    token: &str,
    prefix: &'static str,
) -> (generator: Option<ClassedHTMLGenerator<'a>>)
    ensures
        generator is Some == known_tokens(*syntaxes).contains(token@),
        generator matches Some(generator) ==> written(generator) == Seq::<char>::empty()
            && open_spans(generator) == 0,
{
    syntaxes.find_syntax_by_token(token).map(
        |syntax|
            ClassedHTMLGenerator::new_with_class_style(
                syntax,
                syntaxes,
                syntect::html::ClassStyle::SpacedPrefixed { prefix },
            ),
    )
}

/// `ClassedHTMLGenerator::parse_html_for_line_which_includes_newline` takes the next line.
/// Returns whether the line was taken. A line that is taken has its markup written after what
/// was written before; one that is not leaves what was written, and the count of open tags,
/// as they were. Nothing is claimed of when a line is taken, nor of its markup.
#[verifier::external_body]
fn parse_line(generator: &mut ClassedHTMLGenerator<'_>, line: &str) -> (taken: bool)
    ensures
        written(*old(generator)).is_prefix_of(written(*final(generator))),
        !taken ==> written(*final(generator)) == written(*old(generator)) && open_spans(
            *final(generator),
        ) == open_spans(*old(generator)),
{
    generator.parse_html_for_line_which_includes_newline(line).is_ok()
}

/// `ClassedHTMLGenerator::finalize` hands out what was written, with a closing tag after it
/// for each tag that is still open.
#[verifier::external_body]
fn finalize(generator: ClassedHTMLGenerator<'_>) -> (markup: String)
    ensures
        markup@ == closed(written(generator), open_spans(generator)),
{
    generator.finalize()
}

/// `text` marked up for the syntax that `syntaxes` knows by `token`, an extension or a name,
/// with classes that start with `code-`.
///
/// The text is fed to the highlighter line by line, each line with its line feed and without
/// carriage returns. Returns `None` where `syntaxes` knows no such syntax, and as soon as the
/// highlighter takes a line amiss. A text without a line has no markup to be amiss: for a
/// syntax that is known its markup is empty.
pub fn highlight(text: &str, token: &str, syntaxes: &SyntaxSet) -> (markup: Option<String>)
    ensures
        match markup {
            Some(markup) => known_tokens(*syntaxes).contains(token@) && (text@.len() == 0
                ==> markup@ == Seq::<char>::empty()),
            None => !known_tokens(*syntaxes).contains(token@) || text@.len() > 0,
        },
{
    let mut generator = match generator_for(syntaxes, token, "code-") {
        Some(generator) => generator,
        None => {
            return None;
        },
    };
    let list = lines_with_endings(text);
    let mut i: usize = 0;
    while i < list.len()
        invariant
            i <= list@.len(),
            known_tokens(*syntaxes).contains(token@),
            texts(list@) == lines(text@),
            text@.len() == 0 ==> written(generator) == Seq::<char>::empty() && open_spans(
                generator,
            ) == 0,
        decreases list@.len() - i,
    {
        assert(text@.len() > 0) by {
            assert(texts(list@).len() == list@.len());
        }
        let line = without_char(list[i].as_str(), '\r');
        if !parse_line(&mut generator, line.as_str()) {
            return None;
        }
        i = i + 1;
    }
    Some(finalize(generator))
}

} // verus!
