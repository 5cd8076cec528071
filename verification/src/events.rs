//! The events of a YAML text, pulled one at a time from the `yaml_rust`
//! parser.
//!
//! The parser and its tokenizer are not verified here. What this module
//! states of them is gathered in a few private functions, each of which
//! makes one call; everything else is proved from those statements.

use crate::data::Position;
use crate::error::ContextualError;
use std::str::Chars;
use vstd::prelude::*;
use vstd::std_specs::convert::FromSpecImpl;
use yaml_rust::parser::Event;
use yaml_rust::parser::Parser;
use yaml_rust::scanner::ScanError;
use yaml_rust::scanner::TEncoding;
use yaml_rust::scanner::TScalarStyle;
use yaml_rust::scanner::TokenType;

verus! {

/// `yaml_rust::parser::Parser`: nothing of its state is seen here.
#[verifier::external_type_specification]
#[verifier::external_body]
#[verifier::reject_recursive_types(T)]
pub struct ExParser<T>(Parser<T>);

/// `yaml_rust::scanner::ScanError`: carried through as it comes.
#[verifier::external_type_specification]
#[verifier::external_body]
pub struct ExScanError(ScanError);

/// `yaml_rust::parser::Event`, with its variants as the crate defines them,
/// so that the loader can tell them apart.
#[verifier::external_type_specification]
pub struct ExEvent(Event);

/// `yaml_rust::scanner::TScalarStyle`, with its variants as the crate
/// defines them.
#[verifier::external_type_specification]
pub struct ExTScalarStyle(TScalarStyle);

/// `yaml_rust::scanner::TokenType`, with its variants as the crate defines
/// them: a scalar's tag is one.
#[verifier::external_type_specification]
pub struct ExTokenType(TokenType);

/// `yaml_rust::scanner::TEncoding`, which a variant of `TokenType` holds.
#[verifier::external_type_specification]
pub struct ExTEncoding(TEncoding);

/// One pull from the parser: an event and the place where it begins, or the
/// tokenizer's complaint.
pub type Pull = Result<(Event, Position), ScanError>;

/// The pulls that a parser started on `text` yields, in order, up to and
/// including the one that ends the run.
pub uninterp spec fn yaml_events(text: Seq<char>) -> Seq<Pull>;

/// The pulls that `parser` has yet to yield, up to and including the one
/// that ends its run.
pub uninterp spec fn pending(parser: Parser<Chars<'static>>) -> Seq<Pull>;

/// What `Display` shows of a scan error.
pub uninterp spec fn scan_error_text(err: ScanError) -> Seq<char>;

/// Whether a pull ends a run: a scan error does, and so does the end of the
/// stream.
pub open spec fn ends_run(pull: Pull) -> bool {
    match pull {
        Ok((event, _)) => event is StreamEnd,
        Err(_) => true,
    }
}

/// Whether `pulls` is a run: it is not empty, its last pull ends it, and no
/// other does.
pub open spec fn is_run(pulls: Seq<Pull>) -> bool {
    &&& pulls.len() > 0
    &&& ends_run(pulls.last())
    &&& forall|i: int| 0 <= i < pulls.len() - 1 ==> !ends_run(#[trigger] pulls[i])
}

/// `Parser::new` on the characters of `text`. The parser will yield the
/// events of `text`; on a text, which has an end, they make a run.
#[verifier::external_body]
fn open<'a>(text: &'a str) -> (parser: Parser<Chars<'a>>)
    ensures
        pending(parser) == yaml_events(text@),
        is_run(pending(parser)),
{
    Parser::new(text.chars())
}

/// `Parser::next`, with the marker's line and column as a `Position`. It
/// yields the first pending pull; unless that ends the run, the rest is
/// pending afterwards.
#[verifier::external_body]
fn pull<'a>(parser: &mut Parser<Chars<'a>>) -> (pulled: Pull)
    requires
        pending(*old(parser)).len() > 0,
    ensures
        pulled == pending(*old(parser))[0],
        !ends_run(pulled) ==> pending(*final(parser)) == pending(*old(parser)).skip(1),
{
    parser.next().map(|(event, mark)| (event, Position { line: mark.line(), column: mark.col() }))
}

/// `Parser::peek`, reduced to the event. It shows the event of the first
/// pending pull and leaves it pending, or hands out the scan error that the
/// pull is.
#[verifier::external_body]
fn look<'a, 'b>(parser: &'b mut Parser<Chars<'a>>) -> (seen: Result<&'b Event, ScanError>)
    requires
        pending(*old(parser)).len() > 0,
    ensures
        match seen {
            Ok(event) => pending(*old(parser))[0] matches Ok((first, _)) && first == *event
                && pending(*final(parser)) == pending(*old(parser)),
            Err(err) => pending(*old(parser))[0] == Err::<(Event, Position), ScanError>(err),
        },
{
    parser.peek().map(|pair| &pair.0)
}

/// `Display::fmt` of a scan error, as a string.
#[verifier::external_body]
fn scan_text(err: &ScanError) -> (text: String)
    ensures
        text@ == scan_error_text(*err),
{
    format!("{}", err)
}

/// The events of one text, to be pulled in order.
pub struct EventStream<'a> {
    parser: Parser<Chars<'a>>,
}

impl<'a> EventStream<'a> {
    /// The pulls still to come.
    pub closed spec fn pending(self) -> Seq<Pull> {
        pending(self.parser)
    }

    /// A stream over the events of `text`.
    pub fn new(text: &'a str) -> (stream: EventStream<'a>)
        ensures
            stream.pending() == yaml_events(text@),
            is_run(stream.pending()),
    {
        EventStream { parser: open(text) }
    }

    /// Takes the next pull off the stream.
    pub fn next(&mut self) -> (pulled: Pull)
        requires
            is_run(old(self).pending()),
        ensures
            pulled == old(self).pending()[0],
            !ends_run(pulled) ==> final(self).pending() == old(self).pending().skip(1)
                && is_run(final(self).pending()),
    {
        pull(&mut self.parser)
    }

    /// Shows the event of the next pull without taking it.
    pub fn peek(&mut self) -> (seen: Result<&Event, ScanError>)
        requires
            is_run(old(self).pending()),
        ensures
            match seen {
                Ok(event) => old(self).pending()[0] matches Ok((first, _)) && first == *event
                    && final(self).pending() == old(self).pending(),
                Err(err) => old(self).pending()[0] == Err::<(Event, Position), ScanError>(err),
            },
    {
        look(&mut self.parser)
    }
}

impl From<ScanError> for ContextualError {
    /// The scan error's own words become the message.
    fn from(err: ScanError) -> (e: ContextualError)
        ensures
            e@ == scan_error_text(err),
    {
        let text = scan_text(&err);
        ContextualError::new(text.as_str())
    }
}

/// A string cannot be built in a specification, so the conversion states
/// its result on `from` itself, through the view of the error.
impl FromSpecImpl<ScanError> for ContextualError {
    open spec fn obeys_from_spec() -> bool {
        false
    }

    open spec fn from_spec(err: ScanError) -> ContextualError {
        arbitrary()
    }
}

} // verus!
