//! A parse-time failure, anchored to the token span that caused it.
use super::lexer::Span;
use crate::textfmt::push_str;
use vstd::prelude::*;

verus! {

#[derive(Debug, Clone, PartialEq)]
pub struct ParseError {
    pub span: Span,
    pub message: String,
}

/// Where parsing failed and why: the span and the message.
pub type Fault = (Span, Seq<char>);

impl View for ParseError {
    type V = Fault;

    open spec fn view(&self) -> Fault {
        (self.span, self.message@)
    }
}

impl ParseError {
    pub fn new(span: Span, message: String) -> (r: ParseError)
        ensures
            r.span == span,
            r.message == message,
    {
        ParseError { span, message }
    }
}

/// The zero span, used where no token is left to point at.
pub open spec fn no_span() -> Span {
    Span { line: 0, col: 0, byte_offset: 0, len: 0 }
}

pub fn empty_span() -> (s: Span)
    ensures
        s == no_span(),
{
    Span { line: 0, col: 0, byte_offset: 0, len: 0 }
}

/// A message made of a fixed text.
pub fn text_of(s: &str) -> (r: String)
    ensures
        r@ == s@,
{
    let mut r = String::new();
    push_str(&mut r, s);
    r
}

/// `before` + `middle` + `after`, the usual shape of a message that
/// quotes a token.
pub fn quoted(before: &str, middle: &str, after: &str) -> (r: String)
    ensures
        r@ == before@ + middle@ + after@,
{
    let mut r = String::new();
    push_str(&mut r, before);
    push_str(&mut r, middle);
    push_str(&mut r, after);
    r
}

} // verus!
