//! What the log says of a panic.

use crate::text::{decimal, frames, push_decimal, shows};
use vstd::prelude::*;

verus! {

/// What a panic carries: a string literal, an owned string, or something else,
/// which cannot be read.
#[derive(Clone, Copy, Debug)]
pub enum PanicPayload<'a> {
    Str(&'a str),
    Owned(&'a String),
    Opaque,
}

/// Where a panic was raised.
#[derive(Clone, Copy, Debug)]
pub struct PanicLocation<'a> {
    pub file: &'a str,
    pub line: u32,
    pub column: u32,
}

impl<'a> PanicPayload<'a> {
    /// The message that the log gives for the payload.
    pub open spec fn message(self) -> Seq<char> {
        match self {
            PanicPayload::Str(s) => s@,
            PanicPayload::Owned(s) => s@,
            PanicPayload::Opaque => "<non-string panic payload>"@,
        }
    }
}

/// The message of a panic: what is readable of its payload.
pub fn extract_panic_message(payload: PanicPayload<'_>) -> (r: String)
    ensures
        r@ == payload.message(),
{
    match payload {
        PanicPayload::Str(s) => s.to_owned(),
        PanicPayload::Owned(s) => s.clone(),
        PanicPayload::Opaque => "<non-string panic payload>".to_owned(),
    }
}

/// The place of a panic, as `file:line:column`.
pub open spec fn location_text(location: Option<PanicLocation<'_>>) -> Seq<char> {
    match location {
        Some(at) => at.file@ + ":"@ + decimal(at.line as nat) + ":"@ + decimal(at.column as nat),
        None => "<unknown location>"@,
    }
}

/// The place of a panic, as `file:line:column`.
pub fn describe_location(location: Option<PanicLocation<'_>>) -> (r: String)
    ensures
        r@ == location_text(location),
{
    match location {
        Some(at) => {
            let mut out = at.file.to_owned();
            out.append(":");
            push_decimal(&mut out, at.line as u64);
            out.append(":");
            push_decimal(&mut out, at.column as u64);
            out
        },
        None => "<unknown location>".to_owned(),
    }
}

/// What is readable of a payload is given word for word, however it is held.
pub proof fn readable_payloads_are_given_in_full(s: &str, owned: &String)
    ensures
        PanicPayload::Str(s).message() == s@,
        PanicPayload::Owned(owned).message() == owned@,
        PanicPayload::Opaque.message() == "<non-string panic payload>"@,
{
}

/// The file, the line and the column stand in the description as they are, in this order, and
/// each changes nothing but its own place in it.
pub proof fn locations_are_given_in_full(at: PanicLocation<'_>)
    ensures
        frames(
            Seq::empty(),
            ":"@ + decimal(at.line as nat) + ":"@ + decimal(at.column as nat),
            |file: &str| location_text(Some(PanicLocation { file, line: at.line, column: at.column })),
            |file: &str| file@,
        ),
        shows(
            |line: u32| location_text(Some(PanicLocation { line, ..at })),
            |line: u32| ":"@ + decimal(line as nat) + ":"@,
        ),
        shows(
            |column: u32| location_text(Some(PanicLocation { column, ..at })),
            |column: u32| ":"@ + decimal(column as nat),
        ),
        location_text(None) == "<unknown location>"@,
{
    let tail = ":"@ + decimal(at.line as nat) + ":"@ + decimal(at.column as nat);
    let by_file = |file: &str|
        location_text(Some(PanicLocation { file, line: at.line, column: at.column }));
    assert forall|file: &str| #[trigger] by_file(file) == Seq::<char>::empty() + file@ + tail by {
        assert(by_file(file) =~= Seq::<char>::empty() + file@ + tail);
    }
    let by_line = |line: u32| location_text(Some(PanicLocation { line, ..at }));
    let line_part = |line: u32| ":"@ + decimal(line as nat) + ":"@;
    assert forall|line: u32| #[trigger] by_line(line) == at.file@ + line_part(line) + decimal(
        at.column as nat,
    ) by {
        assert(by_line(line) =~= at.file@ + line_part(line) + decimal(at.column as nat));
    }
    assert(frames(at.file@, decimal(at.column as nat), by_line, line_part));
    let by_column = |column: u32| location_text(Some(PanicLocation { column, ..at }));
    let column_part = |column: u32| ":"@ + decimal(column as nat);
    let head = at.file@ + ":"@ + decimal(at.line as nat);
    assert forall|column: u32| #[trigger] by_column(column) == head + column_part(column)
        + Seq::<char>::empty() by {
        assert(by_column(column) =~= head + column_part(column) + Seq::<char>::empty());
    }
    assert(frames(head, Seq::empty(), by_column, column_part));
}

}
