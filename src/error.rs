use vstd::prelude::*;

verus! {

/// Why a record was rejected.
#[derive(Clone, Copy, Debug, PartialEq, Eq, Structural)]
pub enum ErrorKind {
    /// The leading token is not exactly forty characters long.
    InvalidHash,
    /// A timestamp token does not follow the accepted timestamp grammar.
    InvalidTimestamp,
    /// A diffstat count does not fit the configured integer width.
    NumericOverflow,
}

/// A record-level parse failure, with the offending text.
#[derive(Clone, Debug)]
pub struct ParseError {
    pub kind: ErrorKind,
    pub text: String,
}

impl ParseError {
    pub open spec fn view(&self) -> (ErrorKind, Seq<char>) {
        (self.kind, self.text@)
    }

    /// A one-line description of the failure.
    pub fn message(&self) -> (r: String)
        ensures
            r@ == message_of(self.kind) + seq![' ', '\''] + self.text@ + seq!['\''],
    {
        let mut out: Vec<char> = Vec::new();
        match self.kind {
            ErrorKind::InvalidHash => crate::text::push_str(&mut out, "invalid commit hash"),
            ErrorKind::InvalidTimestamp => crate::text::push_str(&mut out, "invalid timestamp"),
            ErrorKind::NumericOverflow => crate::text::push_str(&mut out, "count out of range"),
        }
        out.push(' ');
        out.push('\'');
        crate::text::push_str(&mut out, self.text.as_str());
        out.push('\'');
        crate::text::string_from_chars(&out)
    }
}

pub open spec fn message_of(kind: ErrorKind) -> Seq<char> {
    match kind {
        ErrorKind::InvalidHash => "invalid commit hash"@,
        ErrorKind::InvalidTimestamp => "invalid timestamp"@,
        ErrorKind::NumericOverflow => "count out of range"@,
    }
}

} // verus!
