//! The error of a pattern that does not compile.

use crate::text::decimal_digits;
use crate::text::push_decimal;
use vstd::prelude::*;
use vstd::string::StringExecFns;

verus! {

/// Why a pattern did not compile: the diagnostic text, where there is one, and
/// the place in the pattern, counted in bytes.
#[derive(Debug)]
pub struct CompilationError {
    opt_err: Option<String>,
    erroffset: usize,
}

/// The text that describes a compilation error at `offset` with `message`.
pub open spec fn error_text(message: Option<Seq<char>>, offset: nat) -> Seq<char> {
    let head = "compilation failed at offset "@ + decimal_digits(offset);
    match message {
        None => head,
        Some(text) => head + ": "@ + text,
    }
}

impl CompilationError {
    /// The diagnostic text.
    pub closed spec fn spec_message(&self) -> Option<Seq<char>> {
        match self.opt_err {
            Some(text) => Some(text@),
            None => None,
        }
    }

    /// The place in the pattern.
    pub closed spec fn spec_offset(&self) -> nat {
        self.erroffset as nat
    }

    pub(crate) fn new(message: Option<String>, offset: usize) -> (e: CompilationError)
        ensures
            e.spec_offset() == offset,
            e.spec_message() == match message {
                Some(text) => Some(text@),
                None => None,
            },
    {
        CompilationError { opt_err: message, erroffset: offset }
    }

    /// The diagnostic text, where there is one.
    pub fn message(&self) -> (text: Option<String>)
        ensures
            match text {
                Some(t) => self.spec_message() == Some(t@),
                None => self.spec_message() is None,
            },
    {
        match &self.opt_err {
            Some(text) => Some(text.clone()),
            None => None,
        }
    }

    /// The place in the pattern at which compiling failed.
    pub fn offset(&self) -> (at: usize)
        ensures
            at == self.spec_offset(),
    {
        self.erroffset
    }

    /// The error as one line of text.
    pub fn to_string(&self) -> (line: String)
        ensures
            line@ == error_text(self.spec_message(), self.spec_offset()),
    {
        let mut line: String = String::from_str("compilation failed at offset ");
        push_decimal(&mut line, self.erroffset);
        match &self.opt_err {
            None => {},
            Some(text) => {
                line.append(": ");
                line.append(text.as_str());
            },
        }
        line
    }
}

} // verus!
