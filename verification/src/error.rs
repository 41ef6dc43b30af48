//! Crate-wide error and result types.
//!
//! Every fallible operation returns [`Result<T>`]; the variants tell I/O
//! failures (with the offending path when known), script parse failures,
//! unsupported codemod operations and configuration errors apart.

use vstd::prelude::*;
use vstd::utf8::*;
use crate::text::{
    utf8, find_byte_from, blank, spaces, join, string_views, decimal, newlines_before,
    count_newlines, decode_range, is_blank, spaces_string, push_str, decimal_string,
    join_strings, find_byte, rfind_byte, copy_str,
};
use crate::edits::line_start;

verus! {

/// Where a parse failed and what would have been valid there.
///
/// Offsets are bytes; the line and column are 1-based, the column
/// counted in characters.
#[derive(Debug, Clone, PartialEq, Eq)]
pub struct ParseDetail {
    /// What went wrong, without position information.
    pub message: String,
    /// 1-based line of the offending token.
    pub line: usize,
    /// 1-based column (in characters) of the offending token.
    pub column: usize,
    /// Byte offset of the offending token.
    pub offset: usize,
    /// Tokens that would have been valid at this position.
    pub expected: Vec<String>,
    /// The offending source line with a caret beneath the column.
    pub snippet: Option<String>,
}

/// The end of the line that starts at `ls` (the newline is excluded).
pub open spec fn line_stop(src: Seq<u8>, ls: int) -> int {
    match find_byte_from(src, 10u8, ls) {
        Some(p) => p,
        None => src.len() as int,
    }
}

/// The characters the bytes `a..b` encode (empty when they are not UTF-8).
pub open spec fn chars_between(src: Seq<u8>, a: int, b: int) -> Seq<char> {
    if valid_utf8(src.subrange(a, b)) {
        decode_utf8(src.subrange(a, b))
    } else {
        Seq::empty()
    }
}

/// The line text with a caret under `column`, unless the line is blank.
pub open spec fn caret_snippet(text: Seq<char>, column: int) -> Option<Seq<char>> {
    if blank(text) {
        None
    } else {
        Some(text + seq!['\n'] + spaces((column - 1) as nat) + seq!['^'])
    }
}

pub open spec fn clamp(offset: int, len: int) -> int {
    if offset < len { offset } else { len }
}

pub open spec fn opt_string_view(o: Option<String>) -> Option<Seq<char>> {
    match o {
        Some(s) => Some(s@),
        None => None,
    }
}

/// What `at_offset` builds.
pub open spec fn detail_at(source: Seq<char>, offset: int, d: ParseDetail) -> bool {
    let bytes = utf8(source);
    let off = clamp(offset, bytes.len() as int);
    let ls = line_start(bytes, off);
    let le = line_stop(bytes, ls);
    let column = chars_between(bytes, ls, off).len() + 1int;
    &&& d.offset == off
    &&& d.line == count_newlines(bytes.subrange(0, ls)) + 1
    &&& d.column == column
    &&& opt_string_view(d.snippet) == caret_snippet(chars_between(bytes, ls, le), column)
}

impl ParseDetail {
    /// Build a detail from a byte offset into `source`, resolving the
    /// line and column and extracting a caret snippet. Offsets past the
    /// end clamp to the end.
    pub fn at_offset(source: &str, offset: usize, message: String, expected: Vec<String>) -> (r: Self)
        requires
            utf8(source@).len() < usize::MAX,
        ensures
            detail_at(source@, offset as int, r),
            r.message == message,
            r.expected == expected,
    {
        let bytes = source.as_bytes();
        let len = bytes.len();
        let off = if offset < len { offset } else { len };
        let (ls, _) = crate::edits::line_span(bytes, off, off);
        let le = match find_byte(bytes, 10u8, ls) {
            Some(p) => p,
            None => len,
        };
        proof {
            crate::edits::lemma_find_bounds(bytes@, ls as int);
        }
        let line = newlines_before(bytes, ls) + 1;
        let before = decode_range(bytes, ls, off);
        let column = match &before {
            Some(s) => {
                proof {
                    crate::text::lemma_utf8_len(s@);
                    decode_utf8_encode_utf8(bytes@.subrange(ls as int, off as int));
                }
                s.unicode_len() + 1
            },
            None => 1,
        };
        let text = decode_range(bytes, ls, le);
        let snippet = match text {
            Some(t) => {
                if is_blank(t.as_str()) {
                    None
                } else {
                    let ghost tv = t@;
                    let mut s = t;
                    proof {
                        reveal_strlit("\n");
                        reveal_strlit("^");
                    }
                    push_str(&mut s, "\n");
                    let pad = spaces_string(column - 1);
                    push_str(&mut s, pad.as_str());
                    push_str(&mut s, "^");
                    assert(s@ =~= tv + seq!['\n'] + spaces((column - 1) as nat) + seq!['^']);
                    Some(s)
                }
            },
            None => None,
        };
        let r = ParseDetail { message, line, column, offset: off, expected, snippet };
        assert(r.offset == clamp(offset as int, utf8(source@).len() as int));
        assert(r.line == count_newlines(utf8(source@).subrange(0, ls as int)) + 1);
        assert(ls == line_start(utf8(source@), off as int));
        assert(le == line_stop(utf8(source@), ls as int));
        assert(r.column == chars_between(utf8(source@), ls as int, off as int).len() + 1);
        r
    }

    /// `line L, column C: message`, then the valid tokens when known.
    pub fn describe(&self) -> (r: String)
        ensures
            r@ == detail_text(*self),
    {
        let mut s = copy_str("line ");
        push_str(&mut s, decimal_string(self.line).as_str());
        push_str(&mut s, ", column ");
        push_str(&mut s, decimal_string(self.column).as_str());
        push_str(&mut s, ": ");
        push_str(&mut s, self.message.as_str());
        if self.expected.len() > 0 {
            push_str(&mut s, "; expected one of: ");
            push_str(&mut s, join_strings(&self.expected, ", ").as_str());
        }
        s
    }
}

/// The text [`ParseDetail::describe`] renders.
pub open spec fn detail_text(d: ParseDetail) -> Seq<char> {
    let head = "line "@ + decimal(d.line as nat) + ", column "@ + decimal(d.column as nat) + ": "@
        + d.message@;
    if d.expected@.len() > 0 {
        head + "; expected one of: "@ + join(string_views(d.expected@), ", "@)
    } else {
        head
    }
}

/// All errors raised by the library.
#[derive(Debug, Clone, PartialEq, Eq)]
pub enum Error {
    /// An I/O failure, with the path that triggered it when known.
    Io { path: Option<String>, message: String },
    /// The codemod script could not be parsed.
    Parse(ParseDetail),
    /// The script asked for a namespace/operation combination that is
    /// not implemented.
    UnsupportedOperation(String),
    /// Argument or configuration was invalid.
    Config(String),
}

/// The process exit code for each error variant.
pub open spec fn exit_code_of(e: Error) -> i32 {
    match e {
        Error::Parse(_) => 2,
        Error::UnsupportedOperation(_) => 3,
        Error::Io { .. } => 4,
        Error::Config(_) => 1,
    }
}

/// The message an error renders as.
pub open spec fn error_text(e: Error) -> Seq<char> {
    match e {
        Error::Io { path: Some(p), message } => "I/O error at "@ + p@ + ": "@ + message@,
        Error::Io { path: None, message } => "I/O error: "@ + message@,
        Error::Parse(d) => "parse error at "@ + detail_text(d),
        Error::UnsupportedOperation(m) => "unsupported operation: "@ + m@,
        Error::Config(m) => "configuration error: "@ + m@,
    }
}

impl Error {
    /// An I/O failure at `path`.
    pub fn io_at(path: &str, message: &str) -> (r: Self)
        ensures
            r matches Error::Io { path: Some(p), message: m } && p@ == path@ && m@ == message@,
    {
        Error::Io { path: Some(copy_str(path)), message: copy_str(message) }
    }

    /// Process exit code for this error. Stable: tools rely on it.
    pub fn exit_code(&self) -> (r: i32)
        ensures
            r == exit_code_of(*self),
    {
        match self {
            Error::Parse(_) => 2,
            Error::UnsupportedOperation(_) => 3,
            Error::Io { .. } => 4,
            Error::Config(_) => 1,
        }
    }

    /// The error as a message.
    pub fn to_string(&self) -> (r: String)
        ensures
            r@ == error_text(*self),
    {
        match self {
            Error::Io { path: Some(p), message } => {
                let mut s = copy_str("I/O error at ");
                push_str(&mut s, p.as_str());
                push_str(&mut s, ": ");
                push_str(&mut s, message.as_str());
                s
            },
            Error::Io { path: None, message } => {
                let mut s = copy_str("I/O error: ");
                push_str(&mut s, message.as_str());
                s
            },
            Error::Parse(d) => {
                let mut s = copy_str("parse error at ");
                push_str(&mut s, d.describe().as_str());
                s
            },
            Error::UnsupportedOperation(m) => {
                let mut s = copy_str("unsupported operation: ");
                push_str(&mut s, m.as_str());
                s
            },
            Error::Config(m) => {
                let mut s = copy_str("configuration error: ");
                push_str(&mut s, m.as_str());
                s
            },
        }
    }
}

/// Crate-wide result alias.
pub type Result<T> = core::result::Result<T, Error>;

} // verus!
