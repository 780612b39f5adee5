//! Errors reported to the user: lexing errors gathered into one list, and the
//! compiler error that carries either a lexing or a parsing error.
use vstd::prelude::*;

use crate::location::{
    chars_before, is_char_offset, line_end, line_start, location, offset_to_location, source_line_at,
};
use crate::parser::ParseError;
use crate::show::{int_text, nat_text, push_char};
use crate::token::{kind_name, token_kind, LexError as TokenError, SpannedLexError, TokenKind};

verus! {

/// What went wrong while lexing.
#[derive(Debug, PartialEq, Eq, Clone, Copy)]
pub enum LexErrorKind<'a> {
    /// A character that starts no token.
    InvalidCharacter(char),
    /// An integer literal that does not fit in an `i64`.
    IntOverflow(&'a str),
    /// A float literal that is not a valid number.
    InvalidFloat(&'a str),
}

/// A lexing error and the byte offset at which it occurred.
#[derive(Debug, PartialEq, Eq, Clone, Copy)]
pub struct LexError<'a> {
    pub kind: LexErrorKind<'a>,
    pub offset: usize,
}

/// The reported form of one located lexing error.
pub open spec fn reported<'a>(e: SpannedLexError<'a>) -> LexError<'a> {
    LexError {
        kind: match e.node {
            TokenError::InvalidChar(c) => LexErrorKind::InvalidCharacter(c),
            TokenError::InvalidInt(s) => LexErrorKind::IntOverflow(s),
            TokenError::InvalidFloat(s) => LexErrorKind::InvalidFloat(s),
        },
        offset: e.offset,
    }
}

fn report_one<'a>(e: &SpannedLexError<'a>) -> (r: LexError<'a>)
    ensures
        r == reported(*e),
{
    let kind = match e.node {
        TokenError::InvalidChar(c) => LexErrorKind::InvalidCharacter(c),
        TokenError::InvalidInt(s) => LexErrorKind::IntOverflow(s),
        TokenError::InvalidFloat(s) => LexErrorKind::InvalidFloat(s),
    };
    LexError { kind, offset: e.offset }
}

/// Turns the lexer's errors into the errors shown to the user, one for one
/// and in order.
pub fn collect_errors<'a>(errors: &[SpannedLexError<'a>]) -> (r: Vec<LexError<'a>>)
    ensures
        r@.len() == errors@.len(),
        forall|i: int| 0 <= i < errors@.len() ==> #[trigger] r@[i] == reported(errors@[i]),
{
    let mut out: Vec<LexError<'a>> = Vec::new();
    let mut i: usize = 0;
    while i < errors.len()
        invariant
            i <= errors@.len(),
            out@.len() == i,
            forall|j: int| 0 <= j < i ==> #[trigger] out@[j] == reported(errors@[j]),
        decreases errors@.len() - i,
    {
        out.push(report_one(&errors[i]));
        i = i + 1;
    }
    out
}

/// An error from any stage of the front end.
#[derive(Debug)]
pub enum CompilerError<'a> {
    Lex(LexError<'a>),
    Parse(ParseError<'a>),
}

/// The byte offset at which an error occurred.
pub open spec fn compiler_offset<'a>(e: CompilerError<'a>) -> usize {
    match e {
        CompilerError::Lex(l) => l.offset,
        CompilerError::Parse(p) => p.offset,
    }
}

impl<'a> From<LexError<'a>> for CompilerError<'a> {
    fn from(e: LexError<'a>) -> (r: Self) {
        CompilerError::Lex(e)
    }
}

impl<'a> vstd::std_specs::convert::FromSpecImpl<LexError<'a>> for CompilerError<'a> {
    open spec fn obeys_from_spec() -> bool {
        true
    }

    open spec fn from_spec(e: LexError<'a>) -> CompilerError<'a> {
        CompilerError::Lex(e)
    }
}

impl<'a> From<ParseError<'a>> for CompilerError<'a> {
    fn from(e: ParseError<'a>) -> (r: Self) {
        CompilerError::Parse(e)
    }
}

impl<'a> vstd::std_specs::convert::FromSpecImpl<ParseError<'a>> for CompilerError<'a> {
    open spec fn obeys_from_spec() -> bool {
        true
    }

    open spec fn from_spec(e: ParseError<'a>) -> CompilerError<'a> {
        CompilerError::Parse(e)
    }
}

impl<'a> CompilerError<'a> {
    /// The byte offset at which the error occurred.
    pub fn offset(&self) -> (r: usize)
        ensures
            r == compiler_offset(*self),
    {
        match self {
            CompilerError::Lex(e) => e.offset,
            CompilerError::Parse(e) => e.offset,
        }
    }
}


// ─── messages ───────────────────────────────────────────────────────

/// The message that describes a lexing error.
pub open spec fn lex_message<'a>(e: LexErrorKind<'a>) -> Seq<char> {
    match e {
        LexErrorKind::InvalidCharacter(c) => "invalid character '"@ + seq![c] + "'"@,
        LexErrorKind::IntOverflow(s) => "integer literal overflow "@ + s@,
        LexErrorKind::InvalidFloat(s) => "invalid float literal "@ + s@,
    }
}

impl<'a> LexError<'a> {
    /// The message that describes the error.
    pub fn message(&self) -> (r: String)
        ensures
            r@ == lex_message(self.kind),
    {
        match self.kind {
            LexErrorKind::InvalidCharacter(c) => {
                let mut s = String::from_str("invalid character '");
                push_char(&mut s, c);
                s.append("'");
                s
            },
            LexErrorKind::IntOverflow(x) => {
                let mut s = String::from_str("integer literal overflow ");
                s.append(x);
                s
            },
            LexErrorKind::InvalidFloat(x) => {
                let mut s = String::from_str("invalid float literal ");
                s.append(x);
                s
            },
        }
    }
}

/// The names of `ks`, separated by `, `.
pub open spec fn join_kind_names(ks: Seq<TokenKind>) -> Seq<char>
    decreases ks.len(),
{
    if ks.len() == 0 {
        Seq::empty()
    } else if ks.len() == 1 {
        kind_name(ks[0])
    } else {
        join_kind_names(ks.drop_last()) + ", "@ + kind_name(ks.last())
    }
}

/// The message that describes a parsing error: `expected X, found Y` for
/// one expected kind, `expected one of X, Z; found Y` for several.
pub open spec fn parse_message(expected: Seq<TokenKind>, actual: TokenKind) -> Seq<char> {
    if expected.len() == 1 {
        "expected "@ + kind_name(expected[0]) + ", found "@ + kind_name(actual)
    } else {
        "expected one of "@ + join_kind_names(expected) + "; found "@ + kind_name(actual)
    }
}

/// The message that describes a parsing error; see `parse_message`.
pub fn parse_error_message(e: &ParseError) -> (r: String)
    ensures
        r@ == parse_message(e.expected@, token_kind(e.actual)),
{
    let found = e.actual.kind();
    if e.expected.len() == 1 {
        let mut s = String::from_str("expected ");
        s.append(e.expected[0].name());
        s.append(", found ");
        s.append(found.name());
        return s;
    }
    let mut s = String::from_str("expected one of ");
    let ghost head = s@;
    let mut i: usize = 0;
    assert(e.expected@.take(0) =~= Seq::<TokenKind>::empty());
    while i < e.expected.len()
        invariant
            i <= e.expected@.len(),
            s@ == head + join_kind_names(e.expected@.take(i as int)),
        decreases e.expected@.len() - i,
    {
        if i > 0 {
            s.append(", ");
        }
        s.append(e.expected[i].name());
        proof {
            let ks = e.expected@.take(i + 1);
            assert(ks.drop_last() =~= e.expected@.take(i as int));
            assert(s@ =~= head + join_kind_names(ks));
        }
        i = i + 1;
    }
    assert(e.expected@.take(i as int) =~= e.expected@);
    s.append("; found ");
    s.append(found.name());
    s
}

/// The message that describes a compiler error.
pub open spec fn compiler_message<'a>(e: CompilerError<'a>) -> Seq<char> {
    match e {
        CompilerError::Lex(l) => lex_message(l.kind),
        CompilerError::Parse(p) => parse_message(p.expected@, token_kind(p.actual)),
    }
}

impl<'a> CompilerError<'a> {
    /// The message that describes the error.
    pub fn message(&self) -> (r: String)
        ensures
            r@ == compiler_message(*self),
    {
        match self {
            CompilerError::Lex(e) => e.message(),
            CompilerError::Parse(e) => parse_error_message(e),
        }
    }
}

// ─── reports ────────────────────────────────────────────────────────

pub open spec fn spaces(n: int) -> Seq<char> {
    Seq::new(if n < 0 { 0 } else { n as nat }, |i: int| ' ')
}

/// The report of an error with message `msg` at byte `offset` of `source`:
///
/// ```text
/// error: invalid character '@'
///  --> test.rsl:3:5
///   |
/// 3 | let @x = 5;
///   |     ^
/// ```
pub open spec fn report_text(msg: Seq<char>, source: Seq<char>, filename: Seq<char>, offset: int) -> Seq<char> {
    let k = chars_before(source, offset);
    let line = location(source.take(k)).0;
    let col = location(source.take(k)).1;
    let line_text = int_text(line);
    let g = line_text.len() as int;
    let src_line = source.subrange(line_start(source, k), line_end(source, k));
    "error: "@ + msg + "\n"@ + spaces(g) + "--> "@ + filename + ":"@ + line_text + ":"@ + int_text(col) + "\n"@
        + spaces(g) + " |\n"@ + line_text + " | "@ + src_line + "\n"@ + spaces(g) + " | "@ + spaces(col - 1)
        + "^"@
}

proof fn lemma_location_positive(t: Seq<char>)
    ensures
        location(t).0 >= 1,
        location(t).1 >= 1,
    decreases t.len(),
{
    if t.len() > 0 {
        lemma_location_positive(t.drop_last());
    }
}

fn push_spaces(s: &mut String, n: usize)
    ensures
        final(s)@ == old(s)@ + spaces(n as int),
{
    let mut i: usize = 0;
    while i < n
        invariant
            i <= n,
            s@ == old(s)@ + spaces(i as int),
        decreases n - i,
    {
        push_char(s, ' ');
        i = i + 1;
        assert(s@ =~= old(s)@ + spaces(i as int));
    }
}

fn count_text(n: usize) -> (r: String)
    ensures
        r@ == int_text(n as int),
{
    let mut s = String::new();
    crate::show::push_nat_text(&mut s, n as u64);
    assert(s@ =~= nat_text(n as nat));
    s
}

/// Formats an error with the line of source it points into; see
/// `report_text`.
pub fn report(error: &CompilerError, source: &str, filename: &str) -> (r: String)
    requires
        source@.len() < usize::MAX,
        is_char_offset(source@, compiler_offset(*error) as int),
    ensures
        r@ == report_text(compiler_message(*error), source@, filename@, compiler_offset(*error) as int),
{
    let offset = error.offset();
    let (line, col) = offset_to_location(source, offset);
    proof {
        lemma_location_positive(source@.take(chars_before(source@, offset as int)));
    }
    let src_line = source_line_at(source, offset);
    let line_text = count_text(line);
    let gutter = line_text.unicode_len();
    let col_text = count_text(col);
    let mut s = String::from_str("error: ");
    let msg = error.message();
    s.append(msg.as_str());
    s.append("\n");
    push_spaces(&mut s, gutter);
    s.append("--> ");
    s.append(filename);
    s.append(":");
    s.append(line_text.as_str());
    s.append(":");
    s.append(col_text.as_str());
    s.append("\n");
    push_spaces(&mut s, gutter);
    s.append(" |\n");
    s.append(line_text.as_str());
    s.append(" | ");
    s.append(src_line);
    s.append("\n");
    push_spaces(&mut s, gutter);
    s.append(" | ");
    push_spaces(&mut s, col - 1);
    s.append("^");
    assert(s@ =~= report_text(compiler_message(*error), source@, filename@, offset as int));
    s
}

} // verus!
