//! The lexer: turns a program into located tokens, or reports every
//! malformed token. Positions are counted in characters internally and
//! reported as UTF-8 byte offsets.
use vstd::prelude::*;

use crate::chars::{
    char_is_alphanumeric, char_is_lowercase, char_is_numeric, char_is_uppercase, is_alphanumeric,
    is_ascii_digit, is_lowercase, is_numeric, is_uppercase, is_white_space, is_whitespace,
    len_utf8, utf8_width,
};
use crate::location::is_char_offset;
use crate::token::{LexError, SpannedLexError, SpannedToken, Token, TokenKind, token_kind};

verus! {

// ─── byte offsets ───────────────────────────────────────────────────

/// Length in bytes of the UTF-8 encoding of `s`.
pub open spec fn byte_len(s: Seq<char>) -> nat
    decreases s.len(),
{
    if s.len() == 0 {
        0
    } else {
        utf8_width(s[0]) + byte_len(s.drop_first())
    }
}

/// The byte offset of character position `i` in `s`.
pub open spec fn byte_offset(s: Seq<char>, i: int) -> nat {
    byte_len(s.take(i))
}

proof fn lemma_byte_len_push(a: Seq<char>, c: char)
    ensures
        byte_len(a.push(c)) == byte_len(a) + utf8_width(c),
    decreases a.len(),
{
    if a.len() == 0 {
        assert(a.push(c).drop_first() =~= Seq::<char>::empty());
        assert(byte_len(a.push(c).drop_first()) == 0);
    } else {
        assert(a.push(c)[0] == a[0]);
        assert(a.push(c).drop_first() =~= a.drop_first().push(c));
        lemma_byte_len_push(a.drop_first(), c);
    }
}

pub proof fn lemma_byte_offset_step(s: Seq<char>, i: int)
    requires
        0 <= i < s.len(),
    ensures
        byte_offset(s, i + 1) == byte_offset(s, i) + utf8_width(s[i]),
{
    assert(s.take(i + 1) =~= s.take(i).push(s[i]));
    lemma_byte_len_push(s.take(i), s[i]);
}

pub proof fn lemma_byte_offset_mono(s: Seq<char>, i: int, j: int)
    requires
        0 <= i <= j <= s.len(),
    ensures
        byte_offset(s, i) <= byte_offset(s, j),
    decreases j - i,
{
    if i < j {
        lemma_byte_offset_mono(s, i, j - 1);
        lemma_byte_offset_step(s, j - 1);
    }
}

pub proof fn lemma_byte_offset_full(s: Seq<char>)
    ensures
        byte_offset(s, s.len() as int) == byte_len(s),
{
    assert(s.take(s.len() as int) =~= s);
}

/// The byte length agrees with vstd's UTF-8 encoding.
pub proof fn lemma_byte_len_is_utf8_len(s: Seq<char>)
    ensures
        byte_len(s) == vstd::utf8::encode_utf8(s).len(),
    decreases s.len(),
{
    if s.len() > 0 {
        vstd::utf8::char_is_scalar(s[0]);
        lemma_byte_len_is_utf8_len(s.drop_first());
    }
}

/// The byte offset of a character position starts a character of the
/// UTF-8 encoding.
pub proof fn lemma_byte_offset_is_char_boundary(s: Seq<char>, k: int)
    requires
        0 <= k <= s.len(),
    ensures
        vstd::utf8::is_char_boundary(vstd::utf8::encode_utf8(s), byte_offset(s, k) as int),
    decreases s.len(),
{
    let bytes = vstd::utf8::encode_utf8(s);
    vstd::utf8::encode_utf8_valid_utf8(s);
    if k == 0 {
        assert(s.take(0) =~= Seq::<char>::empty());
    } else {
        let t = s.drop_first();
        lemma_byte_offset_is_char_boundary(t, k - 1);
        vstd::utf8::encode_utf8_first_scalar(s);
        assert(vstd::utf8::pop_first_scalar(bytes) =~= vstd::utf8::encode_utf8(t));
        lemma_byte_len_is_utf8_len(s);
        lemma_byte_len_is_utf8_len(t);
        assert(s.take(k).drop_first() =~= t.take(k - 1));
        assert(byte_offset(s, k) == utf8_width(s[0]) + byte_offset(t, k - 1));
        lemma_byte_offset_mono(s, k, s.len() as int);
        lemma_byte_offset_full(s);
    }
}

// ─── the lexical grammar ────────────────────────────────────────────

pub open spec fn char_at(s: Seq<char>, i: int, c: char) -> bool {
    0 <= i < s.len() && s[i] == c
}

pub open spec fn starts_comment(s: Seq<char>, i: int) -> bool {
    char_at(s, i, '/') && char_at(s, i + 1, '/')
}

/// The first position at or after `i` that is neither white space nor part
/// of a `//` comment (which runs through the end of its line).
pub open spec fn skip_trivia(s: Seq<char>, i: int) -> int
    decreases s.len() - i, 1int,
{
    if !(0 <= i < s.len()) {
        i
    } else if is_white_space(s[i]) {
        skip_trivia(s, i + 1)
    } else if starts_comment(s, i) {
        skip_comment(s, i + 2)
    } else {
        i
    }
}

/// Inside a comment: skips to just after the next newline, then continues
/// skipping trivia.
pub open spec fn skip_comment(s: Seq<char>, i: int) -> int
    decreases s.len() - i, 0int,
{
    if !(0 <= i < s.len()) {
        if i >= s.len() { s.len() as int } else { i }
    } else if s[i] == '\n' {
        skip_trivia(s, i + 1)
    } else {
        skip_comment(s, i + 1)
    }
}

/// End of a numeric literal: digits and dots, greedily.
pub open spec fn num_end(s: Seq<char>, i: int) -> int
    decreases s.len() - i,
{
    if 0 <= i < s.len() && (s[i] == '.' || char_is_numeric(s[i])) {
        num_end(s, i + 1)
    } else {
        i
    }
}

/// End of an identifier: alphanumeric characters and underscores, greedily.
pub open spec fn ident_end(s: Seq<char>, i: int) -> int
    decreases s.len() - i,
{
    if 0 <= i < s.len() && (char_is_alphanumeric(s[i]) || s[i] == '_') {
        ident_end(s, i + 1)
    } else {
        i
    }
}

/// End of a run of lowercase characters.
pub open spec fn lower_end(s: Seq<char>, i: int) -> int
    decreases s.len() - i,
{
    if 0 <= i < s.len() && char_is_lowercase(s[i]) {
        lower_end(s, i + 1)
    } else {
        i
    }
}

/// The value of a string of decimal digits.
pub open spec fn decimal_value(t: Seq<char>) -> int
    decreases t.len(),
{
    if t.len() == 0 {
        0
    } else {
        decimal_value(t.drop_last()) * 10 + (t.last() as int - '0' as int)
    }
}

pub open spec fn all_digits(t: Seq<char>) -> bool {
    forall|k: int| 0 <= k < t.len() ==> is_ascii_digit(#[trigger] t[k])
}

/// Text that `i64::from_str` accepts, for text that starts with a digit:
/// ASCII digits whose value fits in an `i64`.
pub open spec fn valid_int_text(t: Seq<char>) -> bool {
    all_digits(t) && decimal_value(t) <= i64::MAX
}

pub open spec fn dot_count(t: Seq<char>) -> nat
    decreases t.len(),
{
    if t.len() == 0 {
        0
    } else {
        dot_count(t.drop_last()) + if t.last() == '.' { 1nat } else { 0nat }
    }
}

/// Text that `f64::from_str` accepts, for text of digits and dots that
/// starts with a digit: ASCII digits with exactly one dot.
pub open spec fn valid_float_text(t: Seq<char>) -> bool {
    (forall|k: int| 0 <= k < t.len() ==> is_ascii_digit(#[trigger] t[k]) || t[k] == '.')
        && dot_count(t) == 1
}

/// The operator or punctuation token starting at `i`, with its length in
/// characters; longer operators are tried before their prefixes.
pub open spec fn operator_at(s: Seq<char>, i: int) -> Option<(TokenKind, int)> {
    if char_at(s, i, '>') && char_at(s, i + 1, '=') && char_at(s, i + 2, '.') {
        Some((TokenKind::FGreaterThanOrEq, 3))
    } else if char_at(s, i, '<') && char_at(s, i + 1, '=') && char_at(s, i + 2, '.') {
        Some((TokenKind::FLessThanOrEq, 3))
    } else if char_at(s, i, '!') && char_at(s, i + 1, '=') {
        Some((TokenKind::NotEq, 2))
    } else if char_at(s, i, '&') && char_at(s, i + 1, '&') {
        Some((TokenKind::And, 2))
    } else if char_at(s, i, '-') && char_at(s, i + 1, '>') {
        Some((TokenKind::Arrow, 2))
    } else if char_at(s, i, '<') && char_at(s, i + 1, '=') {
        Some((TokenKind::LessThanOrEq, 2))
    } else if char_at(s, i, '=') && char_at(s, i + 1, '=') {
        Some((TokenKind::Eq, 2))
    } else if char_at(s, i, '>') && char_at(s, i + 1, '=') {
        Some((TokenKind::GreaterThanOrEq, 2))
    } else if char_at(s, i, '|') && char_at(s, i + 1, '>') {
        Some((TokenKind::Pipe, 2))
    } else if char_at(s, i, '|') && char_at(s, i + 1, '|') {
        Some((TokenKind::Or, 2))
    } else if char_at(s, i, '+') && char_at(s, i + 1, '.') {
        Some((TokenKind::FPlus, 2))
    } else if char_at(s, i, '-') && char_at(s, i + 1, '.') {
        Some((TokenKind::FMinus, 2))
    } else if char_at(s, i, '*') && char_at(s, i + 1, '.') {
        Some((TokenKind::FTimes, 2))
    } else if char_at(s, i, '/') && char_at(s, i + 1, '.') {
        Some((TokenKind::FDivide, 2))
    } else if char_at(s, i, '<') && char_at(s, i + 1, '.') {
        Some((TokenKind::FLessThan, 2))
    } else if char_at(s, i, '>') && char_at(s, i + 1, '.') {
        Some((TokenKind::FGreaterThan, 2))
    } else if char_at(s, i, '=') {
        Some((TokenKind::Assign, 1))
    } else if char_at(s, i, '!') {
        Some((TokenKind::Not, 1))
    } else if char_at(s, i, '(') {
        Some((TokenKind::LParen, 1))
    } else if char_at(s, i, ')') {
        Some((TokenKind::RParen, 1))
    } else if char_at(s, i, '*') {
        Some((TokenKind::Times, 1))
    } else if char_at(s, i, '+') {
        Some((TokenKind::Plus, 1))
    } else if char_at(s, i, ',') {
        Some((TokenKind::Comma, 1))
    } else if char_at(s, i, '-') {
        Some((TokenKind::Minus, 1))
    } else if char_at(s, i, '/') {
        Some((TokenKind::Divide, 1))
    } else if char_at(s, i, ':') {
        Some((TokenKind::Colon, 1))
    } else if char_at(s, i, ';') {
        Some((TokenKind::Semicolon, 1))
    } else if char_at(s, i, '<') {
        Some((TokenKind::LessThan, 1))
    } else if char_at(s, i, '>') {
        Some((TokenKind::GreaterThan, 1))
    } else if char_at(s, i, '{') {
        Some((TokenKind::LBrace, 1))
    } else if char_at(s, i, '}') {
        Some((TokenKind::RBrace, 1))
    } else {
        None
    }
}
/// The reserved word spelled by `text`, if any.
pub open spec fn keyword_kind(text: Seq<char>) -> Option<TokenKind> {
    if text == "echo"@ {
        Some(TokenKind::Echo)
    } else if text == "else"@ {
        Some(TokenKind::Else)
    } else if text == "false"@ {
        Some(TokenKind::Bool)
    } else if text == "fn"@ {
        Some(TokenKind::Fn)
    } else if text == "if"@ {
        Some(TokenKind::If)
    } else if text == "let"@ {
        Some(TokenKind::Let)
    } else if text == "match"@ {
        Some(TokenKind::Match)
    } else if text == "read"@ {
        Some(TokenKind::Read)
    } else if text == "return"@ {
        Some(TokenKind::Return)
    } else if text == "then"@ {
        Some(TokenKind::Then)
    } else if text == "true"@ {
        Some(TokenKind::Bool)
    } else if text == "typedef"@ {
        Some(TokenKind::Typedef)
    } else if text == "Int"@ {
        Some(TokenKind::IntType)
    } else if text == "Float"@ {
        Some(TokenKind::FloatType)
    } else if text == "Bool"@ {
        Some(TokenKind::BoolType)
    } else {
        None
    }
}
/// What a lexeme is: a token of some kind, or one of the lexing errors.
pub enum Lexed {
    Tok(TokenKind),
    BadChar,
    BadInt,
    BadFloat,
}

/// A lexeme: its class and the character range `start..end` it covers.
pub struct Lexeme {
    pub class: Lexed,
    pub start: int,
    pub end: int,
}

/// The lexeme found at or after position `i` (after skipping trivia).
pub open spec fn next_lexeme(s: Seq<char>, i: int) -> Lexeme {
    let j = skip_trivia(s, i);
    if !(0 <= j < s.len()) {
        Lexeme { class: Lexed::Tok(TokenKind::EoF), start: j, end: j }
    } else if let Some((k, n)) = operator_at(s, j) {
        Lexeme { class: Lexed::Tok(k), start: j, end: j + n }
    } else if is_ascii_digit(s[j]) {
        let e = num_end(s, j + 1);
        let t = s.subrange(j, e);
        let class = if dot_count(t) > 0 {
            if valid_float_text(t) { Lexed::Tok(TokenKind::Float) } else { Lexed::BadFloat }
        } else {
            if valid_int_text(t) { Lexed::Tok(TokenKind::Int) } else { Lexed::BadInt }
        };
        Lexeme { class, start: j, end: e }
    } else if char_is_lowercase(s[j]) || char_is_uppercase(s[j]) {
        let e = ident_end(s, j + 1);
        let t = s.subrange(j, e);
        let kind = match keyword_kind(t) {
            Some(k) => k,
            None => if char_is_lowercase(s[j]) { TokenKind::Id } else { TokenKind::TypeId },
        };
        Lexeme { class: Lexed::Tok(kind), start: j, end: e }
    } else if s[j] == '\'' {
        let e = lower_end(s, j + 1);
        if e > j + 1 {
            Lexeme { class: Lexed::Tok(TokenKind::TypeParam), start: j, end: e }
        } else {
            Lexeme { class: Lexed::BadChar, start: j, end: j + 1 }
        }
    } else {
        Lexeme { class: Lexed::BadChar, start: j, end: j + 1 }
    }
}

/// Skipping trivia (and the rest of a comment) moves forward within the
/// text and stops at its end or at a character that starts neither white
/// space nor a comment.
pub proof fn lemma_skip_bounds(s: Seq<char>, i: int)
    requires
        0 <= i <= s.len(),
    ensures
        i <= skip_trivia(s, i) <= s.len(),
        i <= skip_comment(s, i) <= s.len(),
        skip_trivia(s, i) < s.len() ==> !is_white_space(s[skip_trivia(s, i)]) && !starts_comment(
            s,
            skip_trivia(s, i),
        ),
        skip_comment(s, i) < s.len() ==> !is_white_space(s[skip_comment(s, i)]) && !starts_comment(
            s,
            skip_comment(s, i),
        ),
    decreases s.len() - i,
{
    if 0 <= i < s.len() {
        lemma_skip_bounds(s, i + 1);
        if starts_comment(s, i) {
            lemma_skip_bounds(s, i + 2);
        }
    }
}

proof fn lemma_scan_ends(s: Seq<char>, i: int)
    requires
        0 <= i <= s.len(),
    ensures
        i <= num_end(s, i) <= s.len(),
        i <= ident_end(s, i) <= s.len(),
        i <= lower_end(s, i) <= s.len(),
    decreases s.len() - i,
{
    if i < s.len() {
        lemma_scan_ends(s, i + 1);
    }
}

/// A lexeme other than end of input covers at least one character.
pub proof fn lemma_next_lexeme_bounds(s: Seq<char>, i: int)
    requires
        0 <= i <= s.len(),
    ensures
        i <= next_lexeme(s, i).start <= next_lexeme(s, i).end <= s.len(),
        next_lexeme(s, i).class != Lexed::Tok(TokenKind::EoF) ==> next_lexeme(s, i).start
            < next_lexeme(s, i).end,
        next_lexeme(s, i).class == Lexed::Tok(TokenKind::EoF) ==> next_lexeme(s, i).start
            == s.len(),
{
    lemma_skip_bounds(s, i);
    let j = skip_trivia(s, i);
    if 0 <= j < s.len() {
        lemma_scan_ends(s, j + 1);
    }
}

/// The characters of Unicode's `White_Space` property, one by one: tab, line
/// feed, vertical tab, form feed, carriage return, space, next line,
/// no-break space, Ogham space mark, the spaces from en quad to hair space,
/// line and paragraph separators, narrow no-break space, medium mathematical
/// space and ideographic space.
pub open spec fn unicode_white_space(c: char) -> bool {
    let u = c as u32;
    u == 0x9 || u == 0xA || u == 0xB || u == 0xC || u == 0xD || u == 0x20 || u == 0x85 || u == 0xA0 || u == 0x1680 || u == 0x2000 || u == 0x2001 || u == 0x2002 || u == 0x2003 || u == 0x2004 || u == 0x2005 || u == 0x2006 || u == 0x2007 || u == 0x2008 || u == 0x2009 || u == 0x200A || u == 0x2028 || u == 0x2029 || u == 0x202F || u == 0x205F || u == 0x3000
}

/// Between tokens the lexer skips exactly the Unicode `White_Space`
/// characters (and comments): a white-space character is passed over as if
/// it were not there, so a `\r` before a `\n` changes no lexeme; any other
/// character that does not start a comment stops the skipping.
pub proof fn lemma_white_space_is_skipped(s: Seq<char>, i: int)
    requires
        0 <= i < s.len(),
    ensures
        unicode_white_space(s[i]) ==> skip_trivia(s, i) == skip_trivia(s, i + 1),
        unicode_white_space(s[i]) ==> next_lexeme(s, i) == next_lexeme(s, i + 1),
        !unicode_white_space(s[i]) && s[i] != '/' ==> skip_trivia(s, i) == i,
        !unicode_white_space(s[i]) && s[i] != '/' ==> next_lexeme(s, i).start == i,
        s[i] == '\r' || s[i] == '\n' || s[i] == '\t' || s[i] == ' ' ==> next_lexeme(s, i) == next_lexeme(s, i + 1),
{
    let c = s[i];
    assert(is_white_space(c) <==> unicode_white_space(c));
}

/// All lexemes from position `i` on, through end of input.
pub open spec fn lexemes(s: Seq<char>, i: int) -> Seq<Lexeme>
    decreases s.len() - i,
{
    let l = next_lexeme(s, i);
    if !(0 <= i <= s.len()) || l.class == Lexed::Tok(TokenKind::EoF) {
        seq![l]
    } else {
        proof {
            lemma_next_lexeme_bounds(s, i);
        }
        seq![l] + lexemes(s, l.end)
    }
}

/// The token lexemes of `l`, in order.
pub open spec fn token_lexemes(l: Seq<Lexeme>) -> Seq<Lexeme>
    decreases l.len(),
{
    if l.len() == 0 {
        Seq::empty()
    } else if l.last().class is Tok {
        token_lexemes(l.drop_last()).push(l.last())
    } else {
        token_lexemes(l.drop_last())
    }
}

/// The error lexemes of `l`, in order.
pub open spec fn error_lexemes(l: Seq<Lexeme>) -> Seq<Lexeme>
    decreases l.len(),
{
    if l.len() == 0 {
        Seq::empty()
    } else if l.last().class is Tok {
        error_lexemes(l.drop_last())
    } else {
        error_lexemes(l.drop_last()).push(l.last())
    }
}

/// The payload a token carries, for the source text it was read from.
pub open spec fn token_payload_matches(t: Token, text: Seq<char>) -> bool {
    match t {
        Token::Id(x) => x@ == text,
        Token::TypeId(x) => x@ == text,
        Token::TypeParam(x) => x@ == text,
        Token::Float(x) => x@ == text,
        Token::Int(v) => v == decimal_value(text),
        Token::Bool(b) => b == (text == "true"@),
        _ => true,
    }
}

/// `t` is the token that lexeme `l` of `s` stands for.
pub open spec fn token_denotes(t: SpannedToken, s: Seq<char>, l: Lexeme) -> bool {
    &&& l.class == Lexed::Tok(token_kind(t.node))
    &&& t.offset == byte_offset(s, l.start)
    &&& token_payload_matches(t.node, s.subrange(l.start, l.end))
}

/// `e` is the error that lexeme `l` of `s` stands for.
pub open spec fn error_denotes(e: SpannedLexError, s: Seq<char>, l: Lexeme) -> bool {
    &&& e.offset == byte_offset(s, l.start)
    &&& match l.class {
        Lexed::BadChar => e.node == LexError::InvalidChar(s[l.start]),
        Lexed::BadInt => e.node matches LexError::InvalidInt(x) && x@ == s.subrange(l.start, l.end),
        Lexed::BadFloat => e.node matches LexError::InvalidFloat(x) && x@ == s.subrange(
            l.start,
            l.end,
        ),
        Lexed::Tok(_) => false,
    }
}

pub open spec fn step_denotes(r: Result<SpannedToken, SpannedLexError>, s: Seq<char>, l: Lexeme) -> bool {
    match r {
        Ok(t) => token_denotes(t, s, l),
        Err(e) => error_denotes(e, s, l),
    }
}

/// What `lex` returns for program text `s`: every token if no lexeme is
/// malformed, and otherwise every error, each in source order.
pub open spec fn lex_denotes(
    r: Result<Vec<SpannedToken>, Vec<SpannedLexError>>,
    s: Seq<char>,
) -> bool {
    let l = lexemes(s, 0);
    match r {
        Ok(ts) => {
            &&& error_lexemes(l).len() == 0
            &&& ts@.len() == token_lexemes(l).len()
            &&& forall|k: int| 0 <= k < ts@.len() ==> token_denotes(#[trigger] ts@[k], s, token_lexemes(l)[k])
        },
        Err(es) => {
            &&& error_lexemes(l).len() > 0
            &&& es@.len() == error_lexemes(l).len()
            &&& forall|k: int| 0 <= k < es@.len() ==> error_denotes(#[trigger] es@[k], s, error_lexemes(l)[k])
        },
    }
}


// ─── the executable lexer ───────────────────────────────────────────

fn has_char(chars: &Vec<char>, i: usize, n: usize, c: char) -> (r: bool)
    ensures
        r == char_at(chars@, i + n, c),
{
    i < chars.len() && n < chars.len() - i && chars[i + n] == c
}

/// Whether `chars[start..end]` spells `w`.
fn text_is(chars: &Vec<char>, start: usize, end: usize, w: &str) -> (r: bool)
    requires
        start <= end <= chars.len(),
    ensures
        r == (chars@.subrange(start as int, end as int) == w@),
{
    let n = w.unicode_len();
    if n != end - start {
        return false;
    }
    let mut k: usize = 0;
    while k < n
        invariant
            n == w@.len(),
            n == end - start,
            start <= end <= chars.len(),
            0 <= k <= n,
            forall|m: int| 0 <= m < k ==> chars@[start + m] == w@[m],
        decreases n - k,
    {
        if chars[start + k] != w.get_char(k) {
            assert(chars@.subrange(start as int, end as int)[k as int] != w@[k as int]);
            return false;
        }
        k = k + 1;
    }
    assert(chars@.subrange(start as int, end as int) =~= w@);
    true
}

/// Finds the operator or punctuation token starting at `i`.
fn match_operator<'a>(chars: &Vec<char>, i: usize) -> (r: Option<(Token<'a>, usize)>)
    ensures
        match r {
            Some((t, n)) => operator_at(chars@, i as int) == Some((token_kind(t), n as int))
                && token_payload_matches(t, Seq::<char>::empty()),
            None => operator_at(chars@, i as int) is None,
        },
{
    if has_char(chars, i, 0, '>') && has_char(chars, i, 1, '=') && has_char(chars, i, 2, '.') {
        Some((Token::FGreaterThanOrEq, 3))
    } else if has_char(chars, i, 0, '<') && has_char(chars, i, 1, '=') && has_char(chars, i, 2, '.') {
        Some((Token::FLessThanOrEq, 3))
    } else if has_char(chars, i, 0, '!') && has_char(chars, i, 1, '=') {
        Some((Token::NotEq, 2))
    } else if has_char(chars, i, 0, '&') && has_char(chars, i, 1, '&') {
        Some((Token::And, 2))
    } else if has_char(chars, i, 0, '-') && has_char(chars, i, 1, '>') {
        Some((Token::Arrow, 2))
    } else if has_char(chars, i, 0, '<') && has_char(chars, i, 1, '=') {
        Some((Token::LessThanOrEq, 2))
    } else if has_char(chars, i, 0, '=') && has_char(chars, i, 1, '=') {
        Some((Token::Eq, 2))
    } else if has_char(chars, i, 0, '>') && has_char(chars, i, 1, '=') {
        Some((Token::GreaterThanOrEq, 2))
    } else if has_char(chars, i, 0, '|') && has_char(chars, i, 1, '>') {
        Some((Token::Pipe, 2))
    } else if has_char(chars, i, 0, '|') && has_char(chars, i, 1, '|') {
        Some((Token::Or, 2))
    } else if has_char(chars, i, 0, '+') && has_char(chars, i, 1, '.') {
        Some((Token::FPlus, 2))
    } else if has_char(chars, i, 0, '-') && has_char(chars, i, 1, '.') {
        Some((Token::FMinus, 2))
    } else if has_char(chars, i, 0, '*') && has_char(chars, i, 1, '.') {
        Some((Token::FTimes, 2))
    } else if has_char(chars, i, 0, '/') && has_char(chars, i, 1, '.') {
        Some((Token::FDivide, 2))
    } else if has_char(chars, i, 0, '<') && has_char(chars, i, 1, '.') {
        Some((Token::FLessThan, 2))
    } else if has_char(chars, i, 0, '>') && has_char(chars, i, 1, '.') {
        Some((Token::FGreaterThan, 2))
    } else if has_char(chars, i, 0, '=') {
        Some((Token::Assign, 1))
    } else if has_char(chars, i, 0, '!') {
        Some((Token::Not, 1))
    } else if has_char(chars, i, 0, '(') {
        Some((Token::LParen, 1))
    } else if has_char(chars, i, 0, ')') {
        Some((Token::RParen, 1))
    } else if has_char(chars, i, 0, '*') {
        Some((Token::Times, 1))
    } else if has_char(chars, i, 0, '+') {
        Some((Token::Plus, 1))
    } else if has_char(chars, i, 0, ',') {
        Some((Token::Comma, 1))
    } else if has_char(chars, i, 0, '-') {
        Some((Token::Minus, 1))
    } else if has_char(chars, i, 0, '/') {
        Some((Token::Divide, 1))
    } else if has_char(chars, i, 0, ':') {
        Some((Token::Colon, 1))
    } else if has_char(chars, i, 0, ';') {
        Some((Token::Semicolon, 1))
    } else if has_char(chars, i, 0, '<') {
        Some((Token::LessThan, 1))
    } else if has_char(chars, i, 0, '>') {
        Some((Token::GreaterThan, 1))
    } else if has_char(chars, i, 0, '{') {
        Some((Token::LBrace, 1))
    } else if has_char(chars, i, 0, '}') {
        Some((Token::RBrace, 1))
    } else {
        None
    }
}
/// The reserved word spelled by `chars[start..end]`, if any.
fn keyword<'a>(chars: &Vec<char>, start: usize, end: usize) -> (r: Option<Token<'a>>)
    requires
        start <= end <= chars.len(),
    ensures
        match r {
            Some(t) => keyword_kind(chars@.subrange(start as int, end as int)) == Some(token_kind(t))
                && token_payload_matches(t, chars@.subrange(start as int, end as int)),
            None => keyword_kind(chars@.subrange(start as int, end as int)) is None,
        },
{
    proof {
        reveal_strlit("true");
        reveal_strlit("false");
        assert("true"@.len() == 4 && "false"@.len() == 5);
    }
    if text_is(chars, start, end, "echo") {
        Some(Token::Echo)
    } else if text_is(chars, start, end, "else") {
        Some(Token::Else)
    } else if text_is(chars, start, end, "false") {
        Some(Token::Bool(false))
    } else if text_is(chars, start, end, "fn") {
        Some(Token::Fn)
    } else if text_is(chars, start, end, "if") {
        Some(Token::If)
    } else if text_is(chars, start, end, "let") {
        Some(Token::Let)
    } else if text_is(chars, start, end, "match") {
        Some(Token::Match)
    } else if text_is(chars, start, end, "read") {
        Some(Token::Read)
    } else if text_is(chars, start, end, "return") {
        Some(Token::Return)
    } else if text_is(chars, start, end, "then") {
        Some(Token::Then)
    } else if text_is(chars, start, end, "true") {
        Some(Token::Bool(true))
    } else if text_is(chars, start, end, "typedef") {
        Some(Token::Typedef)
    } else if text_is(chars, start, end, "Int") {
        Some(Token::IntType)
    } else if text_is(chars, start, end, "Float") {
        Some(Token::FloatType)
    } else if text_is(chars, start, end, "Bool") {
        Some(Token::BoolType)
    } else {
        None
    }
}
proof fn lemma_decimal_prefix_mono(t: Seq<char>, k: int)
    requires
        0 <= k <= t.len(),
        all_digits(t),
    ensures
        decimal_value(t.take(k)) <= decimal_value(t),
        0 <= decimal_value(t.take(k)),
    decreases t.len() - k,
{
    if k < t.len() {
        lemma_decimal_prefix_mono(t, k + 1);
        assert(t.take(k + 1).drop_last() =~= t.take(k));
        assert(is_ascii_digit(t[k]));
    } else {
        assert(t.take(k) =~= t);
        lemma_decimal_nonneg(t);
    }
}

proof fn lemma_decimal_nonneg(t: Seq<char>)
    requires
        all_digits(t),
    ensures
        0 <= decimal_value(t),
    decreases t.len(),
{
    if t.len() > 0 {
        assert(all_digits(t.drop_last()));
        lemma_decimal_nonneg(t.drop_last());
        assert(is_ascii_digit(t[t.len() - 1]));
    }
}

/// Parses `chars[start..end]` as an `i64` the way `i64::from_str` does on
/// text that starts with a digit.
fn parse_int(chars: &Vec<char>, start: usize, end: usize) -> (r: Option<i64>)
    requires
        start <= end <= chars.len(),
    ensures
        r is Some <==> valid_int_text(chars@.subrange(start as int, end as int)),
        r matches Some(v) ==> v == decimal_value(chars@.subrange(start as int, end as int)),
{
    let ghost t = chars@.subrange(start as int, end as int);
    let mut acc: i64 = 0;
    let mut i = start;
    while i < end
        invariant
            start <= i <= end <= chars.len(),
            t == chars@.subrange(start as int, end as int),
            all_digits(t.take(i - start)),
            acc == decimal_value(t.take(i - start)),
            0 <= acc,
        decreases end - i,
    {
        let c = chars[i];
        assert(t.take(i - start + 1).drop_last() =~= t.take(i - start));
        if !('0' <= c && c <= '9') {
            assert(!is_ascii_digit(t[i - start]));
            return None;
        }
        let d = (c as u32 - '0' as u32) as i64;
        if acc > (i64::MAX - d) / 10 {
            proof {
                assert(all_digits(t.take(i - start + 1)));
                assert(decimal_value(t.take(i - start + 1)) == acc * 10 + d);
                if all_digits(t) {
                    lemma_decimal_prefix_mono(t, i - start + 1);
                }
            }
            return None;
        }
        acc = acc * 10 + d;
        i = i + 1;
        assert(all_digits(t.take(i - start)));
    }
    assert(t.take(end - start) =~= t);
    Some(acc)
}

proof fn lemma_dot_count_take(t: Seq<char>, k: int)
    requires
        0 <= k < t.len(),
    ensures
        dot_count(t.take(k + 1)) == dot_count(t.take(k)) + if t[k] == '.' { 1nat } else { 0nat },
{
    assert(t.take(k + 1).drop_last() =~= t.take(k));
}

/// Whether `chars[start..end]` is text that `f64::from_str` accepts, for
/// text of digits and dots that starts with a digit.
fn float_text_ok(chars: &Vec<char>, start: usize, end: usize) -> (r: bool)
    requires
        start <= end <= chars.len(),
    ensures
        r == valid_float_text(chars@.subrange(start as int, end as int)),
{
    let ghost t = chars@.subrange(start as int, end as int);
    let mut dots: usize = 0;
    let mut ok = true;
    let mut i = start;
    while i < end
        invariant
            start <= i <= end <= chars.len(),
            t == chars@.subrange(start as int, end as int),
            dots == dot_count(t.take(i - start)),
            dots <= i - start,
            ok == (forall|k: int| 0 <= k < i - start ==> is_ascii_digit(#[trigger] t[k]) || t[k] == '.'),
        decreases end - i,
    {
        let c = chars[i];
        proof {
            lemma_dot_count_take(t, i - start);
        }
        if c == '.' {
            dots = dots + 1;
        } else if !('0' <= c && c <= '9') {
            ok = false;
        }
        i = i + 1;
    }
    assert(t.take(end - start) =~= t);
    ok && dots == 1
}

/// The lexer's state: the program, its characters, and the current position
/// in characters and in bytes.
struct Lexer<'a> {
    program: &'a str,
    chars: Vec<char>,
    pos: usize,
    offset: usize,
}

impl<'a> Lexer<'a> {
    spec fn wf(&self) -> bool {
        &&& self.chars@ == self.program@
        &&& self.pos <= self.chars.len()
        &&& self.offset == byte_offset(self.chars@, self.pos as int)
        &&& byte_len(self.chars@) <= usize::MAX
    }

    fn new(program: &'a str) -> (r: Self)
        ensures
            r.wf(),
            r.program == program,
            r.pos == 0,
    {
        let n = program.unicode_len();
        let mut chars: Vec<char> = Vec::new();
        let mut i: usize = 0;
        while i < n
            invariant
                n == program@.len(),
                0 <= i <= n,
                chars@ == program@.take(i as int),
            decreases n - i,
        {
            chars.push(program.get_char(i));
            i = i + 1;
            assert(chars@ =~= program@.take(i as int));
        }
        assert(chars@ =~= program@);
        let bytes = program.as_bytes();
        let _ = bytes.len();
        proof {
            lemma_byte_len_is_utf8_len(program@);
            assert(byte_offset(chars@, 0) == 0) by {
                assert(chars@.take(0) =~= Seq::<char>::empty());
            }
        }
        Lexer { program, chars, pos: 0, offset: 0 }
    }

    /// Moves past one character.
    fn bump(&mut self)
        requires
            old(self).wf(),
            old(self).pos < old(self).chars.len(),
        ensures
            final(self).wf(),
            final(self).program == old(self).program,
            final(self).chars == old(self).chars,
            final(self).pos == old(self).pos + 1,
    {
        proof {
            lemma_byte_offset_step(self.chars@, self.pos as int);
            lemma_byte_offset_mono(self.chars@, self.pos + 1, self.chars@.len() as int);
            lemma_byte_offset_full(self.chars@);
        }
        self.offset = self.offset + len_utf8(self.chars[self.pos]);
        self.pos = self.pos + 1;
    }

    /// Skips white space and `//` comments.
    fn eat_whitespace(&mut self)
        requires
            old(self).wf(),
        ensures
            final(self).wf(),
            final(self).program == old(self).program,
            final(self).chars == old(self).chars,
            final(self).pos == skip_trivia(old(self).chars@, old(self).pos as int),
    {
        let ghost target = skip_trivia(self.chars@, self.pos as int);
        let ghost chars0 = self.chars;
        let ghost program0 = self.program;
        loop
            invariant
                self.wf(),
                self.program == program0,
                self.chars == chars0,
                skip_trivia(self.chars@, self.pos as int) == target,
            ensures
                self.wf(),
                self.program == program0,
                self.chars == chars0,
                self.pos == target,
            decreases self.chars.len() - self.pos,
        {
            if self.pos < self.chars.len() && is_whitespace(self.chars[self.pos]) {
                self.bump();
            } else if has_char(&self.chars, self.pos, 0, '/') && has_char(&self.chars, self.pos, 1, '/') {
                let ghost p0 = self.pos;
                self.bump();
                self.bump();
                while self.pos < self.chars.len() && self.chars[self.pos] != '\n'
                    invariant
                        self.pos >= p0 + 2,
                        self.wf(),
                        self.program == program0,
                        self.chars == chars0,
                        skip_comment(self.chars@, self.pos as int) == target,
                    decreases self.chars.len() - self.pos,
                {
                    self.bump();
                }
                if self.pos < self.chars.len() {
                    self.bump();
                }
            } else {
                break;
            }
        }
    }

    /// Reads a numeric literal starting at a digit.
    fn read_num(&mut self) -> (r: Result<SpannedToken<'a>, SpannedLexError<'a>>)
        requires
            old(self).wf(),
            old(self).pos < old(self).chars.len(),
            is_ascii_digit(old(self).chars@[old(self).pos as int]),
        ensures
            final(self).wf(),
            final(self).program == old(self).program,
            final(self).chars == old(self).chars,
            ({
                let s = old(self).chars@;
                let j = old(self).pos as int;
                let e = num_end(s, j + 1);
                let t = s.subrange(j, e);
                let class = if dot_count(t) > 0 {
                    if valid_float_text(t) { Lexed::Tok(TokenKind::Float) } else { Lexed::BadFloat }
                } else {
                    if valid_int_text(t) { Lexed::Tok(TokenKind::Int) } else { Lexed::BadInt }
                };
                &&& final(self).pos == e
                &&& step_denotes(r, s, Lexeme { class, start: j, end: e })
            }),
    {
        let ghost s = self.chars@;
        let start = self.pos;
        let loc = self.offset;
        self.bump();
        let ghost program0 = self.program;
        let ghost chars0 = self.chars;
        while self.pos < self.chars.len() && (self.chars[self.pos] == '.' || is_numeric(self.chars[self.pos]))
            invariant
                self.wf(),
                self.program == program0,
                self.chars == chars0,
                s == chars0@,
                start < self.pos <= self.chars.len(),
                num_end(s, self.pos as int) == num_end(s, start + 1),
            decreases self.chars.len() - self.pos,
        {
            self.bump();
        }
        let end = self.pos;
        let digits = self.program.substring_char(start, end);
        if has_dot(&self.chars, start, end) {
            if float_text_ok(&self.chars, start, end) {
                Ok(SpannedToken::new(Token::Float(digits), loc))
            } else {
                Err(SpannedLexError::new(LexError::InvalidFloat(digits), loc))
            }
        } else {
            match parse_int(&self.chars, start, end) {
                Some(v) => Ok(SpannedToken::new(Token::Int(v), loc)),
                None => Err(SpannedLexError::new(LexError::InvalidInt(digits), loc)),
            }
        }
    }

    /// Reads an identifier or a type name (per `is_type`), or the reserved
    /// word it spells.
    fn read_ident(&mut self, is_type: bool) -> (r: SpannedToken<'a>)
        requires
            old(self).wf(),
            old(self).pos < old(self).chars.len(),
            char_is_alphanumeric(old(self).chars@[old(self).pos as int]),
        ensures
            final(self).wf(),
            final(self).program == old(self).program,
            final(self).chars == old(self).chars,
            ({
                let s = old(self).chars@;
                let j = old(self).pos as int;
                let e = ident_end(s, j + 1);
                let kind = match keyword_kind(s.subrange(j, e)) {
                    Some(k) => k,
                    None => if is_type { TokenKind::TypeId } else { TokenKind::Id },
                };
                &&& final(self).pos == e
                &&& token_denotes(r, s, Lexeme { class: Lexed::Tok(kind), start: j, end: e })
            }),
    {
        let ghost s = self.chars@;
        let start = self.pos;
        let loc = self.offset;
        self.bump();
        let ghost program0 = self.program;
        let ghost chars0 = self.chars;
        while self.pos < self.chars.len() && (is_alphanumeric(self.chars[self.pos]) || self.chars[self.pos] == '_')
            invariant
                self.wf(),
                self.program == program0,
                self.chars == chars0,
                s == chars0@,
                start < self.pos <= self.chars.len(),
                ident_end(s, self.pos as int) == ident_end(s, start + 1),
            decreases self.chars.len() - self.pos,
        {
            self.bump();
        }
        let end = self.pos;
        match keyword(&self.chars, start, end) {
            Some(t) => SpannedToken::new(t, loc),
            None => {
                let ident = self.program.substring_char(start, end);
                if is_type {
                    SpannedToken::new(Token::TypeId(ident), loc)
                } else {
                    SpannedToken::new(Token::Id(ident), loc)
                }
            },
        }
    }

    /// Reads a type parameter: an apostrophe followed by lowercase letters.
    fn read_type_param(&mut self) -> (r: Result<SpannedToken<'a>, SpannedLexError<'a>>)
        requires
            old(self).wf(),
            old(self).pos < old(self).chars.len(),
            old(self).chars@[old(self).pos as int] == '\'',
        ensures
            final(self).wf(),
            final(self).program == old(self).program,
            final(self).chars == old(self).chars,
            ({
                let s = old(self).chars@;
                let j = old(self).pos as int;
                let e = lower_end(s, j + 1);
                let l = if e > j + 1 {
                    Lexeme { class: Lexed::Tok(TokenKind::TypeParam), start: j, end: e }
                } else {
                    Lexeme { class: Lexed::BadChar, start: j, end: j + 1 }
                };
                &&& final(self).pos == l.end
                &&& step_denotes(r, s, l)
            }),
    {
        let ghost s = self.chars@;
        let start = self.pos;
        let loc = self.offset;
        self.bump();
        let ghost program0 = self.program;
        let ghost chars0 = self.chars;
        while self.pos < self.chars.len() && is_lowercase(self.chars[self.pos])
            invariant
                self.wf(),
                self.program == program0,
                self.chars == chars0,
                s == chars0@,
                start < self.pos <= self.chars.len(),
                lower_end(s, self.pos as int) == lower_end(s, start + 1),
            decreases self.chars.len() - self.pos,
        {
            self.bump();
        }
        let end = self.pos;
        if end > start + 1 {
            let param = self.program.substring_char(start, end);
            Ok(SpannedToken::new(Token::TypeParam(param), loc))
        } else {
            Err(SpannedLexError::new(LexError::InvalidChar('\''), loc))
        }
    }

    /// Lexes the next token (or error), skipping trivia first.
    fn next_token(&mut self) -> (r: Result<SpannedToken<'a>, SpannedLexError<'a>>)
        requires
            old(self).wf(),
        ensures
            final(self).wf(),
            final(self).program == old(self).program,
            final(self).chars == old(self).chars,
            final(self).pos == next_lexeme(old(self).chars@, old(self).pos as int).end,
            step_denotes(r, old(self).chars@, next_lexeme(old(self).chars@, old(self).pos as int)),
    {
        let ghost s = self.chars@;
        let ghost chars0 = self.chars;
        self.eat_whitespace();
        if self.pos >= self.chars.len() {
            return Ok(SpannedToken::new(Token::EoF, self.offset));
        }
        let first = self.chars[self.pos];
        match match_operator(&self.chars, self.pos) {
            Some((tok, n)) => {
                let loc = self.offset;
                let mut k: usize = 0;
                proof {
                    lemma_operator_in_bounds(s, self.pos as int);
                }
                while k < n
                    invariant
                        self.wf(),
                        self.chars == chars0,
                        s == chars0@,
                        self.program == old(self).program,
                        0 <= k <= n,
                        self.pos + (n - k) <= s.len(),
                        self.pos == skip_trivia(s, old(self).pos as int) + k,
                    decreases n - k,
                {
                    self.bump();
                    k = k + 1;
                }
                return Ok(SpannedToken::new(tok, loc));
            },
            None => {},
        }
        if '0' <= first && first <= '9' {
            return self.read_num();
        }
        if is_lowercase(first) {
            let _ = is_alphanumeric(first);
            return Ok(self.read_ident(false));
        }
        if is_uppercase(first) {
            let _ = is_alphanumeric(first);
            return Ok(self.read_ident(true));
        }
        if first == '\'' {
            return self.read_type_param();
        }
        let loc = self.offset;
        self.bump();
        Err(SpannedLexError::new(LexError::InvalidChar(first), loc))
    }
}

fn has_dot(chars: &Vec<char>, start: usize, end: usize) -> (r: bool)
    requires
        start <= end <= chars.len(),
    ensures
        r == (dot_count(chars@.subrange(start as int, end as int)) > 0),
{
    let ghost t = chars@.subrange(start as int, end as int);
    let mut i = start;
    while i < end
        invariant
            start <= i <= end <= chars.len(),
            t == chars@.subrange(start as int, end as int),
            dot_count(t.take(i - start)) == 0,
        decreases end - i,
    {
        proof {
            lemma_dot_count_take(t, i - start);
        }
        if chars[i] == '.' {
            proof {
                lemma_dot_count_mono(t, i - start + 1, t.len() as int);
                assert(t.take(t.len() as int) =~= t);
            }
            return true;
        }
        i = i + 1;
    }
    assert(t.take(end - start) =~= t);
    false
}

proof fn lemma_dot_count_mono(t: Seq<char>, i: int, j: int)
    requires
        0 <= i <= j <= t.len(),
    ensures
        dot_count(t.take(i)) <= dot_count(t.take(j)),
    decreases j - i,
{
    if i < j {
        lemma_dot_count_mono(t, i, j - 1);
        lemma_dot_count_take(t, j - 1);
    }
}

proof fn lemma_operator_in_bounds(s: Seq<char>, j: int)
    requires
        operator_at(s, j) is Some,
    ensures
        0 <= j,
        operator_at(s, j) matches Some((k, n)) && 1 <= n && j + n <= s.len(),
{
}

/// Lexes a whole program. On success the tokens end with `EoF`; if any
/// token is malformed, every lexing error is returned instead.
pub fn lex(program: &str) -> (r: Result<Vec<SpannedToken<'_>>, Vec<SpannedLexError<'_>>>)
    ensures
        lex_denotes(r, program@),
        lex_shape(r, program@),
        r matches Ok(ts) ==> ts@.last().offset == program.len(),
        r matches Ok(ts) ==> forall|k: int| 0 <= k < ts@.len() ==> program.is_char_boundary(#[trigger] ts@[k].offset),
{
    let mut lexer = Lexer::new(program);
    let ghost s = lexer.chars@;
    let mut tokens: Vec<SpannedToken> = Vec::new();
    let mut errors: Vec<SpannedLexError> = Vec::new();
    let ghost mut done: Seq<Lexeme> = Seq::empty();
    loop
        invariant_except_break
            done + lexemes(s, lexer.pos as int) == lexemes(s, 0),
        invariant
            lexer.wf(),
            lexer.chars@ == s,
            s == program@,
            lexer.program == program,
            tokens@.len() == token_lexemes(done).len(),
            errors@.len() == error_lexemes(done).len(),
            forall|k: int| 0 <= k < tokens@.len() ==> token_denotes(#[trigger] tokens@[k], s, token_lexemes(done)[k]),
            forall|k: int| 0 <= k < errors@.len() ==> error_denotes(#[trigger] errors@[k], s, error_lexemes(done)[k]),
        ensures
            done == lexemes(s, 0),
        decreases s.len() - lexer.pos,
    {
        let ghost pos0 = lexer.pos as int;
        let ghost l = next_lexeme(s, pos0);
        proof {
            lemma_next_lexeme_bounds(s, pos0);
            assert(lexemes(s, pos0)[0] == l);
        }
        let step = lexer.next_token();
        proof {
            assert((done.push(l)).drop_last() =~= done);
        }
        match step {
            Ok(token) => {
                tokens.push(token);
                proof {
                    done = done.push(l);
                }
                if token.kind() == TokenKind::EoF {
                    assert(lexemes(s, pos0) =~= seq![l]);
                    assert(done =~= lexemes(s, 0));
                    break;
                }
                assert(lexemes(s, pos0) =~= seq![l] + lexemes(s, l.end));
                assert(done + lexemes(s, lexer.pos as int) =~= lexemes(s, 0));
            },
            Err(e) => {
                errors.push(e);
                proof {
                    done = done.push(l);
                }
                assert(lexemes(s, pos0) =~= seq![l] + lexemes(s, l.end));
                assert(done + lexemes(s, lexer.pos as int) =~= lexemes(s, 0));
            },
        }
    }
    let r = if errors.len() == 0 {
        Ok(tokens)
    } else {
        Err(errors)
    };
    proof {
        lemma_lex_shape(r, s);
        lemma_byte_len_is_utf8_len(s);
        if r is Ok {
            let ts = r->Ok_0;
            assert forall|k: int| 0 <= k < ts@.len() implies program.is_char_boundary(#[trigger] ts@[k].offset) by {
                let j = choose|j: int| 0 <= j <= s.len() && byte_offset(s, j) == ts@[k].offset;
                lemma_byte_offset_is_char_boundary(s, j);
            }
        }
    }
    r
}


// ─── laws ───────────────────────────────────────────────────────────

proof fn lemma_byte_offset_strict(s: Seq<char>, i: int, j: int)
    requires
        0 <= i < j <= s.len(),
    ensures
        byte_offset(s, i) < byte_offset(s, j),
{
    lemma_byte_offset_step(s, i);
    lemma_byte_offset_mono(s, i + 1, j);
}

proof fn lemma_lexemes_shape(s: Seq<char>, i: int)
    requires
        0 <= i <= s.len(),
    ensures
        lexemes(s, i).len() >= 1,
        lexemes(s, i).last().class == Lexed::Tok(TokenKind::EoF),
        lexemes(s, i).last().start == s.len(),
        forall|k: int| 0 <= k < lexemes(s, i).len() - 1 ==> (#[trigger] lexemes(s, i)[k]).class != Lexed::Tok(TokenKind::EoF),
        forall|k: int| 0 <= k < lexemes(s, i).len() ==> i <= (#[trigger] lexemes(s, i)[k]).start <= s.len(),
        forall|a: int, b: int| 0 <= a < b < lexemes(s, i).len() ==> lexemes(s, i)[a].start < lexemes(s, i)[b].start,
    decreases s.len() - i,
{
    let l = next_lexeme(s, i);
    lemma_next_lexeme_bounds(s, i);
    if l.class == Lexed::Tok(TokenKind::EoF) {
        assert(lexemes(s, i) =~= seq![l]);
    } else {
        lemma_lexemes_shape(s, l.end);
        let rest = lexemes(s, l.end);
        assert(lexemes(s, i) =~= seq![l] + rest);
        assert forall|a: int, b: int| 0 <= a < b < lexemes(s, i).len() implies lexemes(s, i)[a].start
            < lexemes(s, i)[b].start by {
            if a == 0 {
                assert(lexemes(s, i)[b] == rest[b - 1]);
            } else {
                assert(lexemes(s, i)[a] == rest[a - 1]);
                assert(lexemes(s, i)[b] == rest[b - 1]);
            }
        }
        assert forall|k: int| 0 <= k < lexemes(s, i).len() - 1 implies (#[trigger] lexemes(s, i)[k]).class
            != Lexed::Tok(TokenKind::EoF) by {
            if k > 0 {
                assert(lexemes(s, i)[k] == rest[k - 1]);
            }
        }
        assert forall|k: int| 0 <= k < lexemes(s, i).len() implies i <= (#[trigger] lexemes(s, i)[k]).start
            <= s.len() by {
            if k > 0 {
                assert(lexemes(s, i)[k] == rest[k - 1]);
            }
        }
    }
}

/// Every lexeme of `l` whose class satisfies `keep` is a lexeme of `l`.
proof fn lemma_token_lexemes_members(l: Seq<Lexeme>, lo: int, b: int, eof_free: bool)
    requires
        forall|j: int| 0 <= j < l.len() ==> lo <= (#[trigger] l[j]).start < b,
        eof_free ==> forall|j: int| 0 <= j < l.len() ==> (#[trigger] l[j]).class != Lexed::Tok(TokenKind::EoF),
    ensures
        forall|k: int| 0 <= k < token_lexemes(l).len() ==> lo <= (#[trigger] token_lexemes(l)[k]).start < b,
        forall|k: int| 0 <= k < error_lexemes(l).len() ==> lo <= (#[trigger] error_lexemes(l)[k]).start < b,
        eof_free ==> forall|k: int| 0 <= k < token_lexemes(l).len() ==> (#[trigger] token_lexemes(l)[k]).class
            != Lexed::Tok(TokenKind::EoF),
    decreases l.len(),
{
    if l.len() > 0 {
        lemma_token_lexemes_members(l.drop_last(), lo, b, eof_free);
    }
}

proof fn lemma_token_lexemes_inc(l: Seq<Lexeme>)
    requires
        forall|a: int, c: int| 0 <= a < c < l.len() ==> l[a].start < l[c].start,
        forall|j: int| 0 <= j < l.len() ==> 0 <= (#[trigger] l[j]).start,
    ensures
        forall|a: int, c: int| 0 <= a < c < token_lexemes(l).len() ==> token_lexemes(l)[a].start
            < token_lexemes(l)[c].start,
        forall|a: int, c: int| 0 <= a < c < error_lexemes(l).len() ==> error_lexemes(l)[a].start
            < error_lexemes(l)[c].start,
    decreases l.len(),
{
    if l.len() > 0 {
        let p = l.drop_last();
        lemma_token_lexemes_inc(p);
        assert forall|j: int| 0 <= j < p.len() implies 0 <= (#[trigger] p[j]).start < l.last().start by {
            assert(p[j] == l[j]);
        }
        lemma_token_lexemes_members(p, 0, l.last().start, false);
    }
}

/// What every result of lexing `s` looks like: tokens at strictly
/// increasing offsets, each at the start of a character, ending with the only
/// `EoF` token, at the byte length of `s`; or errors at strictly increasing
/// offsets, each at the start of a character.
pub open spec fn lex_shape(r: Result<Vec<SpannedToken>, Vec<SpannedLexError>>, s: Seq<char>) -> bool {
    match r {
        Ok(ts) => {
            &&& ts@.len() >= 1
            &&& token_kind(ts@.last().node) == TokenKind::EoF
            &&& ts@.last().offset == byte_len(s)
            &&& forall|k: int| 0 <= k < ts@.len() - 1 ==> token_kind(#[trigger] ts@[k].node) != TokenKind::EoF
            &&& forall|a: int, b: int| 0 <= a < b < ts@.len() ==> ts@[a].offset < ts@[b].offset
            &&& forall|k: int| 0 <= k < ts@.len() ==> is_char_offset(s, (#[trigger] ts@[k]).offset as int)
        },
        Err(es) => {
            &&& forall|a: int, b: int| 0 <= a < b < es@.len() ==> es@[a].offset < es@[b].offset
            &&& forall|k: int| 0 <= k < es@.len() ==> is_char_offset(s, (#[trigger] es@[k]).offset as int)
        },
    }
}

/// A program that lexes without error gives tokens at strictly increasing
/// offsets, each at the start of a character, ending with the only `EoF`
/// token, at the byte length of the program; a program with malformed
/// lexemes gives its errors at strictly increasing offsets.
pub proof fn lemma_lex_shape(r: Result<Vec<SpannedToken>, Vec<SpannedLexError>>, s: Seq<char>)
    requires
        lex_denotes(r, s),
    ensures
        lex_shape(r, s),
{
    let l = lexemes(s, 0);
    lemma_lexemes_shape(s, 0);
    lemma_token_lexemes_inc(l);
    let tl = token_lexemes(l);
    let el = error_lexemes(l);
    lemma_token_lexemes_members(l, 0, s.len() as int + 1, false);
    match r {
        Ok(ts) => {
            let p = l.drop_last();
            assert(tl == token_lexemes(p).push(l.last()));
            assert forall|j: int| 0 <= j < p.len() implies 0 <= (#[trigger] p[j]).start < l.last().start && p[j].class
                != Lexed::Tok(TokenKind::EoF) by {
                assert(p[j] == l[j]);
            }
            lemma_token_lexemes_members(p, 0, l.last().start, true);
            assert(ts@.len() >= 1);
            assert(token_denotes(ts@[ts@.len() - 1], s, tl[tl.len() - 1]));
            lemma_byte_offset_full(s);
            assert forall|k: int| 0 <= k < ts@.len() - 1 implies token_kind(#[trigger] ts@[k].node) != TokenKind::EoF by {
                assert(token_denotes(ts@[k], s, tl[k]));
                assert(tl[k] == token_lexemes(p)[k]);
            }
            assert forall|a: int, b: int| 0 <= a < b < ts@.len() implies ts@[a].offset < ts@[b].offset by {
                assert(token_denotes(ts@[a], s, tl[a]));
                assert(token_denotes(ts@[b], s, tl[b]));
                lemma_byte_offset_strict(s, tl[a].start, tl[b].start);
            }
            assert forall|k: int| 0 <= k < ts@.len() implies is_char_offset(s, (#[trigger] ts@[k]).offset as int) by {
                assert(token_denotes(ts@[k], s, tl[k]));
                assert(0 <= tl[k].start <= s.len());
            }
        },
        Err(es) => {
            assert forall|a: int, b: int| 0 <= a < b < es@.len() implies es@[a].offset < es@[b].offset by {
                assert(error_denotes(es@[a], s, el[a]));
                assert(error_denotes(es@[b], s, el[b]));
                lemma_byte_offset_strict(s, el[a].start, el[b].start);
            }
            assert forall|k: int| 0 <= k < es@.len() implies is_char_offset(s, (#[trigger] es@[k]).offset as int) by {
                assert(error_denotes(es@[k], s, el[k]));
                assert(0 <= el[k].start <= s.len());
            }
        },
    }
}

} // verus!
