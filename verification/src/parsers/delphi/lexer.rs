//! Lexical analysis of Delphi source text.
//!
//! A text is a sequence of characters. Where the analysis reports a place
//! or a length, it counts the bytes of the UTF-8 form of the text.
use vstd::prelude::*;
use vstd::std_specs::convert::FromSpecImpl;
use vstd::string::{StrSliceExecFns, StringSliceAdditionalSpecFns};
use vstd::utf8::{encode_scalar, encode_utf8};

use crate::parsers::error::{ParseError, ParseErrorKind, ParseErrorView, ParseResult};

verus! {

/// Whether the standard library counts `c` as white space.
pub uninterp spec fn is_whitespace(c: char) -> bool;

/// Whether the standard library counts `c` as alphabetic.
pub uninterp spec fn is_alphabetic(c: char) -> bool;

/// Whether the standard library counts `c` as alphabetic or numeric.
pub uninterp spec fn is_alphanumeric(c: char) -> bool;

/// Asks the standard library's `char::is_whitespace`, which goes by the
/// Unicode property `White_Space`; the contract names the answer.
#[verifier::external_body]
fn char_is_whitespace(c: char) -> (b: bool)
    ensures
        b == is_whitespace(c),
{
    c.is_whitespace()
}

/// Asks the standard library's `char::is_alphabetic`, which goes by the
/// Unicode property `Alphabetic`; the contract names the answer.
#[verifier::external_body]
fn char_is_alphabetic(c: char) -> (b: bool)
    ensures
        b == is_alphabetic(c),
{
    c.is_alphabetic()
}

/// Asks the standard library's `char::is_alphanumeric`, which goes by the
/// Unicode properties `Alphabetic` and the numeric categories; the contract
/// names the answer.
#[verifier::external_body]
fn char_is_alphanumeric(c: char) -> (b: bool)
    ensures
        b == is_alphanumeric(c),
{
    c.is_alphanumeric()
}

/// Whether `c` is one of the ten decimal digits.
pub open spec fn is_decimal_digit(c: char) -> bool {
    '0' <= c && c <= '9'
}

fn char_is_decimal_digit(c: char) -> (b: bool)
    ensures
        b == is_decimal_digit(c),
{
    '0' <= c && c <= '9'
}

/// The number of bytes that `c` takes in UTF-8.
pub open spec fn len_utf8(c: char) -> nat {
    if (c as u32) < 0x80 {
        1
    } else if (c as u32) < 0x800 {
        2
    } else if (c as u32) < 0x10000 {
        3
    } else {
        4
    }
}

fn char_len_utf8(c: char) -> (n: usize)
    ensures
        n == len_utf8(c),
{
    let code: u32 = c as u32;
    if code < 0x80 {
        1
    } else if code < 0x800 {
        2
    } else if code < 0x10000 {
        3
    } else {
        4
    }
}

/// The number of bytes that the first `n` characters of `s` take in UTF-8.
pub open spec fn bytes_before(s: Seq<char>, n: nat) -> nat
    decreases n,
{
    if n == 0 || n > s.len() {
        0
    } else {
        bytes_before(s, (n - 1) as nat) + len_utf8(s[n - 1])
    }
}

proof fn lemma_encode_push(t: Seq<char>, c: char)
    ensures
        encode_utf8(t.push(c)) =~= encode_utf8(t) + encode_scalar(c as u32),
    decreases t.len(),
{
    let longer = t.push(c);
    assert(encode_utf8(longer) == encode_scalar(longer[0] as u32) + encode_utf8(
        longer.drop_first(),
    ));
    if t.len() > 0 {
        assert(longer.drop_first() =~= t.drop_first().push(c));
        lemma_encode_push(t.drop_first(), c);
    }
}

proof fn lemma_bytes_before_is_encoded_len(s: Seq<char>, n: nat)
    requires
        n <= s.len(),
    ensures
        bytes_before(s, n) == encode_utf8(s.take(n as int)).len(),
    decreases n,
{
    if n > 0 {
        lemma_bytes_before_is_encoded_len(s, (n - 1) as nat);
        let c = s[n - 1];
        assert(s.take(n as int) =~= s.take(n - 1).push(c));
        lemma_encode_push(s.take(n - 1), c);
        vstd::utf8::char_is_scalar(c);
    }
}

proof fn lemma_bytes_before_grows(s: Seq<char>, a: nat, b: nat)
    requires
        a <= b <= s.len(),
    ensures
        bytes_before(s, a) <= bytes_before(s, b),
        b - a <= bytes_before(s, b) - bytes_before(s, a),
    decreases b,
{
    if a < b {
        lemma_bytes_before_grows(s, a, (b - 1) as nat);
    }
}

/// Whether the UTF-8 form of `s` is short enough for its length to be a
/// machine integer. Every text in memory is.
pub open spec fn fits(s: Seq<char>) -> bool {
    bytes_before(s, s.len()) <= usize::MAX
}

/// The characters of `data`, in order.
pub fn chars_of(data: &str) -> (chars: Vec<char>)
    ensures
        chars@ == data@,
        fits(chars@),
{
    let mut chars: Vec<char> = Vec::new();
    for c in it: data.chars()
        invariant
            it.seq() == data@,
            chars@ == it.seq().take(it.index() as int),
    {
        chars.push(c);
    }
    let bytes: &[u8] = data.as_bytes();
    let len: usize = bytes.len();
    proof {
        lemma_bytes_before_is_encoded_len(data@, data@.len());
    }
    chars
}

/// The number of bytes of the characters of `chars` from `from` up to `to`.
fn bytes_between(chars: &Vec<char>, from: usize, to: usize) -> (n: usize)
    requires
        from <= to <= chars@.len(),
        fits(chars@),
    ensures
        n == bytes_before(chars@, to as nat) - bytes_before(chars@, from as nat),
{
    let mut n: usize = 0;
    let mut i: usize = from;
    while i < to
        invariant
            from <= i <= to <= chars@.len(),
            fits(chars@),
            n == bytes_before(chars@, i as nat) - bytes_before(chars@, from as nat),
        decreases to - i,
    {
        proof {
            lemma_bytes_before_grows(chars@, from as nat, (i + 1) as nat);
            lemma_bytes_before_grows(chars@, (i + 1) as nat, chars@.len());
        }
        n = n + char_len_utf8(chars[i]);
        i += 1;
    }
    n
}

/// Where the run of characters that satisfy `p` and starts at `from` ends:
/// the first place at or after `from` whose character does not satisfy `p`,
/// or the end of the text.
pub open spec fn run_end(s: Seq<char>, from: nat, p: spec_fn(char) -> bool) -> nat
    decreases s.len() - from,
{
    if from < s.len() && p(s[from as int]) {
        run_end(s, from + 1, p)
    } else {
        from
    }
}

proof fn lemma_run_end(s: Seq<char>, from: nat, end: nat, p: spec_fn(char) -> bool)
    requires
        from <= end <= s.len(),
        forall|i: int| from <= i < end ==> p(#[trigger] s[i]),
        end < s.len() ==> !p(s[end as int]),
    ensures
        run_end(s, from, p) == end,
    decreases end - from,
{
    if from < end {
        lemma_run_end(s, from + 1, end, p);
    }
}

/// White space, as a property of characters.
pub open spec fn whitespace() -> spec_fn(char) -> bool {
    |c: char| is_whitespace(c)
}

/// What an identifier is made of: letters, digits and the underscore.
pub open spec fn identifier_part() -> spec_fn(char) -> bool {
    |c: char| c == '_' || is_alphanumeric(c)
}

/// The longest start of `data` whose characters all satisfy `pred`, and its
/// length in bytes. Fails with `NoMatches` where the first character does
/// not satisfy `pred`, or there is none.
pub fn take_while<'a, F: Fn(char) -> bool>(data: &'a str, pred: F) -> (taken: ParseResult<
    (&'a str, usize),
>)
    requires
        forall|c: char| call_requires(pred, (c,)),
    ensures
        match taken {
            Ok((prefix, n)) => {
                &&& 0 < prefix@.len() <= data@.len()
                &&& prefix@ == data@.take(prefix@.len() as int)
                &&& n == bytes_before(data@, prefix@.len())
                &&& forall|i: int|
                    0 <= i < prefix@.len() ==> call_ensures(pred, (#[trigger] data@[i],), true)
                &&& prefix@.len() < data@.len() ==> call_ensures(
                    pred,
                    (data@[prefix@.len() as int],),
                    false,
                )
            },
            Err(e) => {
                &&& e@ == ParseErrorView::kind(ParseErrorKind::NoMatches)
                &&& data@.len() == 0 || call_ensures(pred, (data@[0],), false)
            },
        },
{
    let chars: Vec<char> = chars_of(data);
    let mut i: usize = 0;
    while i < chars.len()
        invariant
            i <= chars@.len(),
            chars@ == data@,
            forall|c: char| call_requires(pred, (c,)),
            forall|j: int| 0 <= j < i ==> call_ensures(pred, (#[trigger] data@[j],), true),
        ensures
            i <= chars@.len(),
            forall|j: int| 0 <= j < i ==> call_ensures(pred, (#[trigger] data@[j],), true),
            i < chars@.len() ==> call_ensures(pred, (data@[i as int],), false),
        decreases chars@.len() - i,
    {
        if pred(chars[i]) {
            i += 1;
        } else {
            break ;
        }
    }
    if i == 0 {
        Err(ParseError::kind(ParseErrorKind::NoMatches))
    } else {
        let n: usize = bytes_between(&chars, 0, i);
        let prefix: &'a str = data.substring_char(0, i);
        Ok((prefix, n))
    }
}

/// The place where the white space at the start of `data` ends, in bytes.
pub fn skip_whitespace(data: &str) -> (skipped: usize)
    ensures
        skipped == bytes_before(data@, run_end(data@, 0, whitespace())),
{
    let pred = |c: char| -> (b: bool)
        ensures
            b == is_whitespace(c),
        { char_is_whitespace(c) };
    match take_while(data, pred) {
        Ok((prefix, skipped)) => {
            proof {
                lemma_run_end(data@, 0, prefix@.len(), whitespace());
            }
            skipped
        },
        Err(_) => {
            proof {
                lemma_run_end(data@, 0, 0, whitespace());
            }
            0
        },
    }
}

/// Where the white space that starts at `from` ends.
fn whitespace_end(chars: &Vec<char>, from: usize) -> (end: usize)
    requires
        from <= chars@.len(),
    ensures
        from <= end <= chars@.len(),
        end == run_end(chars@, from as nat, whitespace()),
{
    let mut i: usize = from;
    while i < chars.len() && char_is_whitespace(chars[i])
        invariant
            from <= i <= chars@.len(),
            run_end(chars@, from as nat, whitespace()) == run_end(chars@, i as nat, whitespace()),
        decreases chars@.len() - i,
    {
        i += 1;
    }
    i
}

/// Whether `pat` stands in `s` at `from`.
pub open spec fn starts_with(s: Seq<char>, from: nat, pat: Seq<char>) -> bool {
    from + pat.len() <= s.len() && s.subrange(from as int, (from + pat.len()) as int) == pat
}

/// The first place at or after `from` at which `pat` stands in `s`.
pub open spec fn find(s: Seq<char>, from: nat, pat: Seq<char>) -> Option<nat>
    decreases s.len() - from,
{
    if starts_with(s, from, pat) {
        Some(from)
    } else if from >= s.len() {
        None
    } else {
        find(s, from + 1, pat)
    }
}

fn starts_with_at(chars: &Vec<char>, from: usize, pat: &Vec<char>) -> (b: bool)
    requires
        from <= chars@.len(),
    ensures
        b == starts_with(chars@, from as nat, pat@),
{
    if pat.len() > chars.len() - from {
        return false;
    }
    let mut i: usize = 0;
    while i < pat.len()
        invariant
            i <= pat@.len(),
            from + pat@.len() <= chars@.len() <= usize::MAX,
            forall|j: int| 0 <= j < i ==> chars@[from + j] == pat@[j],
        decreases pat@.len() - i,
    {
        if chars[from + i] != pat[i] {
            return false;
        }
        i += 1;
    }
    assert(chars@.subrange(from as int, from + pat@.len()) =~= pat@);
    true
}

fn find_at(chars: &Vec<char>, from: usize, pat: &Vec<char>) -> (found: Option<usize>)
    requires
        from <= chars@.len(),
    ensures
        match found {
            Some(at) => find(chars@, from as nat, pat@) == Some(at as nat) && from <= at && at
                + pat@.len() <= chars@.len(),
            None => find(chars@, from as nat, pat@) is None,
        },
{
    let mut i: usize = from;
    while i < chars.len()
        invariant
            from <= i <= chars@.len(),
            find(chars@, from as nat, pat@) == find(chars@, i as nat, pat@),
        decreases chars@.len() - i,
    {
        if starts_with_at(chars, i, pat) {
            return Some(i);
        }
        i += 1;
    }
    if starts_with_at(chars, i, pat) {
        Some(i)
    } else {
        None
    }
}

/// What is left of `data` behind the first `pattern` in it.
pub fn skip_untill<'a>(data: &'a str, pattern: &str) -> (rest: &'a str)
    requires
        find(data@, 0, pattern@) is Some,
    ensures
        rest@ == data@.skip((find(data@, 0, pattern@)->0 + pattern@.len()) as int),
{
    let chars: Vec<char> = chars_of(data);
    let pat: Vec<char> = chars_of(pattern);
    let at: usize = match find_at(&chars, 0, &pat) {
        Some(at) => at,
        None => 0,
    };
    let len: usize = chars.len();
    let rest: &'a str = data.substring_char(at + pat.len(), len);
    rest
}

/// Where the comment that starts at `from` ends: behind the end of the
/// line for `//`, behind `}` for `{`, behind `*)` for `(*`. The result is
/// `from` itself where no comment starts there, and nothing where a comment
/// starts and does not end.
pub open spec fn comment_end(s: Seq<char>, from: nat) -> Option<nat> {
    if starts_with(s, from, seq!['/', '/']) {
        behind(find(s, from, seq!['\n']), 1)
    } else if starts_with(s, from, seq!['{']) {
        behind(find(s, from, seq!['}']), 1)
    } else if starts_with(s, from, seq!['(', '*']) {
        behind(find(s, from, seq!['*', ')']), 2)
    } else {
        Some(from)
    }
}

/// The place `n` behind `at`, if there is an `at`.
pub open spec fn behind(at: Option<nat>, n: nat) -> Option<nat> {
    match at {
        Some(at) => Some(at + n),
        None => None,
    }
}

fn comment_end_at(chars: &Vec<char>, from: usize) -> (end: Option<usize>)
    requires
        from <= chars@.len(),
    ensures
        match end {
            Some(end) => comment_end(chars@, from as nat) == Some(end as nat) && from <= end
                <= chars@.len(),
            None => comment_end(chars@, from as nat) is None,
        },
{
    let line: Vec<char> = vec!['/', '/'];
    let line_end: Vec<char> = vec!['\n'];
    let brace: Vec<char> = vec!['{'];
    let brace_end: Vec<char> = vec!['}'];
    let paren: Vec<char> = vec!['(', '*'];
    let paren_end: Vec<char> = vec!['*', ')'];
    assert(line@ =~= seq!['/', '/']);
    assert(line_end@ =~= seq!['\n']);
    assert(brace@ =~= seq!['{']);
    assert(brace_end@ =~= seq!['}']);
    assert(paren@ =~= seq!['(', '*']);
    assert(paren_end@ =~= seq!['*', ')']);
    let len: usize = chars.len();
    if starts_with_at(chars, from, &line) {
        match find_at(chars, from, &line_end) {
            Some(at) => Some(at + 1),
            None => None,
        }
    } else if starts_with_at(chars, from, &brace) {
        match find_at(chars, from, &brace_end) {
            Some(at) => Some(at + 1),
            None => None,
        }
    } else if starts_with_at(chars, from, &paren) {
        match find_at(chars, from, &paren_end) {
            Some(at) => Some(at + 2),
            None => None,
        }
    } else {
        Some(from)
    }
}

/// The length in bytes of the comment at the start of `data`; zero where
/// `data` does not start with a comment.
pub fn skip_comments(data: &str) -> (skipped: usize)
    requires
        comment_end(data@, 0) is Some,
    ensures
        skipped == bytes_before(data@, comment_end(data@, 0)->0),
{
    let chars: Vec<char> = chars_of(data);
    match comment_end_at(&chars, 0) {
        Some(end) => bytes_between(&chars, 0, end),
        None => 0,
    }
}

/// Where the white space and the comments that start at `from` end: the
/// first place at or after `from` where neither starts. Nothing where a
/// comment on the way does not end.
pub open spec fn skip_end(s: Seq<char>, from: nat) -> Option<nat>
    decreases s.len() - from,
{
    match comment_end(s, run_end(s, from, whitespace())) {
        Some(end) => if from < end <= s.len() {
            skip_end(s, end)
        } else {
            Some(from)
        },
        None => None,
    }
}

fn skip_end_at(chars: &Vec<char>, from: usize) -> (end: Option<usize>)
    requires
        from <= chars@.len(),
    ensures
        match end {
            Some(end) => skip_end(chars@, from as nat) == Some(end as nat) && from <= end
                <= chars@.len(),
            None => skip_end(chars@, from as nat) is None,
        },
{
    let mut at: usize = from;
    loop
        invariant
            from <= at <= chars@.len(),
            skip_end(chars@, from as nat) == skip_end(chars@, at as nat),
        decreases chars@.len() - at,
    {
        let spaces: usize = whitespace_end(chars, at);
        match comment_end_at(chars, spaces) {
            Some(end) => {
                if end == at {
                    return Some(at);
                }
                at = end;
            },
            None => {
                return None;
            },
        }
    }
}

/// The length in bytes of the white space and the comments at the start of
/// `data`.
pub fn skip(data: &str) -> (skipped: usize)
    requires
        skip_end(data@, 0) is Some,
    ensures
        skipped == bytes_before(data@, skip_end(data@, 0)->0),
{
    let chars: Vec<char> = chars_of(data);
    match skip_end_at(&chars, 0) {
        Some(end) => bytes_between(&chars, 0, end),
        None => 0,
    }
}

/// The length that `skip` gives, or nothing where a comment on the way does
/// not end.
pub fn try_skip(data: &str) -> (skipped: Option<usize>)
    ensures
        match skipped {
            Some(n) => skip_end(data@, 0) is Some && n == bytes_before(
                data@,
                skip_end(data@, 0)->0,
            ),
            None => skip_end(data@, 0) is None,
        },
{
    let chars: Vec<char> = chars_of(data);
    match skip_end_at(&chars, 0) {
        Some(_) => Some(skip(data)),
        None => None,
    }
}

/// A token of the text.
#[derive(Debug, PartialEq, Eq)]
pub enum TokenKind {
    Integer(usize),
    /// A number with a decimal point, as it is written.
    Decimal(String),
    Identifier(String),
    QuotedString(String),
    Asterisk,
    At,
    Carat,
    CloseParen,
    CloseSquare,
    Colon,
    Dot,
    End,
    Equals,
    Minus,
    OpenParen,
    OpenSquare,
    Plus,
    Semicolon,
    Slash,
}

/// A token, mathematically.
pub enum TokenKindView {
    Integer(usize),
    Decimal(Seq<char>),
    Identifier(Seq<char>),
    QuotedString(Seq<char>),
    Asterisk,
    At,
    Carat,
    CloseParen,
    CloseSquare,
    Colon,
    Dot,
    End,
    Equals,
    Minus,
    OpenParen,
    OpenSquare,
    Plus,
    Semicolon,
    Slash,
}

impl View for TokenKind {
    type V = TokenKindView;

    open spec fn view(&self) -> TokenKindView {
        match self {
            TokenKind::Integer(n) => TokenKindView::Integer(*n),
            TokenKind::Decimal(s) => TokenKindView::Decimal(s@),
            TokenKind::Identifier(s) => TokenKindView::Identifier(s@),
            TokenKind::QuotedString(s) => TokenKindView::QuotedString(s@),
            TokenKind::Asterisk => TokenKindView::Asterisk,
            TokenKind::At => TokenKindView::At,
            TokenKind::Carat => TokenKindView::Carat,
            TokenKind::CloseParen => TokenKindView::CloseParen,
            TokenKind::CloseSquare => TokenKindView::CloseSquare,
            TokenKind::Colon => TokenKindView::Colon,
            TokenKind::Dot => TokenKindView::Dot,
            TokenKind::End => TokenKindView::End,
            TokenKind::Equals => TokenKindView::Equals,
            TokenKind::Minus => TokenKindView::Minus,
            TokenKind::OpenParen => TokenKindView::OpenParen,
            TokenKind::OpenSquare => TokenKindView::OpenSquare,
            TokenKind::Plus => TokenKindView::Plus,
            TokenKind::Semicolon => TokenKindView::Semicolon,
            TokenKind::Slash => TokenKindView::Slash,
        }
    }
}

impl From<String> for TokenKind {
    fn from(other: String) -> (t: TokenKind) {
        TokenKind::Identifier(other)
    }
}

impl FromSpecImpl<String> for TokenKind {
    open spec fn obeys_from_spec() -> bool {
        true
    }

    open spec fn from_spec(other: String) -> TokenKind {
        TokenKind::Identifier(other)
    }
}

impl<'a> From<&'a str> for TokenKind {
    fn from(other: &'a str) -> (t: TokenKind)
        ensures
            t@ == TokenKindView::Identifier(other@),
    {
        TokenKind::Identifier(other.to_owned())
    }
}

impl<'a> FromSpecImpl<&'a str> for TokenKind {
    open spec fn obeys_from_spec() -> bool {
        false
    }

    open spec fn from_spec(other: &'a str) -> TokenKind {
        arbitrary()
    }
}

impl From<usize> for TokenKind {
    fn from(other: usize) -> (t: TokenKind) {
        TokenKind::Integer(other)
    }
}

impl FromSpecImpl<usize> for TokenKind {
    open spec fn obeys_from_spec() -> bool {
        true
    }

    open spec fn from_spec(other: usize) -> TokenKind {
        TokenKind::Integer(other)
    }
}

/// The token that the one character `c` is, if it is one.
pub open spec fn punctuation(c: char) -> Option<TokenKindView> {
    if c == '.' {
        Some(TokenKindView::Dot)
    } else if c == '=' {
        Some(TokenKindView::Equals)
    } else if c == '+' {
        Some(TokenKindView::Plus)
    } else if c == '-' {
        Some(TokenKindView::Minus)
    } else if c == '*' {
        Some(TokenKindView::Asterisk)
    } else if c == '/' {
        Some(TokenKindView::Slash)
    } else if c == '@' {
        Some(TokenKindView::At)
    } else if c == '^' {
        Some(TokenKindView::Carat)
    } else if c == '(' {
        Some(TokenKindView::OpenParen)
    } else if c == ')' {
        Some(TokenKindView::CloseParen)
    } else if c == '[' {
        Some(TokenKindView::OpenSquare)
    } else if c == ']' {
        Some(TokenKindView::CloseSquare)
    } else if c == ':' {
        Some(TokenKindView::Colon)
    } else if c == ';' {
        Some(TokenKindView::Semicolon)
    } else {
        None
    }
}

fn punctuation_of(c: char) -> (t: Option<TokenKind>)
    ensures
        match t {
            Some(t) => punctuation(c) == Some(t@),
            None => punctuation(c) is None,
        },
{
    if c == '.' {
        Some(TokenKind::Dot)
    } else if c == '=' {
        Some(TokenKind::Equals)
    } else if c == '+' {
        Some(TokenKind::Plus)
    } else if c == '-' {
        Some(TokenKind::Minus)
    } else if c == '*' {
        Some(TokenKind::Asterisk)
    } else if c == '/' {
        Some(TokenKind::Slash)
    } else if c == '@' {
        Some(TokenKind::At)
    } else if c == '^' {
        Some(TokenKind::Carat)
    } else if c == '(' {
        Some(TokenKind::OpenParen)
    } else if c == ')' {
        Some(TokenKind::CloseParen)
    } else if c == '[' {
        Some(TokenKind::OpenSquare)
    } else if c == ']' {
        Some(TokenKind::CloseSquare)
    } else if c == ':' {
        Some(TokenKind::Colon)
    } else if c == ';' {
        Some(TokenKind::Semicolon)
    } else {
        None
    }
}

/// Where the number that starts at `from` ends, and whether it has a
/// decimal point: a number is made of digits and at most one point.
/// `dotted` says whether a point came before `from`.
pub open spec fn number_run(s: Seq<char>, from: nat, dotted: bool) -> (nat, bool)
    decreases s.len() - from,
{
    if from < s.len() && is_decimal_digit(s[from as int]) {
        number_run(s, from + 1, dotted)
    } else if from < s.len() && s[from as int] == '.' && !dotted {
        number_run(s, from + 1, true)
    } else {
        (from, dotted)
    }
}

/// The value of the decimal digits of `s` from `from` up to `to`.
pub open spec fn digits_value(s: Seq<char>, from: nat, to: nat) -> nat
    decreases to,
{
    if to <= from || to > s.len() {
        0
    } else {
        digits_value(s, from, (to - 1) as nat) * 10 + (s[to - 1] as u32 - '0' as u32) as nat
    }
}

/// The error for a number that is too large, with its cause in words.
pub open spec fn int_error() -> ParseErrorView {
    ParseErrorView::kind(ParseErrorKind::ConversionError).msg(
        "Cannot convert token to int"@,
    ).source("the digits stand for a number above the largest integer"@)
}

/// The error for a decimal point without a digit, with its cause in words.
pub open spec fn float_error() -> ParseErrorView {
    ParseErrorView::kind(ParseErrorKind::ConversionError).msg(
        "Cannot convert token to float"@,
    ).source("a decimal point stands without a digit"@)
}

/// The number that starts at `from`, and where it ends. A number with a
/// point is kept as it is written; one without is an integer, and an error
/// where it is too large for one. A point alone is no number.
pub open spec fn number_at(s: Seq<char>, from: nat) -> Result<
    (TokenKindView, nat),
    ParseErrorView,
> {
    let (end, dotted) = number_run(s, from, false);
    if end <= from {
        Err(ParseErrorView::kind(ParseErrorKind::NoMatches))
    } else if dotted {
        if end == from + 1 {
            Err(float_error())
        } else {
            Ok((TokenKindView::Decimal(s.subrange(from as int, end as int)), end))
        }
    } else {
        if digits_value(s, from, end) <= usize::MAX {
            Ok((TokenKindView::Integer(digits_value(s, from, end) as usize), end))
        } else {
            Err(int_error())
        }
    }
}

/// The identifier that starts at `from`, and where it ends.
pub open spec fn identifier_at(s: Seq<char>, from: nat) -> Result<
    (TokenKindView, nat),
    ParseErrorView,
> {
    if from >= s.len() {
        Err(
            ParseErrorView::kind(ParseErrorKind::UnexpectedEOF).msg(
                "Invalid EOF while parsing file"@,
            ),
        )
    } else if is_decimal_digit(s[from as int]) {
        Err(
            ParseErrorView::kind(ParseErrorKind::InvalidSymbol).msg(
                "Identifiers can't start with numbers"@,
            ),
        )
    } else if run_end(s, from, identifier_part()) <= from {
        Err(ParseErrorView::kind(ParseErrorKind::NoMatches))
    } else {
        Ok(
            (
                TokenKindView::Identifier(
                    s.subrange(from as int, run_end(s, from, identifier_part()) as int),
                ),
                run_end(s, from, identifier_part()),
            ),
        )
    }
}

/// Whether a number may start with `c`: with a digit below nine.
pub open spec fn starts_number(c: char) -> bool {
    '0' <= c && '9' > c
}

/// The token that starts at `from`, and where it ends. A digit below nine
/// starts a number, a letter an identifier.
pub open spec fn token_at(s: Seq<char>, from: nat) -> Result<
    (TokenKindView, nat),
    ParseErrorView,
> {
    if from >= s.len() {
        Err(ParseErrorView::kind(ParseErrorKind::UnexpectedEOF))
    } else {
        let c = s[from as int];
        match punctuation(c) {
            Some(t) => Ok((t, from + 1)),
            None => if starts_number(c) {
                number_at(s, from)
            } else if is_alphabetic(c) {
                identifier_at(s, from)
            } else {
                Err(ParseErrorView::kind(ParseErrorKind::UnknownCharacter(c)))
            },
        }
    }
}

/// Whether `got` is what `want` says, with places counted in characters.
pub open spec fn agrees(
    got: Result<(TokenKind, usize), ParseError>,
    want: Result<(TokenKindView, nat), ParseErrorView>,
) -> bool {
    match got {
        Ok((token, end)) => want == Ok::<(TokenKindView, nat), ParseErrorView>(
            (token@, end as nat),
        ),
        Err(e) => want == Err::<(TokenKindView, nat), ParseErrorView>(e@),
    }
}

/// Whether `got` is what `want` says, where `got` counts the bytes of `s`
/// and `want` its characters.
pub open spec fn agrees_in_bytes(
    got: Result<(TokenKind, usize), ParseError>,
    want: Result<(TokenKindView, nat), ParseErrorView>,
    s: Seq<char>,
) -> bool {
    match got {
        Ok((token, read)) => want matches Ok((t, end)) && t == token@ && read == bytes_before(
            s,
            end,
        ),
        Err(e) => want == Err::<(TokenKindView, nat), ParseErrorView>(e@),
    }
}

proof fn lemma_digits_value_grows(s: Seq<char>, from: nat, a: nat, b: nat)
    requires
        from <= a <= b <= s.len(),
        forall|j: int| from <= j < b ==> is_decimal_digit(#[trigger] s[j]),
    ensures
        digits_value(s, from, a) <= digits_value(s, from, b),
    decreases b,
{
    if a < b {
        lemma_digits_value_grows(s, from, a, (b - 1) as nat);
    }
}

fn lex_number(data: &str, chars: &Vec<char>, from: usize) -> (r: Result<
    (TokenKind, usize),
    ParseError,
>)
    requires
        chars@ == data@,
        from <= chars@.len(),
    ensures
        agrees(r, number_at(chars@, from as nat)),
        r matches Ok((_, end)) ==> from < end <= chars@.len(),
{
    let mut end: usize = from;
    let mut dotted: bool = false;
    loop
        invariant
            from <= end <= chars@.len(),
            number_run(chars@, from as nat, false) == number_run(chars@, end as nat, dotted),
            dotted ==> from < end,
            !dotted ==> forall|j: int| from <= j < end ==> is_decimal_digit(#[trigger] chars@[j]),
        ensures
            from <= end <= chars@.len(),
            number_run(chars@, from as nat, false) == (end as nat, dotted),
            dotted ==> from < end,
            !dotted ==> forall|j: int| from <= j < end ==> is_decimal_digit(#[trigger] chars@[j]),
        decreases chars@.len() - end,
    {
        if end < chars.len() && char_is_decimal_digit(chars[end]) {
            end += 1;
        } else if end < chars.len() && chars[end] == '.' && !dotted {
            dotted = true;
            end += 1;
        } else {
            break ;
        }
    }
    if end == from {
        return Err(ParseError::kind(ParseErrorKind::NoMatches));
    }
    if dotted {
        if end == from + 1 {
            return Err(
                ParseError::kind(ParseErrorKind::ConversionError).msg(
                    "Cannot convert token to float".to_owned(),
                ).source("a decimal point stands without a digit".to_owned()),
            );
        }
        let written: String = data.substring_char(from, end).to_owned();
        return Ok((TokenKind::Decimal(written), end));
    }
    let mut value: usize = 0;
    let mut i: usize = from;
    while i < end
        invariant
            from <= i <= end <= chars@.len(),
            value == digits_value(chars@, from as nat, i as nat),
            forall|j: int| from <= j < end ==> is_decimal_digit(#[trigger] chars@[j]),
            number_at(chars@, from as nat) == if digits_value(chars@, from as nat, end as nat)
                <= usize::MAX {
                Ok::<(TokenKindView, nat), ParseErrorView>(
                    (
                        TokenKindView::Integer(
                            digits_value(chars@, from as nat, end as nat) as usize,
                        ),
                        end as nat,
                    ),
                )
            } else {
                Err::<(TokenKindView, nat), ParseErrorView>(int_error())
            },
        decreases end - i,
    {
        let digit: usize = (chars[i] as u32 - '0' as u32) as usize;
        proof {
            lemma_digits_value_grows(chars@, from as nat, (i + 1) as nat, end as nat);
        }
        let next: Option<usize> = match value.checked_mul(10) {
            Some(tens) => tens.checked_add(digit),
            None => None,
        };
        match next {
            Some(next) => {
                value = next;
            },
            None => {
                return Err(
                    ParseError::kind(ParseErrorKind::ConversionError).msg(
                        "Cannot convert token to int".to_owned(),
                    ).source("the digits stand for a number above the largest integer".to_owned()),
                );
            },
        }
        i += 1;
    }
    Ok((TokenKind::Integer(value), end))
}

fn identifier_end(chars: &Vec<char>, from: usize) -> (end: usize)
    requires
        from <= chars@.len(),
    ensures
        from <= end <= chars@.len(),
        end == run_end(chars@, from as nat, identifier_part()),
{
    let mut i: usize = from;
    while i < chars.len() && (chars[i] == '_' || char_is_alphanumeric(chars[i]))
        invariant
            from <= i <= chars@.len(),
            run_end(chars@, from as nat, identifier_part()) == run_end(
                chars@,
                i as nat,
                identifier_part(),
            ),
        decreases chars@.len() - i,
    {
        i += 1;
    }
    i
}

/// Whether `done` is what a first character `ch` of an identifier calls
/// for: nothing for a character that is no digit, an error for a digit and
/// for no character at all.
pub open spec fn validated(ch: Option<char>, done: Result<(), ParseError>) -> bool {
    match ch {
        Some(c) => if is_decimal_digit(c) {
            done matches Err(e) && e@ == ParseErrorView::kind(ParseErrorKind::InvalidSymbol).msg(
                "Identifiers can't start with numbers"@,
            )
        } else {
            done is Ok
        },
        None => done matches Err(e) && e@ == ParseErrorView::kind(
            ParseErrorKind::UnexpectedEOF,
        ).msg("Invalid EOF while parsing file"@),
    }
}

/// Checks the first character of an identifier.
pub fn validate_idenifier_char(ch: Option<char>) -> (done: ParseResult<()>)
    ensures
        validated(ch, done),
{
    match ch {
        Some(ch) => {
            if char_is_decimal_digit(ch) {
                Err(
                    ParseError::kind(ParseErrorKind::InvalidSymbol).msg(
                        "Identifiers can't start with numbers".to_owned(),
                    ),
                )
            } else {
                Ok(())
            }
        },
        None => Err(
            ParseError::kind(ParseErrorKind::UnexpectedEOF).msg(
                "Invalid EOF while parsing file".to_owned(),
            ),
        ),
    }
}

fn lex_identifier(data: &str, chars: &Vec<char>, from: usize) -> (r: Result<
    (TokenKind, usize),
    ParseError,
>)
    requires
        chars@ == data@,
        from <= chars@.len(),
    ensures
        agrees(r, identifier_at(chars@, from as nat)),
        r matches Ok((_, end)) ==> from < end <= chars@.len(),
{
    let first: Option<char> = if from < chars.len() {
        Some(chars[from])
    } else {
        None
    };
    match validate_idenifier_char(first) {
        Ok(()) => {},
        Err(e) => {
            return Err(e);
        },
    }
    let end: usize = identifier_end(chars, from);
    if end == from {
        return Err(ParseError::kind(ParseErrorKind::NoMatches));
    }
    let got: String = data.substring_char(from, end).to_owned();
    Ok((TokenKind::Identifier(got), end))
}

fn lex_token(data: &str, chars: &Vec<char>, from: usize) -> (r: Result<
    (TokenKind, usize),
    ParseError,
>)
    requires
        chars@ == data@,
        from <= chars@.len(),
    ensures
        agrees(r, token_at(chars@, from as nat)),
        r matches Ok((_, end)) ==> from < end <= chars@.len(),
{
    if from >= chars.len() {
        return Err(ParseError::kind(ParseErrorKind::UnexpectedEOF));
    }
    let next: char = chars[from];
    match punctuation_of(next) {
        Some(token) => Ok((token, from + 1)),
        None => {
            if '0' <= next && '9' > next {
                lex_number(data, chars, from)
            } else if char_is_alphabetic(next) {
                lex_identifier(data, chars, from)
            } else {
                Err(ParseError::kind(ParseErrorKind::UnknownCharacter(next)))
            }
        },
    }
}

fn in_bytes(chars: &Vec<char>, r: Result<(TokenKind, usize), ParseError>) -> (b: Result<
    (TokenKind, usize),
    ParseError,
>)
    requires
        fits(chars@),
        r matches Ok((_, end)) ==> end <= chars@.len(),
    ensures
        match (r, b) {
            (Ok((t, end)), Ok((tb, read))) => tb == t && read == bytes_before(chars@, end as nat),
            (Err(e), Err(eb)) => eb == e,
            _ => false,
        },
{
    match r {
        Ok((token, end)) => {
            let read: usize = bytes_between(chars, 0, end);
            Ok((token, read))
        },
        Err(e) => Err(e),
    }
}

/// The token at the start of `data`, and its length in bytes.
pub fn tokenize_next_token(data: &str) -> (r: ParseResult<(TokenKind, usize)>)
    ensures
        agrees_in_bytes(r, token_at(data@, 0), data@),
{
    let chars: Vec<char> = chars_of(data);
    let r = lex_token(data, &chars, 0);
    in_bytes(&chars, r)
}

/// The identifier at the start of `data`, and its length in bytes.
pub fn tokenize_identifier(data: &str) -> (r: ParseResult<(TokenKind, usize)>)
    ensures
        agrees_in_bytes(r, identifier_at(data@, 0), data@),
{
    let chars: Vec<char> = chars_of(data);
    let r = lex_identifier(data, &chars, 0);
    in_bytes(&chars, r)
}

/// The number at the start of `data`, and its length in bytes.
pub fn tokenize_number(data: &str) -> (r: ParseResult<(TokenKind, usize)>)
    ensures
        agrees_in_bytes(r, number_at(data@, 0), data@),
{
    let chars: Vec<char> = chars_of(data);
    let r = lex_number(data, &chars, 0);
    in_bytes(&chars, r)
}

/// A token with the bytes at which it starts and ends, mathematically.
pub type Spanned = (TokenKindView, nat, nat);

/// The tokens of `s` from `pos` on, each with the bytes at which it starts
/// and ends, or the error of the first piece of text that is no token, with
/// the byte at which that piece starts. Nothing where a comment on the way
/// does not end.
pub open spec fn tokens_from(s: Seq<char>, pos: nat) -> Option<Result<Seq<Spanned>, ParseErrorView>>
    decreases s.len() - pos,
{
    match skip_end(s, pos) {
        None => None,
        Some(at) => if at >= s.len() {
            Some(Ok(Seq::empty()))
        } else {
            match token_at(s, at) {
                Err(e) => Some(Err(e.index(bytes_before(s, at) as usize))),
                Ok((token, end)) => if pos <= at < end <= s.len() {
                    followed(
                        (token, bytes_before(s, at), bytes_before(s, end)),
                        tokens_from(s, end),
                    )
                } else {
                    None
                },
            }
        },
    }
}

/// The tokens `rest` behind the token `first`.
pub open spec fn followed(
    first: Spanned,
    rest: Option<Result<Seq<Spanned>, ParseErrorView>>,
) -> Option<Result<Seq<Spanned>, ParseErrorView>> {
    match rest {
        None => None,
        Some(Err(e)) => Some(Err(e)),
        Some(Ok(tokens)) => Some(Ok(seq![first] + tokens)),
    }
}

/// The tokens `rest` behind the tokens `before`.
pub open spec fn appended(
    before: Seq<Spanned>,
    rest: Option<Result<Seq<Spanned>, ParseErrorView>>,
) -> Option<Result<Seq<Spanned>, ParseErrorView>> {
    match rest {
        None => None,
        Some(Err(e)) => Some(Err(e)),
        Some(Ok(tokens)) => Some(Ok(before + tokens)),
    }
}

/// What a list of tokens is, mathematically.
pub open spec fn spanned(tokens: Seq<(TokenKind, usize, usize)>) -> Seq<Spanned> {
    Seq::new(tokens.len(), |i: int| (tokens[i].0@, tokens[i].1 as nat, tokens[i].2 as nat))
}

proof fn lemma_skip_end_bounds(s: Seq<char>, from: nat)
    requires
        from <= s.len(),
    ensures
        skip_end(s, from) matches Some(end) ==> from <= end <= s.len(),
    decreases s.len() - from,
{
    match comment_end(s, run_end(s, from, whitespace())) {
        Some(end) => {
            if from < end <= s.len() {
                lemma_skip_end_bounds(s, end);
            }
        },
        None => {},
    }
}

/// A reader of the tokens of a text, one after the other.
pub struct Tokenizer<'a> {
    cur_idx: usize,
    data: &'a str,
    chars: Vec<char>,
    pos: usize,
}

impl<'a> Tokenizer<'a> {
    /// The characters of the whole text.
    pub closed spec fn text(&self) -> Seq<char> {
        self.data@
    }

    /// How many characters were read.
    pub closed spec fn position(&self) -> nat {
        self.pos as nat
    }

    /// How many bytes were read.
    pub closed spec fn index(&self) -> nat {
        self.cur_idx as nat
    }

    /// Whether the reader holds the characters of its text.
    pub closed spec fn consistent(&self) -> bool {
        self.chars@ == self.data@
    }

    /// What every reader keeps: it stands inside its text, and the bytes
    /// read are those of the characters read.
    pub open spec fn well_formed(&self) -> bool {
        &&& self.consistent()
        &&& fits(self.text())
        &&& self.position() <= self.text().len()
        &&& self.index() == bytes_before(self.text(), self.position())
    }

    /// A reader at the start of `data`.
    pub fn new(data: &'a str) -> (tokenizer: Tokenizer<'a>)
        ensures
            tokenizer.well_formed(),
            tokenizer.text() == data@,
            tokenizer.position() == 0,
            tokenizer.index() == 0,
    {
        Tokenizer { cur_idx: 0, data, chars: chars_of(data), pos: 0 }
    }

    /// Reads the next token: skips white space and comments, and returns the
    /// token that follows with the bytes at which it starts and ends, or
    /// nothing at the end of the text. An error carries the byte at which
    /// the piece of text that is no token starts.
    pub fn next_token(&mut self) -> (r: ParseResult<Option<(TokenKind, usize, usize)>>)
        requires
            old(self).well_formed(),
            skip_end(old(self).text(), old(self).position()) is Some,
        ensures
            final(self).well_formed(),
            final(self).text() == old(self).text(),
            ({
                let s = old(self).text();
                let at = skip_end(s, old(self).position())->0;
                if at >= s.len() {
                    r == Ok::<Option<(TokenKind, usize, usize)>, ParseError>(None)
                        && final(self).position() == at
                } else {
                    match token_at(s, at) {
                        Ok((token, end)) => r matches Ok(Some((t, from, to))) && t@ == token
                            && from == bytes_before(s, at) && to == bytes_before(s, end)
                            && final(self).position() == end && at < end <= s.len(),
                        Err(e) => r matches Err(got) && got@ == e.index(
                            bytes_before(s, at) as usize,
                        ) && final(self).position() == at,
                    }
                }
            }),
    {
        self.skip_whitespace();
        if self.pos >= self.chars.len() {
            Ok(None)
        } else {
            let start: usize = self.cur_idx;
            let token: TokenKind = match self.fetch_next_token() {
                Ok(token) => token,
                Err(e) => {
                    return Err(e);
                },
            };
            let end: usize = self.cur_idx;
            Ok(Some((token, start, end)))
        }
    }

    /// Reads the token at which the reader stands. An error carries the byte
    /// at which the reader stands, and leaves it there.
    pub fn fetch_next_token(&mut self) -> (r: ParseResult<TokenKind>)
        requires
            old(self).well_formed(),
        ensures
            final(self).well_formed(),
            final(self).text() == old(self).text(),
            match token_at(old(self).text(), old(self).position()) {
                Ok((token, end)) => r matches Ok(t) && t@ == token && final(self).position() == end
                    && old(self).position() < end <= old(self).text().len()
                    && final(self).index() == bytes_before(old(self).text(), end),
                Err(e) => r matches Err(got) && got@ == e.index(old(self).index() as usize)
                    && final(self).position() == old(self).position() && final(self).index()
                    == old(self).index(),
            },
    {
        match lex_token(self.data, &self.chars, self.pos) {
            Err(e) => Err(e.index(self.cur_idx)),
            Ok((token, end)) => {
                let bytes_read: usize = bytes_between(&self.chars, self.pos, end);
                proof {
                    lemma_bytes_before_grows(self.chars@, end as nat, self.chars@.len());
                }
                self.chomp(bytes_read);
                proof {
                    lemma_same_bytes_same_place(self.chars@, self.pos as nat, end as nat);
                }
                Ok(token)
            },
        }
    }

    /// Skips the white space and the comments at which the reader stands.
    pub fn skip_whitespace(&mut self)
        requires
            old(self).well_formed(),
            skip_end(old(self).text(), old(self).position()) is Some,
        ensures
            final(self).well_formed(),
            final(self).text() == old(self).text(),
            final(self).position() == skip_end(old(self).text(), old(self).position())->0,
            final(self).position() <= final(self).text().len(),
    {
        match skip_end_at(&self.chars, self.pos) {
            Some(end) => {
                let bytes: usize = bytes_between(&self.chars, self.pos, end);
                proof {
                    lemma_bytes_before_grows(self.chars@, end as nat, self.chars@.len());
                }
                self.chomp(bytes);
                proof {
                    lemma_same_bytes_same_place(self.chars@, self.pos as nat, end as nat);
                }
            },
            None => {},
        }
    }

    /// Moves the reader on by `num_bytes` bytes, which must be the bytes of
    /// the characters that follow, up to some place in the text.
    pub fn chomp(&mut self, num_bytes: usize)
        requires
            old(self).well_formed(),
            exists|to: nat|
                old(self).position() <= to <= old(self).text().len() && #[trigger] bytes_before(
                    old(self).text(),
                    to,
                ) == old(self).index() + num_bytes,
        ensures
            final(self).well_formed(),
            final(self).text() == old(self).text(),
            final(self).index() == old(self).index() + num_bytes,
            old(self).position() <= final(self).position() <= old(self).text().len(),
    {
        let ghost to: nat = choose|to: nat|
            self.position() <= to <= self.text().len() && #[trigger] bytes_before(
                self.text(),
                to,
            ) == self.index() + num_bytes;
        let mut left: usize = num_bytes;
        let len: usize = self.chars.len();
        while left > 0
            invariant
                self.well_formed(),
                self.chars@.len() == len,
                self.text() == old(self).text(),
                self.pos <= to <= self.chars@.len(),
                bytes_before(self.chars@, to) == self.cur_idx + left,
                self.cur_idx + left == old(self).index() + num_bytes,
                old(self).position() <= self.pos,
            decreases left,
        {
            proof {
                lemma_bytes_before_grows(self.chars@, self.pos as nat, to);
                if self.pos < to {
                    lemma_bytes_before_grows(self.chars@, (self.pos + 1) as nat, to);
                }
                lemma_bytes_before_grows(self.chars@, to, self.chars@.len());
            }
            let width: usize = char_len_utf8(self.chars[self.pos]);
            left = left - width;
            self.cur_idx = self.cur_idx + width;
            self.pos = self.pos + 1;
        }
    }
}

/// Two places with the same bytes before them are one place.
proof fn lemma_same_bytes_same_place(s: Seq<char>, a: nat, b: nat)
    requires
        a <= s.len(),
        b <= s.len(),
        bytes_before(s, a) == bytes_before(s, b),
    ensures
        a == b,
{
    if a < b {
        lemma_bytes_before_grows(s, a, b);
    } else if b < a {
        lemma_bytes_before_grows(s, b, a);
    }
}

/// Whether every comment that the reading of `data` comes to has an end,
/// so that `data` can be read token by token.
pub fn can_tokenize(data: &str) -> (b: bool)
    ensures
        b == (tokens_from(data@, 0) is Some),
{
    let chars: Vec<char> = chars_of(data);
    let mut pos: usize = 0;
    loop
        invariant
            chars@ == data@,
            pos <= chars@.len(),
            (tokens_from(data@, 0) is Some) == (tokens_from(data@, pos as nat) is Some),
        decreases chars@.len() - pos,
    {
        let at: usize = match skip_end_at(&chars, pos) {
            Some(at) => at,
            None => {
                return false;
            },
        };
        if at >= chars.len() {
            return true;
        }
        match lex_token(data, &chars, at) {
            Ok((_, end)) => {
                pos = end;
            },
            Err(_) => {
                return true;
            },
        }
    }
}

/// The tokens of `data` as `tokenize` gives them, or nothing where a
/// comment of `data` does not end.
pub fn try_tokenize(data: &str) -> (r: Option<ParseResult<Vec<(TokenKind, usize, usize)>>>)
    ensures
        match r {
            Some(Ok(tokens)) => tokens_from(data@, 0) == Some(
                Ok::<Seq<Spanned>, ParseErrorView>(spanned(tokens@)),
            ),
            Some(Err(e)) => tokens_from(data@, 0) == Some(
                Err::<Seq<Spanned>, ParseErrorView>(e@),
            ),
            None => tokens_from(data@, 0) is None,
        },
{
    if can_tokenize(data) {
        Some(tokenize(data))
    } else {
        None
    }
}

/// The tokens of `data`, each with the bytes at which it starts and ends;
/// a token lies between its start and its end, the end left out.
pub fn tokenize(data: &str) -> (r: ParseResult<Vec<(TokenKind, usize, usize)>>)
    requires
        tokens_from(data@, 0) is Some,
    ensures
        match r {
            Ok(tokens) => tokens_from(data@, 0) == Some(
                Ok::<Seq<Spanned>, ParseErrorView>(spanned(tokens@)),
            ),
            Err(e) => tokens_from(data@, 0) == Some(Err::<Seq<Spanned>, ParseErrorView>(e@)),
        },
{
    let mut tokenizer = Tokenizer::new(data);
    let mut tokens: Vec<(TokenKind, usize, usize)> = Vec::new();
    loop
        invariant
            tokenizer.well_formed(),
            tokenizer.text() == data@,
            tokenizer.position() <= data@.len(),
            tokens_from(data@, 0) is Some,
            tokens_from(data@, 0) == appended(
                spanned(tokens@),
                tokens_from(data@, tokenizer.position()),
            ),
        decreases data@.len() - tokenizer.position(),
    {
        let ghost before = spanned(tokens@);
        let ghost pos = tokenizer.position();
        proof {
            lemma_skip_end_bounds(data@, pos);
        }
        match tokenizer.next_token() {
            Err(e) => {
                return Err(e);
            },
            Ok(None) => {
                return Ok(tokens);
            },
            Ok(Some(token)) => {
                tokens.push(token);
                proof {
                    let first = (token.0@, token.1 as nat, token.2 as nat);
                    assert(spanned(tokens@) =~= before.push(first));
                    match tokens_from(data@, tokenizer.position()) {
                        Some(Ok(rest)) => {
                            assert(before + (seq![first] + rest) =~= before.push(first) + rest);
                        },
                        _ => {},
                    }
                }
            },
        }
    }
}

} // verus!
