//! The scanner: source text to tokens.

use vstd::prelude::*;
use vstd::string::*;
use vstd::utf8::{encode_scalar, encode_utf8};
use crate::error::{plain_error, Error, ErrorKind, ErrorView, Position};
use crate::token::{token_at, token_views, Token, TokenKind, TokenView};

verus! {

/// A decimal digit.
pub open spec fn is_digit(c: char) -> bool {
    '0' <= c <= '9'
}

/// A character of ASCII.
pub open spec fn is_ascii_char(c: char) -> bool {
    c <= '\u{7f}'
}

/// A letter of the Latin alphabet in ASCII.
pub open spec fn is_ascii_letter(c: char) -> bool {
    ('a' <= c <= 'z') || ('A' <= c <= 'Z')
}

/// Whether Unicode counts a character beyond ASCII as alphabetic.
pub uninterp spec fn alphabetic_char(c: char) -> bool;

/// Whether Unicode counts a character beyond ASCII as alphabetic or
/// numeric.
pub uninterp spec fn alphanumeric_char(c: char) -> bool;

/// A letter: in ASCII one of the Latin alphabet, beyond it what Unicode
/// counts as alphabetic.
pub open spec fn is_letter(c: char) -> bool {
    if is_ascii_char(c) {
        is_ascii_letter(c)
    } else {
        alphabetic_char(c)
    }
}

/// A letter or a digit: in ASCII a Latin letter or a decimal digit, beyond
/// it what Unicode counts as alphabetic or numeric.
pub open spec fn is_letter_or_digit(c: char) -> bool {
    if is_ascii_char(c) {
        is_ascii_letter(c) || is_digit(c)
    } else {
        alphanumeric_char(c)
    }
}

/// A letter or an underscore: what a name starts with.
pub open spec fn is_alphabetic(c: char) -> bool {
    is_letter(c) || c == '_'
}

/// A letter, a digit or an underscore: what a name goes on with.
pub open spec fn is_alphanumeric(c: char) -> bool {
    is_letter_or_digit(c) || c == '_'
}

/// The row of the character at index `i`: one more than the number of line
/// feeds in front of it.
pub open spec fn line_of(src: Seq<char>, i: int) -> int
    decreases i,
{
    if i <= 0 || i > src.len() {
        1
    } else if src[i - 1] == '\n' {
        line_of(src, i - 1) + 1
    } else {
        line_of(src, i - 1)
    }
}

/// The column of the character at index `i`, where the first character of
/// the text stands in column `first` and the first of every later line in
/// column 1.
pub open spec fn column_of(src: Seq<char>, i: int, first: int) -> int
    decreases i,
{
    if i <= 0 || i > src.len() {
        first
    } else if src[i - 1] == '\n' {
        1
    } else {
        column_of(src, i - 1, first) + 1
    }
}

/// The number of bytes that a character takes in UTF-8.
pub open spec fn byte_width(c: char) -> int {
    encode_scalar(c as u32).len() as int
}

/// The byte offset of the character at index `i`: the number of bytes that
/// the characters in front of it take in UTF-8.
pub open spec fn offset_of(src: Seq<char>, i: int) -> int
    decreases i,
{
    if i <= 0 || i > src.len() {
        0
    } else {
        offset_of(src, i - 1) + byte_width(src[i - 1])
    }
}

/// Row, column and byte offset of the character at index `i`.
pub open spec fn position_of(src: Seq<char>, i: int, first: int) -> Position {
    Position {
        line: line_of(src, i) as usize,
        column: column_of(src, i, first) as usize,
        offset: offset_of(src, i) as usize,
    }
}

/// The kinds of character run that a lexeme can hold.
#[derive(Debug, Clone, Copy, PartialEq, Eq, Structural)]
pub enum Run {
    /// Decimal digits.
    Digits,
    /// Letters, digits and underscores.
    Word,
    /// Anything up to the end of the line.
    Comment,
    /// Anything up to a double quote.
    Text,
}

/// Whether a run of the given kind goes on over `c`.
pub open spec fn continues(run: Run, c: char) -> bool {
    match run {
        Run::Digits => is_digit(c),
        Run::Word => is_alphanumeric(c),
        Run::Comment => c != '\n',
        Run::Text => c != '"',
    }
}

/// The index at which the run that starts at `from` ends: that of the first
/// character that the run does not go on over, or the length of the text.
pub open spec fn run_end(src: Seq<char>, run: Run, from: int) -> int
    decreases src.len() - from,
{
    if 0 <= from < src.len() && continues(run, src[from]) {
        run_end(src, run, from + 1)
    } else {
        from
    }
}

/// The reserved words.
pub open spec fn keyword_kind(text: Seq<char>) -> Option<TokenKind> {
    if text == "and"@ {
        Some(TokenKind::And)
    } else if text == "class"@ {
        Some(TokenKind::Class)
    } else if text == "else"@ {
        Some(TokenKind::Else)
    } else if text == "false"@ {
        Some(TokenKind::False)
    } else if text == "for"@ {
        Some(TokenKind::For)
    } else if text == "fun"@ {
        Some(TokenKind::Fun)
    } else if text == "if"@ {
        Some(TokenKind::If)
    } else if text == "nil"@ {
        Some(TokenKind::Nil)
    } else if text == "or"@ {
        Some(TokenKind::Or)
    } else if text == "print"@ {
        Some(TokenKind::Print)
    } else if text == "return"@ {
        Some(TokenKind::Return)
    } else if text == "super"@ {
        Some(TokenKind::Super)
    } else if text == "this"@ {
        Some(TokenKind::This)
    } else if text == "true"@ {
        Some(TokenKind::True)
    } else if text == "var"@ {
        Some(TokenKind::Var)
    } else if text == "while"@ {
        Some(TokenKind::While)
    } else {
        None
    }
}

/// The kind of a word: that of the reserved word it is, or a name.
pub open spec fn word_kind(text: Seq<char>) -> TokenKind {
    match keyword_kind(text) {
        Some(kind) => kind,
        None => TokenKind::Identifier,
    }
}

/// The punctuation that is a token by itself whatever follows.
pub open spec fn single_kind(c: char) -> Option<TokenKind> {
    if c == '(' {
        Some(TokenKind::LeftParen)
    } else if c == ')' {
        Some(TokenKind::RightParen)
    } else if c == '{' {
        Some(TokenKind::LeftBrace)
    } else if c == '}' {
        Some(TokenKind::RightBrace)
    } else if c == ',' {
        Some(TokenKind::Comma)
    } else if c == '.' {
        Some(TokenKind::Dot)
    } else if c == '-' {
        Some(TokenKind::Minus)
    } else if c == '+' {
        Some(TokenKind::Plus)
    } else if c == ';' {
        Some(TokenKind::Semicolon)
    } else if c == '*' {
        Some(TokenKind::Star)
    } else if c == ':' {
        Some(TokenKind::Colon)
    } else if c == '?' {
        Some(TokenKind::Question)
    } else {
        None
    }
}

/// The operators that take a following `=` with them: the kind alone and
/// the kind with the `=`.
pub open spec fn paired_kind(c: char) -> Option<(TokenKind, TokenKind)> {
    if c == '!' {
        Some((TokenKind::Bang, TokenKind::BangEqual))
    } else if c == '=' {
        Some((TokenKind::Equal, TokenKind::EqualEqual))
    } else if c == '>' {
        Some((TokenKind::Greater, TokenKind::GreaterEqual))
    } else if c == '<' {
        Some((TokenKind::Less, TokenKind::LessEqual))
    } else {
        None
    }
}

/// Whether the character at index `i` exists and is `c`.
pub open spec fn has_char(src: Seq<char>, i: int, c: char) -> bool {
    0 <= i < src.len() && src[i] == c
}

/// The index at which the number that starts at `pos` ends: after its
/// digits, and after a dot and further digits where a digit follows the dot.
pub open spec fn number_end(src: Seq<char>, pos: int) -> int {
    let whole = run_end(src, Run::Digits, pos);
    if has_char(src, whole, '.') && whole + 1 < src.len() && is_digit(src[whole + 1]) {
        run_end(src, Run::Digits, whole + 1)
    } else {
        whole
    }
}

/// Whether a text is a number as the scanner reads one, and nothing else:
/// digits, and after them at most one dot with digits behind it.
pub open spec fn is_decimal(text: Seq<char>) -> bool {
    text.len() > 0 && is_digit(text[0]) && number_end(text, 0) == text.len()
}

/// What stands at one place of the text.
pub enum Lexeme {
    /// Blanks, a line feed or a comment: no token, and the scan goes on at
    /// `end`.
    Blank { end: int },
    /// A token with its text, and the scan goes on at `end`.
    Token { kind: TokenKind, text: Seq<char>, end: int },
    /// A string that no quote closes.
    Unterminated,
    /// A character that starts nothing.
    Unexpected,
}

/// What stands at index `pos`, which lies inside the text. The longest
/// operator wins, `//` opens a comment that runs to the end of the line, and
/// the text of a string is what stands between its quotes, as it is.
pub open spec fn lexeme_at(src: Seq<char>, pos: int) -> Lexeme {
    let c = src[pos];
    if single_kind(c) is Some {
        Lexeme::Token { kind: single_kind(c)->Some_0, text: src.subrange(pos, pos + 1), end: pos + 1 }
    } else if paired_kind(c) is Some {
        if has_char(src, pos + 1, '=') {
            Lexeme::Token {
                kind: paired_kind(c)->Some_0.1,
                text: src.subrange(pos, pos + 2),
                end: pos + 2,
            }
        } else {
            Lexeme::Token {
                kind: paired_kind(c)->Some_0.0,
                text: src.subrange(pos, pos + 1),
                end: pos + 1,
            }
        }
    } else if c == '/' {
        if has_char(src, pos + 1, '/') {
            Lexeme::Blank { end: run_end(src, Run::Comment, pos + 2) }
        } else {
            Lexeme::Token { kind: TokenKind::Slash, text: src.subrange(pos, pos + 1), end: pos + 1 }
        }
    } else if c == ' ' || c == '\r' || c == '\t' || c == '\n' {
        Lexeme::Blank { end: pos + 1 }
    } else if c == '"' {
        let close = run_end(src, Run::Text, pos + 1);
        if close >= src.len() {
            Lexeme::Unterminated
        } else {
            Lexeme::Token {
                kind: TokenKind::String,
                text: src.subrange(pos + 1, close),
                end: close + 1,
            }
        }
    } else if is_digit(c) {
        Lexeme::Token {
            kind: TokenKind::Number,
            text: src.subrange(pos, number_end(src, pos)),
            end: number_end(src, pos),
        }
    } else if is_alphabetic(c) {
        let end = run_end(src, Run::Word, pos + 1);
        Lexeme::Token { kind: word_kind(src.subrange(pos, end)), text: src.subrange(pos, end), end }
    } else {
        Lexeme::Unexpected
    }
}

/// The token that closes every scan: empty, at the end of the text.
pub open spec fn eof_token(src: Seq<char>, first: int) -> TokenView {
    token_at(Seq::empty(), TokenKind::Eof, position_of(src, src.len() as int, first))
}

/// The tokens of the text from index `pos` on, closed by the end token, or
/// the first error: a string left open is reported where it starts, a
/// character that starts nothing where it stands.
pub open spec fn scan_from(src: Seq<char>, pos: int, first: int) -> Result<
    Seq<TokenView>,
    ErrorView,
>
    decreases src.len() - pos,
{
    if pos < 0 || pos >= src.len() {
        Ok(seq![eof_token(src, first)])
    } else {
        proof {
            lemma_lexeme_advances(src, pos);
        }
        match lexeme_at(src, pos) {
            Lexeme::Blank { end } => scan_from(src, end, first),
            Lexeme::Token { kind, text, end } => prepend(
                seq![token_at(text, kind, position_of(src, pos, first))],
                scan_from(src, end, first),
            ),
            Lexeme::Unterminated => Err(
                plain_error(
                    ErrorKind::Syntax,
                    "unterminated string literal"@,
                    position_of(src, pos, first),
                ),
            ),
            Lexeme::Unexpected => Err(
                plain_error(ErrorKind::Syntax, "unexpected character"@, position_of(src, pos, first)),
            ),
        }
    }
}

/// How far a scan from index `pos` gets: the tokens that it reads before
/// it stops, the end token not among them, and the index at which it stops,
/// which is the end of the text or the start of the lexeme that fails.
pub open spec fn scan_reach(src: Seq<char>, pos: int, first: int) -> (Seq<TokenView>, int)
    decreases src.len() - pos,
{
    if pos < 0 || pos >= src.len() {
        (Seq::empty(), pos)
    } else {
        proof {
            lemma_lexeme_advances(src, pos);
        }
        match lexeme_at(src, pos) {
            Lexeme::Blank { end } => scan_reach(src, end, first),
            Lexeme::Token { kind, text, end } => (
                seq![token_at(text, kind, position_of(src, pos, first))] + scan_reach(
                    src,
                    end,
                    first,
                ).0,
                scan_reach(src, end, first).1,
            ),
            _ => (Seq::empty(), pos),
        }
    }
}

/// Whether a scan is closed: the cursor stands at the end of the text and
/// the last token held is an end token.
pub open spec fn is_closed(tokens: Seq<TokenView>, src: Seq<char>, pos: int) -> bool {
    pos >= src.len() && tokens.len() > 0 && tokens.last().kind == TokenKind::Eof
}

/// What scanning on from index `pos` gives, with `tokens` held: where the
/// scan is closed, the tokens held as they are; else the tokens held, then
/// those of the rest of the text, then the end token, or the first error.
pub open spec fn scan_on(tokens: Seq<TokenView>, src: Seq<char>, pos: int, first: int) -> Result<
    Seq<TokenView>,
    ErrorView,
> {
    if is_closed(tokens, src, pos) {
        Ok(tokens)
    } else {
        prepend(tokens, scan_from(src, pos, first))
    }
}

/// Whether no token is an end token.
pub open spec fn eof_free(tokens: Seq<TokenView>) -> bool {
    forall|i: int| 0 <= i < tokens.len() ==> (#[trigger] tokens[i]).kind != TokenKind::Eof
}

/// Whether the last token is an end token and no other is.
pub open spec fn single_eof(tokens: Seq<TokenView>) -> bool {
    &&& tokens.len() > 0
    &&& tokens.last().kind == TokenKind::Eof
    &&& eof_free(tokens.drop_last())
}

/// The outcome `rest` with `tokens` put in front of what it holds.
pub open spec fn prepend(tokens: Seq<TokenView>, rest: Result<Seq<TokenView>, ErrorView>) -> Result<
    Seq<TokenView>,
    ErrorView,
> {
    match rest {
        Ok(more) => Ok(tokens + more),
        Err(e) => Err(e),
    }
}

/// The tokens of a whole text, or the first error in it.
pub open spec fn scan(src: Seq<char>, first: int) -> Result<Seq<TokenView>, ErrorView> {
    scan_from(src, 0, first)
}

/// The content of a scan's outcome.
pub open spec fn scan_view(r: Result<Vec<Token>, Error>) -> Result<Seq<TokenView>, ErrorView> {
    match r {
        Ok(tokens) => Ok(token_views(tokens@)),
        Err(e) => Err(e@),
    }
}

/// A run ends at or after its start and inside the text.
pub proof fn lemma_run_end_bounds(src: Seq<char>, run: Run, from: int)
    requires
        0 <= from <= src.len(),
    ensures
        from <= run_end(src, run, from) <= src.len(),
    decreases src.len() - from,
{
    if from < src.len() && continues(run, src[from]) {
        lemma_run_end_bounds(src, run, from + 1);
    }
}

/// Every lexeme is at least one character long and ends inside the text.
pub proof fn lemma_lexeme_advances(src: Seq<char>, pos: int)
    requires
        0 <= pos < src.len(),
    ensures
        match lexeme_at(src, pos) {
            Lexeme::Blank { end } => pos < end <= src.len(),
            Lexeme::Token { kind, text, end } => pos < end <= src.len() && kind != TokenKind::Eof,
            _ => true,
        },
{
    lemma_run_end_bounds(src, Run::Comment, pos + 1);
    if pos + 2 <= src.len() {
        lemma_run_end_bounds(src, Run::Comment, pos + 2);
    }
    lemma_run_end_bounds(src, Run::Text, pos + 1);
    lemma_run_end_bounds(src, Run::Word, pos + 1);
    lemma_run_end_bounds(src, Run::Digits, pos + 1);
    let whole = run_end(src, Run::Digits, pos);
    if whole + 1 <= src.len() {
        lemma_run_end_bounds(src, Run::Digits, whole + 1);
    }
}

/// Rows start at 1 and grow by at most one per character; so do columns,
/// from `first`.
pub proof fn lemma_position_bounds(src: Seq<char>, i: int, first: int)
    requires
        0 <= i <= src.len(),
        0 <= first,
    ensures
        1 <= line_of(src, i) <= 1 + i,
        0 <= column_of(src, i, first) <= first + i,
    decreases i,
{
    if i > 0 {
        lemma_position_bounds(src, i - 1, first);
    }
}

/// A run inside a part of the text ends where the run in the whole text
/// ends, or at the end of the part if that comes first.
pub proof fn lemma_run_end_in_part(src: Seq<char>, run: Run, from: int, to: int, at: int)
    requires
        0 <= from <= at <= to <= src.len(),
    ensures
        run_end(src.subrange(from, to), run, at - from) + from == if run_end(src, run, at) <= to {
            run_end(src, run, at)
        } else {
            to
        },
    decreases to - at,
{
    let part = src.subrange(from, to);
    lemma_run_end_bounds(src, run, at);
    if at < to {
        assert(part[at - from] == src[at]);
        if continues(run, src[at]) {
            lemma_run_end_in_part(src, run, from, to, at + 1);
        }
    }
}

/// The text of every number token is a number as `is_decimal` describes
/// it, so reading it as a number is reading digits.
pub proof fn lemma_number_token_is_decimal(src: Seq<char>, pos: int)
    requires
        0 <= pos < src.len(),
        is_digit(src[pos]),
    ensures
        is_decimal(src.subrange(pos, number_end(src, pos))),
{
    let end = number_end(src, pos);
    let whole = run_end(src, Run::Digits, pos);
    lemma_run_end_bounds(src, Run::Digits, pos + 1);
    assert(pos < whole <= src.len());
    if has_char(src, whole, '.') && whole + 1 < src.len() && is_digit(src[whole + 1]) {
        lemma_run_end_bounds(src, Run::Digits, whole + 2);
        assert(end == run_end(src, Run::Digits, whole + 2));
        assert(whole + 2 <= end <= src.len());
        let text = src.subrange(pos, end);
        lemma_run_end_in_part(src, Run::Digits, pos, end, pos);
        lemma_run_end_in_part(src, Run::Digits, pos, end, whole + 1);
        assert(text[0] == src[pos]);
        assert(text[whole - pos] == src[whole]);
        assert(text[whole + 1 - pos] == src[whole + 1]);
        assert(run_end(text, Run::Digits, 0) == whole - pos);
    } else {
        assert(end == whole);
        let text = src.subrange(pos, end);
        lemma_run_end_in_part(src, Run::Digits, pos, end, pos);
        assert(text[0] == src[pos]);
        assert(run_end(text, Run::Digits, 0) == text.len());
    }
}

/// A character takes from one to four bytes.
pub proof fn lemma_byte_width_bounds(c: char)
    ensures
        1 <= byte_width(c) <= 4,
{
}

/// Byte offsets grow with the index, by at least one per character.
pub proof fn lemma_offset_grows(src: Seq<char>, i: int, j: int)
    requires
        0 <= i <= j <= src.len(),
    ensures
        i <= offset_of(src, i),
        offset_of(src, i) + (j - i) <= offset_of(src, j),
    decreases j,
{
    if i < j {
        lemma_offset_grows(src, i, j - 1);
        lemma_byte_width_bounds(src[j - 1]);
    } else if i > 0 {
        lemma_offset_grows(src, i - 1, i - 1);
        lemma_byte_width_bounds(src[i - 1]);
    }
}

/// The encoding of two texts in a row is the two encodings in a row.
pub proof fn lemma_encoding_of_concatenation(a: Seq<char>, b: Seq<char>)
    ensures
        encode_utf8(a + b) == encode_utf8(a) + encode_utf8(b),
    decreases a.len(),
{
    if a.len() == 0 {
        assert(a + b =~= b);
        assert(encode_utf8(a) + encode_utf8(b) =~= encode_utf8(b));
    } else {
        lemma_encoding_of_concatenation(a.drop_first(), b);
        assert((a + b).drop_first() =~= a.drop_first() + b);
        assert(encode_utf8(a + b) =~= encode_utf8(a) + encode_utf8(b));
    }
}

/// The byte offset of index `i` is the length of the UTF-8 encoding of the
/// text in front of it.
pub proof fn lemma_offset_is_encoded_length(src: Seq<char>, i: int)
    requires
        0 <= i <= src.len(),
    ensures
        offset_of(src, i) == encode_utf8(src.take(i)).len(),
    decreases i,
{
    if i > 0 {
        lemma_offset_is_encoded_length(src, i - 1);
        let last = seq![src[i - 1]];
        lemma_encoding_of_concatenation(src.take(i - 1), last);
        assert(src.take(i) =~= src.take(i - 1) + last);
        assert(last.drop_first() =~= Seq::<char>::empty());
        assert(encode_utf8(last.drop_first()) =~= Seq::<u8>::empty());
        assert(encode_utf8(last) =~= encode_scalar(src[i - 1] as u32));
    } else {
        assert(src.take(0) =~= Seq::<char>::empty());
    }
}

/// What a scan reads before it stops holds no end token, and it stops
/// inside the text or at its end. A scan that succeeds stops at the end,
/// and its tokens are those read and the end token; one that fails stops in
/// front of the end.
pub proof fn lemma_scan_reach(src: Seq<char>, pos: int, first: int)
    requires
        0 <= pos <= src.len(),
    ensures
        eof_free(scan_reach(src, pos, first).0),
        pos <= scan_reach(src, pos, first).1 <= src.len(),
        match scan_from(src, pos, first) {
            Ok(tokens) => scan_reach(src, pos, first).1 == src.len() && tokens == scan_reach(
                src,
                pos,
                first,
            ).0.push(eof_token(src, first)),
            Err(_) => scan_reach(src, pos, first).1 < src.len(),
        },
    decreases src.len() - pos,
{
    if pos < src.len() {
        lemma_lexeme_advances(src, pos);
        match lexeme_at(src, pos) {
            Lexeme::Blank { end } => {
                lemma_scan_reach(src, end, first);
            },
            Lexeme::Token { kind, text, end } => {
                lemma_scan_reach(src, end, first);
                let one = seq![token_at(text, kind, position_of(src, pos, first))];
                let rest = scan_reach(src, end, first).0;
                assert((one + rest).push(eof_token(src, first)) =~= one + rest.push(
                    eof_token(src, first),
                ));
            },
            _ => {},
        }
    } else {
        assert(seq![eof_token(src, first)] =~= Seq::<TokenView>::empty().push(
            eof_token(src, first),
        ));
    }
}

/// Two runs of tokens in a row hold no end token where neither does.
pub proof fn lemma_eof_free_concat(a: Seq<TokenView>, b: Seq<TokenView>)
    ensures
        eof_free(a) && eof_free(b) ==> eof_free(a + b),
{
    if eof_free(a) && eof_free(b) {
        assert forall|i: int| 0 <= i < (a + b).len() implies (#[trigger] (a + b)[i]).kind
            != TokenKind::Eof by {
            if i < a.len() {
                assert((a + b)[i] == a[i]);
            } else {
                assert((a + b)[i] == b[i - a.len()]);
            }
        }
    }
}

/// A successful scan ends with the end token and holds no other.
pub proof fn lemma_scan_ends_with_single_eof(src: Seq<char>, pos: int, first: int)
    ensures
        match scan_from(src, pos, first) {
            Ok(tokens) => {
                &&& tokens.len() >= 1
                &&& tokens.last() == eof_token(src, first)
                &&& forall|i: int| 0 <= i < tokens.len() - 1 ==> tokens[i].kind != TokenKind::Eof
            },
            Err(_) => true,
        },
    decreases src.len() - pos,
{
    if pos < 0 || pos >= src.len() {
    } else {
        lemma_lexeme_advances(src, pos);
        match lexeme_at(src, pos) {
            Lexeme::Blank { end } => {
                lemma_scan_ends_with_single_eof(src, end, first);
            },
            Lexeme::Token { kind, text, end } => {
                lemma_scan_ends_with_single_eof(src, end, first);
            },
            _ => {},
        }
    }
}

/// A scanner over one source text. It appends to the tokens it was given.
pub struct Scanner {
    source: String,
    chars: Vec<char>,
    tokens: Vec<Token>,
    /// Index of the first character of the lexeme being read.
    start: usize,
    /// Index of the character being looked at.
    current: usize,
    /// Row of the character being looked at.
    line: usize,
    /// Column of the character being looked at.
    column: usize,
    /// Byte offset of the character being looked at.
    offset: usize,
    /// Column of the first character of the text.
    first_column: usize,
    /// Row, column and byte offset of the first character of the lexeme
    /// being read.
    start_line: usize,
    start_column: usize,
    start_offset: usize,
}

/// The number of bytes that `c` takes in UTF-8.
pub fn utf8_width(c: char) -> (w: usize)
    ensures
        w == byte_width(c),
{
    let v = c as u32;
    if v <= 0x7F {
        1
    } else if v <= 0x7FF {
        2
    } else if v <= 0xFFFF {
        3
    } else {
        4
    }
}

/// Calls `char::is_alphabetic` of the standard library, which tells
/// whether a character has Unicode's Alphabetic property. The contract
/// says what that is in ASCII, the letters of the Latin alphabet, and names
/// the result beyond ASCII.
#[verifier::external_body]
fn char_is_alphabetic(c: char) -> (b: bool)
    ensures
        is_ascii_char(c) ==> b == is_ascii_letter(c),
        !is_ascii_char(c) ==> b == alphabetic_char(c),
{
    c.is_alphabetic()
}

/// Calls `char::is_alphanumeric` of the standard library, which tells
/// whether a character is alphabetic or numeric to Unicode. The contract
/// says what that is in ASCII, the Latin letters and the decimal digits,
/// and names the result beyond ASCII.
#[verifier::external_body]
fn char_is_alphanumeric(c: char) -> (b: bool)
    ensures
        is_ascii_char(c) ==> b == (is_ascii_letter(c) || is_digit(c)),
        !is_ascii_char(c) ==> b == alphanumeric_char(c),
{
    c.is_alphanumeric()
}

/// Whether `c` is a decimal digit.
pub fn is_digit_char(c: char) -> (b: bool)
    ensures
        b == is_digit(c),
{
    '0' <= c && c <= '9'
}

/// The index at which the run of digits that starts at `from` ends.
fn digits_end(chars: &Vec<char>, from: usize) -> (end: usize)
    requires
        from <= chars@.len(),
    ensures
        end == run_end(chars@, Run::Digits, from as int),
        from <= end <= chars@.len(),
{
    let mut end = from;
    while end < chars.len() && is_digit_char(chars[end])
        invariant
            from <= end <= chars@.len(),
            run_end(chars@, Run::Digits, end as int) == run_end(chars@, Run::Digits, from as int),
        decreases chars@.len() - end,
    {
        end += 1;
    }
    end
}

/// Whether a text is a number as the scanner reads one, and nothing else.
pub fn is_decimal_text(text: &str) -> (b: bool)
    ensures
        b == is_decimal(text@),
{
    let chars = chars_of(text);
    if chars.len() == 0 || !is_digit_char(chars[0]) {
        return false;
    }
    let whole = digits_end(&chars, 0);
    if whole < chars.len() && chars[whole] == '.' && whole + 1 < chars.len() && is_digit_char(
        chars[whole + 1],
    ) {
        digits_end(&chars, whole + 1) == chars.len()
    } else {
        whole == chars.len()
    }
}

/// The characters of a text, in order. A text of ASCII characters alone is
/// read byte by byte; any other is read character by character, each from
/// the start of the text.
fn chars_of(text: &str) -> (chars: Vec<char>)
    ensures
        chars@ == text@,
{
    let n = text.unicode_len();
    let ascii = text.is_ascii();
    let mut chars: Vec<char> = Vec::with_capacity(n);
    let mut i: usize = 0;
    while i < n
        invariant
            n == text@.len(),
            i <= n,
            ascii == is_ascii(text),
            chars@ == text@.subrange(0, i as int),
        decreases n - i,
    {
        let c = if ascii {
            let b = text.get_ascii(i);
            proof {
                let at = text@[i as int];
                assert('\0' <= at <= '\u{7f}');
                assert(at as u8 == b);
                assert(b as char == at);
            }
            b as char
        } else {
            text.get_char(i)
        };
        chars.push(c);
        i += 1;
        proof {
            assert(chars@ =~= text@.subrange(0, i as int));
        }
    }
    proof {
        assert(text@.subrange(0, n as int) =~= text@);
    }
    chars
}

/// The reserved word that `text` is, if it is one.
pub fn keyword(text: &String) -> (kind: Option<TokenKind>)
    ensures
        kind == keyword_kind(text@),
{
    if *text == String::from_str("and") {
        Some(TokenKind::And)
    } else if *text == String::from_str("class") {
        Some(TokenKind::Class)
    } else if *text == String::from_str("else") {
        Some(TokenKind::Else)
    } else if *text == String::from_str("false") {
        Some(TokenKind::False)
    } else if *text == String::from_str("for") {
        Some(TokenKind::For)
    } else if *text == String::from_str("fun") {
        Some(TokenKind::Fun)
    } else if *text == String::from_str("if") {
        Some(TokenKind::If)
    } else if *text == String::from_str("nil") {
        Some(TokenKind::Nil)
    } else if *text == String::from_str("or") {
        Some(TokenKind::Or)
    } else if *text == String::from_str("print") {
        Some(TokenKind::Print)
    } else if *text == String::from_str("return") {
        Some(TokenKind::Return)
    } else if *text == String::from_str("super") {
        Some(TokenKind::Super)
    } else if *text == String::from_str("this") {
        Some(TokenKind::This)
    } else if *text == String::from_str("true") {
        Some(TokenKind::True)
    } else if *text == String::from_str("var") {
        Some(TokenKind::Var)
    } else if *text == String::from_str("while") {
        Some(TokenKind::While)
    } else {
        None
    }
}

impl Scanner {
    /// The text being scanned.
    pub closed spec fn source_view(&self) -> Seq<char> {
        self.source@
    }

    /// The tokens held so far.
    pub closed spec fn tokens_view(&self) -> Seq<TokenView> {
        token_views(self.tokens@)
    }

    /// The index of the next character to read.
    pub closed spec fn cursor(&self) -> int {
        self.current as int
    }

    /// The column given to the first character of the text.
    pub closed spec fn first(&self) -> int {
        self.first_column as int
    }

    /// The scanner's invariant: the cursors lie inside the text, and the
    /// row and column counters are those of the characters they stand for.
    pub closed spec fn wf(&self) -> bool {
        &&& self.chars@ == self.source@
        &&& self.start <= self.current <= self.chars@.len()
        &&& offset_of(self.chars@, self.chars@.len() as int) + self.first_column < usize::MAX
        &&& self.line == line_of(self.chars@, self.current as int)
        &&& self.column == column_of(self.chars@, self.current as int, self.first_column as int)
        &&& self.offset == offset_of(self.chars@, self.current as int)
        &&& self.start_line == line_of(self.chars@, self.start as int)
        &&& self.start_column == column_of(self.chars@, self.start as int, self.first_column as int)
        &&& self.start_offset == offset_of(self.chars@, self.start as int)
    }

    /// Where the lexeme being read starts.
    spec fn start_position(&self) -> Position {
        position_of(self.chars@, self.start as int, self.first_column as int)
    }

    /// Whether only the cursor and the counters that follow it differ.
    spec fn moved_from(&self, before: &Scanner) -> bool {
        &&& self.source == before.source
        &&& self.chars == before.chars
        &&& self.tokens == before.tokens
        &&& self.start == before.start
        &&& self.first_column == before.first_column
        &&& self.start_line == before.start_line
        &&& self.start_column == before.start_column
        &&& self.start_offset == before.start_offset
    }

    /// A scanner at the start of `source`, whose first character stands in
    /// column `column` of row 1, and which appends to `tokens`. The bytes of
    /// the text and the column must together stay below the largest `usize`,
    /// so that every row, column and offset can be counted.
    pub fn new(source: String, tokens: Vec<Token>, column: usize) -> (s: Self)
        requires
            encode_utf8(source@).len() + column < usize::MAX,
        ensures
            s.wf(),
            s.source_view() == source@,
            s.tokens_view() == token_views(tokens@),
            s.cursor() == 0,
            s.first() == column,
    {
        let chars = chars_of(source.as_str());
        proof {
            lemma_offset_is_encoded_length(chars@, chars@.len() as int);
            assert(chars@.take(chars@.len() as int) =~= chars@);
        }
        Scanner {
            source,
            chars,
            tokens,
            start: 0,
            current: 0,
            line: 1,
            column,
            offset: 0,
            first_column: column,
            start_line: 1,
            start_column: column,
            start_offset: 0,
        }
    }

    /// Whether every character has been read.
    fn is_at_the_end(&self) -> (b: bool)
        ensures
            b == (self.current >= self.chars@.len()),
    {
        self.current >= self.chars.len()
    }

    /// Scans the rest of the text and returns all tokens held then, the
    /// last of them the end token; or the first error, at which the scan
    /// stops with the cursor in front of the lexeme that failed and the
    /// tokens read before it held. A scan that is closed already returns
    /// the tokens held and appends no second end token.
    pub fn get_tokens(&mut self) -> (r: Result<Vec<Token>, Error>)
        requires
            old(self).wf(),
        ensures
            final(self).wf(),
            final(self).source_view() == old(self).source_view(),
            final(self).first() == old(self).first(),
            scan_view(r) == scan_on(
                old(self).tokens_view(),
                old(self).source_view(),
                old(self).cursor(),
                old(self).first(),
            ),
            final(self).tokens_view() == old(self).tokens_view() + (if r is Ok && !is_closed(
                old(self).tokens_view(),
                old(self).source_view(),
                old(self).cursor(),
            ) {
                scan_reach(
                    old(self).source_view(),
                    old(self).cursor(),
                    old(self).first(),
                ).0.push(eof_token(old(self).source_view(), old(self).first()))
            } else if r is Ok {
                Seq::empty()
            } else {
                scan_reach(old(self).source_view(), old(self).cursor(), old(self).first()).0
            }),
            final(self).cursor() == scan_reach(
                old(self).source_view(),
                old(self).cursor(),
                old(self).first(),
            ).1,
            r is Ok ==> final(self).tokens_view() == token_views(r->Ok_0@),
            r is Ok ==> final(self).cursor() == old(self).source_view().len(),
            r is Ok ==> is_closed(
                final(self).tokens_view(),
                final(self).source_view(),
                final(self).cursor(),
            ),
            r is Ok && (eof_free(old(self).tokens_view()) || (single_eof(old(self).tokens_view())
                && old(self).cursor() == old(self).source_view().len())) ==> single_eof(
                token_views(r->Ok_0@),
            ),
            r is Err && eof_free(old(self).tokens_view()) ==> eof_free(final(self).tokens_view()),
    {
        let ghost src = self.chars@;
        let ghost first = self.first_column as int;
        let ghost given = token_views(self.tokens@);
        let ghost from = self.current as int;
        proof {
            lemma_scan_reach(src, from, first);
        }
        if self.is_at_the_end() && self.ends_with_eof() {
            let tokens = self.copy_tokens();
            proof {
                assert(given.last() == self.tokens@.last()@);
                assert(given + Seq::<TokenView>::empty() =~= given);
            }
            return Ok(tokens);
        }
        proof {
            assert(given.len() > 0 ==> given.last() == self.tokens@.last()@);
            assert(!is_closed(given, src, from));
            assert(given + Seq::<TokenView>::empty() =~= given);
        }
        while !self.is_at_the_end()
            invariant
                self.wf(),
                old(self).wf(),
                self.chars@ == src,
                src == old(self).chars@,
                self.first_column as int == first,
                self.first_column == old(self).first_column,
                self.source == old(self).source,
                given == token_views(old(self).tokens@),
                from == old(self).current,
                !is_closed(given, src, from),
                prepend(token_views(self.tokens@), scan_from(src, self.current as int, first))
                    == prepend(given, scan_from(src, from, first)),
                token_views(self.tokens@) + scan_reach(src, self.current as int, first).0 == given
                    + scan_reach(src, from, first).0,
                scan_reach(src, self.current as int, first).1 == scan_reach(src, from, first).1,
            decreases self.chars@.len() - self.current,
        {
            self.begin_lexeme();
            let ghost before = token_views(self.tokens@);
            let ghost pos = self.current as int;
            proof {
                lemma_lexeme_advances(src, pos);
            }
            match self.scan_token() {
                Ok(_) => {
                    proof {
                        match lexeme_at(src, pos) {
                            Lexeme::Token { kind, text, end } => {
                                let one = seq![token_at(text, kind, position_of(src, pos, first))];
                                let rest = scan_from(src, end, first);
                                assert(before.push(one[0]) =~= before + one);
                                if let Ok(more) = rest {
                                    assert((before + one) + more =~= before + (one + more));
                                }
                                assert((before + one) + scan_reach(src, end, first).0 =~= before
                                    + (one + scan_reach(src, end, first).0));
                            },
                            _ => {},
                        }
                    }
                },
                Err(e) => {
                    proof {
                        assert(scan_reach(src, pos, first).0 =~= Seq::<TokenView>::empty());
                        assert(before + Seq::<TokenView>::empty() =~= before);
                        lemma_scan_reach(src, from, first);
                        lemma_eof_free_concat(given, scan_reach(src, from, first).0);
                    }
                    return Err(e);
                },
            }
        }
        self.begin_lexeme();
        let ghost before = token_views(self.tokens@);
        self.add_token(TokenKind::Eof, Some(String::new()));
        let tokens = self.copy_tokens();
        proof {
            let eof = eof_token(src, first);
            let read = scan_reach(src, from, first).0;
            assert(scan_reach(src, self.current as int, first).0 =~= Seq::<TokenView>::empty());
            assert(before + Seq::<TokenView>::empty() =~= before);
            assert(before == given + read);
            assert(before + seq![eof] =~= before.push(eof));
            assert((given + read).push(eof) =~= given + read.push(eof));
            assert(token_views(tokens@).last() == eof);
            assert(token_views(tokens@).drop_last() =~= given + read);
            lemma_eof_free_concat(given, read);
        }
        Ok(tokens)
    }

    /// Puts the cursor back to where the lexeme being read starts.
    fn rewind(&mut self)
        requires
            old(self).wf(),
        ensures
            final(self).wf(),
            final(self).moved_from(old(self)),
            final(self).current == old(self).start,
    {
        self.current = self.start;
        self.line = self.start_line;
        self.column = self.start_column;
        self.offset = self.start_offset;
    }

    /// Whether the last token held is an end token.
    fn ends_with_eof(&self) -> (b: bool)
        ensures
            b == (self.tokens@.len() > 0 && self.tokens@.last()@.kind == TokenKind::Eof),
    {
        let n = self.tokens.len();
        n > 0 && self.tokens[n - 1].kind == TokenKind::Eof
    }

    /// Lets the next lexeme start at the cursor.
    fn begin_lexeme(&mut self)
        requires
            old(self).wf(),
        ensures
            final(self).wf(),
            final(self).source == old(self).source,
            final(self).chars == old(self).chars,
            final(self).tokens == old(self).tokens,
            final(self).current == old(self).current,
            final(self).first_column == old(self).first_column,
            final(self).start == old(self).current,
    {
        self.start = self.current;
        self.start_line = self.line;
        self.start_column = self.column;
        self.start_offset = self.offset;
    }

    /// A copy of the tokens held.
    fn copy_tokens(&self) -> (tokens: Vec<Token>)
        ensures
            token_views(tokens@) == token_views(self.tokens@),
    {
        let mut tokens: Vec<Token> = Vec::with_capacity(self.tokens.len());
        let mut i: usize = 0;
        while i < self.tokens.len()
            invariant
                i <= self.tokens@.len(),
                tokens@.len() == i,
                forall|j: int| 0 <= j < i ==> tokens@[j]@ == self.tokens@[j]@,
            decreases self.tokens@.len() - i,
        {
            tokens.push(self.tokens[i].clone());
            i += 1;
        }
        proof {
            assert(token_views(tokens@) =~= token_views(self.tokens@));
        }
        tokens
    }

    /// Appends a token that starts where the lexeme being read starts. Its
    /// text is `value`, or else the characters read since then.
    fn add_token(&mut self, kind: TokenKind, value: Option<String>)
        requires
            old(self).wf(),
        ensures
            final(self).wf(),
            final(self).source == old(self).source,
            final(self).chars == old(self).chars,
            final(self).start == old(self).start,
            final(self).current == old(self).current,
            final(self).first_column == old(self).first_column,
            token_views(final(self).tokens@) == token_views(old(self).tokens@).push(
                token_at(
                    match value {
                        Some(v) => v@,
                        None => old(self).chars@.subrange(
                            old(self).start as int,
                            old(self).current as int,
                        ),
                    },
                    kind,
                    old(self).start_position(),
                ),
            ),
    {
        let lexeme = match value {
            Some(value) => value,
            None => String::from_str(self.source.as_str().substring_char(self.start, self.current)),
        };
        let token = Token::new(
            lexeme,
            kind,
            self.start_line,
            self.start_column,
            self.start_offset,
        );
        self.tokens.push(token);
        proof {
            assert(token_views(self.tokens@) =~= token_views(old(self).tokens@).push(token@));
        }
    }

    /// Reads one lexeme, which starts at the cursor, and appends its token
    /// if it has one.
    fn scan_token(&mut self) -> (r: Result<(), Error>)
        requires
            old(self).wf(),
            old(self).current < old(self).chars@.len(),
            old(self).start == old(self).current,
        ensures
            final(self).wf(),
            final(self).source == old(self).source,
            final(self).chars == old(self).chars,
            final(self).first_column == old(self).first_column,
            match lexeme_at(old(self).chars@, old(self).current as int) {
                Lexeme::Blank { end } => {
                    &&& r is Ok
                    &&& final(self).current == end
                    &&& final(self).tokens == old(self).tokens
                },
                Lexeme::Token { kind, text, end } => {
                    &&& r is Ok
                    &&& final(self).current == end
                    &&& token_views(final(self).tokens@) == token_views(old(self).tokens@).push(
                        token_at(text, kind, old(self).start_position()),
                    )
                },
                Lexeme::Unterminated => {
                    &&& r is Err
                    &&& r->Err_0@ == plain_error(
                        ErrorKind::Syntax,
                        "unterminated string literal"@,
                        old(self).start_position(),
                    )
                    &&& final(self).current == old(self).current
                    &&& final(self).tokens == old(self).tokens
                },
                Lexeme::Unexpected => {
                    &&& r is Err
                    &&& r->Err_0@ == plain_error(
                        ErrorKind::Syntax,
                        "unexpected character"@,
                        old(self).start_position(),
                    )
                    &&& final(self).current == old(self).current
                    &&& final(self).tokens == old(self).tokens
                },
            },
    {
        let position = Position::new(self.start_line, self.start_column, self.start_offset);
        let c = self.advance();
        match c {
            '(' => self.add_token(TokenKind::LeftParen, None),
            ')' => self.add_token(TokenKind::RightParen, None),
            '{' => self.add_token(TokenKind::LeftBrace, None),
            '}' => self.add_token(TokenKind::RightBrace, None),
            ',' => self.add_token(TokenKind::Comma, None),
            '.' => self.add_token(TokenKind::Dot, None),
            '-' => self.add_token(TokenKind::Minus, None),
            '+' => self.add_token(TokenKind::Plus, None),
            ';' => self.add_token(TokenKind::Semicolon, None),
            '*' => self.add_token(TokenKind::Star, None),
            ':' => self.add_token(TokenKind::Colon, None),
            '?' => self.add_token(TokenKind::Question, None),
            '!' => if self.peek_match('=') {
                self.add_token(TokenKind::BangEqual, None)
            } else {
                self.add_token(TokenKind::Bang, None)
            },
            '=' => if self.peek_match('=') {
                self.add_token(TokenKind::EqualEqual, None)
            } else {
                self.add_token(TokenKind::Equal, None)
            },
            '>' => if self.peek_match('=') {
                self.add_token(TokenKind::GreaterEqual, None)
            } else {
                self.add_token(TokenKind::Greater, None)
            },
            '<' => if self.peek_match('=') {
                self.add_token(TokenKind::LessEqual, None)
            } else {
                self.add_token(TokenKind::Less, None)
            },
            '/' => if self.peek_match('/') {
                self.advance_over(Run::Comment);
            } else {
                self.add_token(TokenKind::Slash, None)
            },
            ' ' => {},
            '\r' => {},
            '\t' => {},
            '\n' => {},
            '"' => {
                return self.handle_string_literal();
            },
            _ => {
                if is_digit_char(c) {
                    self.handle_number_literal();
                } else if Self::is_alphabetic(c) {
                    self.handle_identifier();
                } else {
                    self.rewind();
                    return Err(Error::syntax("unexpected character", position));
                }
            },
        }
        Ok(())
    }

    /// Reads the character at the cursor and moves past it.
    fn advance(&mut self) -> (c: char)
        requires
            old(self).wf(),
            old(self).current < old(self).chars@.len(),
        ensures
            final(self).wf(),
            final(self).moved_from(old(self)),
            final(self).current == old(self).current + 1,
            c == old(self).chars@[old(self).current as int],
    {
        proof {
            lemma_position_bounds(self.chars@, self.current as int, self.first_column as int);
            lemma_offset_grows(self.chars@, self.current as int, self.chars@.len() as int);
            lemma_offset_grows(self.chars@, self.current + 1, self.chars@.len() as int);
            lemma_byte_width_bounds(self.chars@[self.current as int]);
        }
        let c = self.chars[self.current];
        self.current += 1;
        self.offset += utf8_width(c);
        if c == '\n' {
            self.line += 1;
            self.column = 1;
        } else {
            self.column += 1;
        }
        c
    }

    /// Moves the cursor to the end of the run of the given kind that starts
    /// at it.
    fn advance_over(&mut self, run: Run)
        requires
            old(self).wf(),
        ensures
            final(self).wf(),
            final(self).moved_from(old(self)),
            final(self).current == run_end(old(self).chars@, run, old(self).current as int),
    {
        while self.current < self.chars.len() && Self::goes_on(run, self.chars[self.current])
            invariant
                self.wf(),
                self.moved_from(old(self)),
                run_end(self.chars@, run, self.current as int) == run_end(
                    old(self).chars@,
                    run,
                    old(self).current as int,
                ),
            decreases self.chars@.len() - self.current,
        {
            self.advance();
        }
    }

    /// Whether a run of the given kind goes on over `c`.
    fn goes_on(run: Run, c: char) -> (b: bool)
        ensures
            b == continues(run, c),
    {
        match run {
            Run::Digits => is_digit_char(c),
            Run::Word => Self::is_alphanumeric(c),
            Run::Comment => c != '\n',
            Run::Text => c != '"',
        }
    }

    /// The character after the one at the cursor, or NUL where there is
    /// none.
    fn peek_next(&self) -> (c: char)
        requires
            self.wf(),
        ensures
            self.current + 1 < self.chars@.len() ==> c == self.chars@[self.current + 1],
            self.current + 1 >= self.chars@.len() ==> c == '\0',
    {
        proof {
            lemma_offset_grows(self.chars@, self.current as int, self.chars@.len() as int);
        }
        if self.current + 1 >= self.chars.len() {
            return '\0';
        }
        self.chars[self.current + 1]
    }

    /// The character at the cursor, or NUL at the end of the text.
    fn peek(&self) -> (c: char)
        requires
            self.wf(),
        ensures
            self.current < self.chars@.len() ==> c == self.chars@[self.current as int],
            self.current >= self.chars@.len() ==> c == '\0',
    {
        if self.is_at_the_end() {
            return '\0';
        }
        self.chars[self.current]
    }

    /// Moves past the character at the cursor if it is `next`, and says
    /// whether it did.
    fn peek_match(&mut self, next: char) -> (b: bool)
        requires
            old(self).wf(),
        ensures
            final(self).wf(),
            final(self).moved_from(old(self)),
            b == has_char(old(self).chars@, old(self).current as int, next),
            final(self).current == if b {
                old(self).current + 1
            } else {
                old(self).current as int
            },
    {
        if self.is_at_the_end() || self.chars[self.current] != next {
            return false;
        }
        self.advance();
        true
    }

    /// Reads a number whose first digit has been read: the digits that
    /// follow, and a dot with the digits after it where a digit follows the
    /// dot. The token's text is the text read.
    fn handle_number_literal(&mut self)
        requires
            old(self).wf(),
            old(self).current == old(self).start + 1,
            is_digit(old(self).chars@[old(self).start as int]),
        ensures
            final(self).wf(),
            final(self).source == old(self).source,
            final(self).chars == old(self).chars,
            final(self).first_column == old(self).first_column,
            final(self).current == number_end(old(self).chars@, old(self).start as int),
            token_views(final(self).tokens@) == token_views(old(self).tokens@).push(
                token_at(
                    old(self).chars@.subrange(
                        old(self).start as int,
                        number_end(old(self).chars@, old(self).start as int),
                    ),
                    TokenKind::Number,
                    old(self).start_position(),
                ),
            ),
    {
        self.advance_over(Run::Digits);
        if self.peek() == '.' && is_digit_char(self.peek_next()) {
            self.advance();
            self.advance_over(Run::Digits);
        }
        self.add_token(TokenKind::Number, None);
    }

    /// Reads a string whose opening quote has been read, up to the closing
    /// quote. The token's text is what stands between the two.
    fn handle_string_literal(&mut self) -> (r: Result<(), Error>)
        requires
            old(self).wf(),
            old(self).current == old(self).start + 1,
        ensures
            final(self).wf(),
            final(self).source == old(self).source,
            final(self).chars == old(self).chars,
            final(self).first_column == old(self).first_column,
            ({
                let close = run_end(old(self).chars@, Run::Text, old(self).start + 1);
                if close >= old(self).chars@.len() {
                    &&& r is Err
                    &&& r->Err_0@ == plain_error(
                        ErrorKind::Syntax,
                        "unterminated string literal"@,
                        old(self).start_position(),
                    )
                    &&& final(self).current == old(self).start
                    &&& final(self).tokens == old(self).tokens
                } else {
                    &&& r is Ok
                    &&& final(self).current == close + 1
                    &&& token_views(final(self).tokens@) == token_views(old(self).tokens@).push(
                        token_at(
                            old(self).chars@.subrange(old(self).start + 1, close),
                            TokenKind::String,
                            old(self).start_position(),
                        ),
                    )
                }
            }),
    {
        self.advance_over(Run::Text);
        proof {
            lemma_run_end_bounds(self.chars@, Run::Text, self.start + 1);
        }
        if self.is_at_the_end() {
            self.rewind();
            return Err(
                Error::syntax(
                    "unterminated string literal",
                    Position::new(self.start_line, self.start_column, self.start_offset),
                ),
            );
        }
        self.advance();
        let value = String::from_str(
            self.source.as_str().substring_char(self.start + 1, self.current - 1),
        );
        self.add_token(TokenKind::String, Some(value));
        Ok(())
    }

    /// Reads a word whose first character has been read; the token is that
    /// of the reserved word it is, or a name.
    fn handle_identifier(&mut self)
        requires
            old(self).wf(),
            old(self).current == old(self).start + 1,
            is_alphabetic(old(self).chars@[old(self).start as int]),
        ensures
            final(self).wf(),
            final(self).source == old(self).source,
            final(self).chars == old(self).chars,
            final(self).first_column == old(self).first_column,
            final(self).current == run_end(old(self).chars@, Run::Word, old(self).start + 1),
            token_views(final(self).tokens@) == token_views(old(self).tokens@).push(
                token_at(
                    old(self).chars@.subrange(old(self).start as int, final(self).current as int),
                    word_kind(
                        old(self).chars@.subrange(
                            old(self).start as int,
                            final(self).current as int,
                        ),
                    ),
                    old(self).start_position(),
                ),
            ),
    {
        self.advance_over(Run::Word);
        let text = String::from_str(self.source.as_str().substring_char(self.start, self.current));
        let kind = match keyword(&text) {
            Some(kind) => kind,
            None => TokenKind::Identifier,
        };
        self.add_token(kind, Some(text));
    }

    /// Whether a name can go on with `c`.
    pub fn is_alphanumeric(c: char) -> (b: bool)
        ensures
            b == is_alphanumeric(c),
    {
        char_is_alphanumeric(c) || c == '_'
    }

    /// Whether a name can start with `c`.
    pub fn is_alphabetic(c: char) -> (b: bool)
        ensures
            b == is_alphabetic(c),
    {
        char_is_alphabetic(c) || c == '_'
    }
}

} // verus!
