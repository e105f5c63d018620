//! The lexer: from source text to tokens.

use super::grammar::Lexed;
use super::token::Token;
use vstd::prelude::*;
use vstd::utf8::{encode_scalar, encode_utf8};

verus! {

/// A token of the source with its text and the positions, counted in
/// bytes, at which it begins and ends.
#[derive(Debug)]
pub struct Lexeme {
    pub token: Token,
    pub text: String,
    pub start: usize,
    pub end: usize,
}

impl View for Lexeme {
    type V = Lexed;

    open spec fn view(&self) -> Lexed {
        Lexed { token: self.token, text: self.text@, start: self.start, end: self.end }
    }
}

/// The tokens of a list of lexemes with their texts, in order.
pub open spec fn lexemes_model(lexemes: &Vec<Lexeme>) -> Seq<Lexed> {
    Seq::new(lexemes.len() as nat, |i: int| lexemes[i]@)
}

} // verus!

verus! {

/// A class of characters that a token is a run of.
#[derive(PartialEq, Eq, Structural, Clone, Copy, Debug)]
pub enum CharClass {
    /// Letters, digits and `_`
    Word,
    /// Decimal digits
    Digit,
    /// Whitespace
    Space,
}

/// Whether a character can begin an identifier.
pub open spec fn is_letter(c: char) -> bool {
    ('a' <= c && c <= 'z') || ('A' <= c && c <= 'Z') || c == '_'
}

/// Whether a character is a decimal digit.
pub open spec fn is_digit(c: char) -> bool {
    '0' <= c && c <= '9'
}

/// Whether a character is whitespace.
pub open spec fn is_space(c: char) -> bool {
    let code = c as u32;
    (0x09 <= code && code <= 0x0D) || code == 0x20 || code == 0x85 || code == 0xA0 || code
        == 0x1680 || (0x2000 <= code && code <= 0x200A) || code == 0x2028 || code == 0x2029
        || code == 0x202F || code == 0x205F || code == 0x3000
}

/// Whether a character belongs to a class.
pub open spec fn in_class(c: char, class: CharClass) -> bool {
    match class {
        CharClass::Word => is_letter(c) || is_digit(c),
        CharClass::Digit => is_digit(c),
        CharClass::Space => is_space(c),
    }
}

/// The first position from `pos` on whose character is not in `class`, or
/// the length of the text.
pub open spec fn run_end(text: Seq<char>, pos: int, class: CharClass) -> int
    decreases text.len() - pos,
{
    if 0 <= pos < text.len() && in_class(text[pos], class) {
        run_end(text, pos + 1, class)
    } else {
        pos
    }
}

/// The position behind the quote that closes the string literal whose
/// body is read from `pos` on, or -1 when nothing closes it. A backslash
/// takes the character behind it with it.
pub open spec fn string_end(text: Seq<char>, pos: int) -> int
    decreases text.len() - pos,
{
    if !(0 <= pos < text.len()) {
        -1
    } else if text[pos] == '"' {
        pos + 1
    } else if text[pos] == '\\' {
        if pos + 1 < text.len() {
            string_end(text, pos + 2)
        } else {
            -1
        }
    } else {
        string_end(text, pos + 1)
    }
}

/// The position behind the first line feed from `pos` on, or -1 when there
/// is none.
pub open spec fn line_end(text: Seq<char>, pos: int) -> int
    decreases text.len() - pos,
{
    if !(0 <= pos < text.len()) {
        -1
    } else if text[pos] == '\n' {
        pos + 1
    } else {
        line_end(text, pos + 1)
    }
}

/// The token that a word is: a keyword, the name of a primitive type, a
/// boolean literal, or else an identifier.
pub open spec fn word_token(word: Seq<char>) -> Token {
    if word == "fun"@ {
        Token::Fun
    } else if word == "mod"@ {
        Token::Mod
    } else if word == "var"@ {
        Token::Var
    } else if word == "static"@ {
        Token::Static
    } else if word == "cont"@ {
        Token::Cont
    } else if word == "ext"@ {
        Token::Ext
    } else if word == "pub"@ {
        Token::Pub
    } else if word == "intf"@ {
        Token::Intf
    } else if word == "enum"@ {
        Token::Enum
    } else if word == "as"@ {
        Token::As
    } else if word == "for"@ {
        Token::For
    } else if word == "in"@ {
        Token::In
    } else if word == "on"@ {
        Token::On
    } else if word == "yield"@ {
        Token::Yield
    } else if word == "import"@ {
        Token::Import
    } else if word == "this"@ {
        Token::This
    } else if word == "else"@ {
        Token::Else
    } else if word == "while"@ {
        Token::While
    } else if word == "break"@ {
        Token::Break
    } else if word == "continue"@ {
        Token::Continue
    } else if word == "return"@ {
        Token::Return
    } else if word == "int"@ || word == "bool"@ || word == "float"@ || word == "string"@ {
        Token::PrimitiveType
    } else if word == "true"@ || word == "false"@ {
        Token::BoolLiteral
    } else {
        Token::Identifier
    }
}

/// The token of two characters that begins with `first` and `second`.
pub open spec fn pair_token(first: char, second: char) -> Option<Token> {
    if first == '<' && second == '=' {
        Some(Token::LessThanEquals)
    } else if first == '>' && second == '=' {
        Some(Token::GreaterThanEquals)
    } else if first == '=' && second == '=' {
        Some(Token::Equals)
    } else if first == '!' && second == '=' {
        Some(Token::NotEquals)
    } else if first == '+' && second == '=' {
        Some(Token::AddAssign)
    } else if first == '-' && second == '=' {
        Some(Token::SubAssign)
    } else if first == '*' && second == '=' {
        Some(Token::MulAssign)
    } else if first == '/' && second == '=' {
        Some(Token::DivAssign)
    } else if first == ':' && second == ':' {
        Some(Token::DoubleColon)
    } else if first == '.' && second == '.' {
        Some(Token::DoubleDot)
    } else {
        None
    }
}

/// The token of one character that is `c`.
pub open spec fn single_token(c: char) -> Option<Token> {
    if c == '+' {
        Some(Token::Plus)
    } else if c == '-' {
        Some(Token::Minus)
    } else if c == '*' {
        Some(Token::Times)
    } else if c == '/' {
        Some(Token::Divide)
    } else if c == '=' {
        Some(Token::Assign)
    } else if c == '<' {
        Some(Token::LessThan)
    } else if c == '>' {
        Some(Token::GreaterThan)
    } else if c == ';' {
        Some(Token::Semicolon)
    } else if c == ':' {
        Some(Token::Colon)
    } else if c == '.' {
        Some(Token::Dot)
    } else if c == ',' {
        Some(Token::Comma)
    } else if c == '&' {
        Some(Token::Ref)
    } else if c == '~' {
        Some(Token::Tilde)
    } else if c == '(' {
        Some(Token::OpenParan)
    } else if c == ')' {
        Some(Token::CloseParan)
    } else if c == '{' {
        Some(Token::OpenBlock)
    } else if c == '}' {
        Some(Token::CloseBlock)
    } else {
        None
    }
}

/// Whether `&this` stands at `pos`.
pub open spec fn this_ref_at(text: Seq<char>, pos: int) -> bool {
    pos + 5 <= text.len() && text[pos] == '&' && text[pos + 1] == 't' && text[pos + 2] == 'h'
        && text[pos + 3] == 'i' && text[pos + 4] == 's'
}

/// The number of bytes that the first `chars` characters of a text take.
pub open spec fn byte_offset(text: Seq<char>, chars: int) -> int {
    encode_utf8(text.take(chars)).len() as int
}

/// The bytes of two texts, one behind the other, are the bytes of the texts
/// put together.
pub proof fn lemma_bytes_of_both(first: Seq<char>, second: Seq<char>)
    ensures
        encode_utf8(first + second) == encode_utf8(first) + encode_utf8(second),
    decreases first.len(),
{
    if first.len() == 0 {
        assert(first + second =~= second);
        assert(encode_utf8(first) + encode_utf8(second) =~= encode_utf8(second));
    } else {
        assert((first + second).drop_first() =~= first.drop_first() + second);
        lemma_bytes_of_both(first.drop_first(), second);
        assert(encode_utf8(first + second) =~= encode_utf8(first) + encode_utf8(second));
    }
}

/// One character more takes the bytes of that character more, and no part
/// of a text takes more bytes than the text.
pub proof fn lemma_byte_offset_step(text: Seq<char>, chars: int)
    requires
        0 <= chars < text.len(),
    ensures
        byte_offset(text, chars + 1) == byte_offset(text, chars) + encode_scalar(
            text[chars] as u32,
        ).len(),
        byte_offset(text, chars + 1) <= encode_utf8(text).len(),
{
    let one = seq![text[chars]];
    assert(text.take(chars + 1) =~= text.take(chars) + one);
    lemma_bytes_of_both(text.take(chars), one);
    assert(one.drop_first() =~= Seq::<char>::empty());
    assert(encode_utf8(Seq::<char>::empty()) =~= Seq::<u8>::empty());
    assert(encode_utf8(one) == encode_scalar(one[0] as u32) + encode_utf8(one.drop_first()));
    assert(encode_utf8(one) =~= encode_scalar(text[chars] as u32));
    assert(text =~= text.take(chars + 1) + text.skip(chars + 1));
    lemma_bytes_of_both(text.take(chars + 1), text.skip(chars + 1));
}

/// A token with the positions, counted in characters, at which it begins
/// and ends in the text.
pub struct Span {
    pub token: Token,
    pub start: int,
    pub end: int,
}

/// The longest token that begins at `pos`, which is inside the text, and
/// the position at which it ends. Of two tokens of the same length the
/// keyword is the token. A character that begins no token is an error token.
pub open spec fn token_end(text: Seq<char>, pos: int) -> (Token, int) {
    let c = text[pos];
    if is_space(c) {
        (Token::Whitespace, run_end(text, pos, CharClass::Space))
    } else if c == '#' {
        if line_end(text, pos) > pos {
            (Token::HashLineComment, line_end(text, pos))
        } else {
            (Token::Error, pos + 1)
        }
    } else if is_letter(c) {
        let end = run_end(text, pos, CharClass::Word);
        (word_token(text.subrange(pos, end)), end)
    } else if is_digit(c) {
        let end = run_end(text, pos, CharClass::Digit);
        if end + 1 < text.len() && text[end] == '.' && is_digit(text[end + 1]) {
            (Token::FloatLiteral, run_end(text, end + 1, CharClass::Digit))
        } else {
            (Token::IntLiteral, end)
        }
    } else if c == '"' {
        if string_end(text, pos + 1) > pos {
            (Token::StringLiteral, string_end(text, pos + 1))
        } else {
            (Token::Error, pos + 1)
        }
    } else if this_ref_at(text, pos) {
        (Token::ThisRef, pos + 5)
    } else if pos + 1 < text.len() && pair_token(c, text[pos + 1]) is Some {
        (pair_token(c, text[pos + 1])->0, pos + 2)
    } else if single_token(c) is Some {
        (single_token(c)->0, pos + 1)
    } else {
        (Token::Error, pos + 1)
    }
}

/// Whether a token is handed to the parser: whitespace and comments are
/// not.
pub open spec fn is_kept(token: Token) -> bool {
    token != Token::Whitespace && token != Token::HashLineComment
}

/// The tokens of the text from `pos` on, with their positions.
pub open spec fn spans_from(text: Seq<char>, pos: int) -> Seq<Span>
    decreases text.len() - pos,
{
    if !(0 <= pos < text.len()) {
        Seq::empty()
    } else {
        let (token, end) = token_end(text, pos);
        if !(pos < end <= text.len()) {
            Seq::empty()
        } else if is_kept(token) {
            seq![Span { token, start: pos, end }] + spans_from(text, end)
        } else {
            spans_from(text, end)
        }
    }
}

/// The tokens of spans with the text that each was read from.
pub open spec fn lexed(text: Seq<char>, spans: Seq<Span>) -> Seq<Lexed> {
    Seq::new(
        spans.len(),
        |i: int|
            Lexed {
                token: spans[i].token,
                text: text.subrange(spans[i].start, spans[i].end),
                start: byte_offset(text, spans[i].start) as usize,
                end: byte_offset(text, spans[i].end) as usize,
            },
    )
}

/// The tokens of a text with the text that each was read from.
pub open spec fn tokens_of(text: Seq<char>) -> Seq<Lexed> {
    lexed(text, spans_from(text, 0))
}

/// A run ends behind its start, inside the text.
pub proof fn lemma_run_end_bounds(text: Seq<char>, pos: int, class: CharClass)
    requires
        0 <= pos <= text.len(),
    ensures
        pos <= run_end(text, pos, class) <= text.len(),
        pos < text.len() && in_class(text[pos], class) ==> pos < run_end(text, pos, class),
    decreases text.len() - pos,
{
    if pos < text.len() && in_class(text[pos], class) {
        lemma_run_end_bounds(text, pos + 1, class);
    }
}

/// A string literal that is closed ends behind its start, inside the text.
pub proof fn lemma_string_end_bounds(text: Seq<char>, pos: int)
    requires
        0 <= pos,
    ensures
        string_end(text, pos) == -1 || pos < string_end(text, pos) <= text.len(),
    decreases text.len() - pos,
{
    if 0 <= pos < text.len() && text[pos] != '"' {
        if text[pos] == '\\' {
            if pos + 1 < text.len() {
                lemma_string_end_bounds(text, pos + 2);
            }
        } else {
            lemma_string_end_bounds(text, pos + 1);
        }
    }
}

/// A line that ends does so behind its start, inside the text.
pub proof fn lemma_line_end_bounds(text: Seq<char>, pos: int)
    requires
        0 <= pos,
    ensures
        line_end(text, pos) == -1 || pos < line_end(text, pos) <= text.len(),
    decreases text.len() - pos,
{
    if 0 <= pos < text.len() && text[pos] != '\n' {
        lemma_line_end_bounds(text, pos + 1);
    }
}

/// Every token is at least one character long and ends inside the text.
pub proof fn lemma_token_end_bounds(text: Seq<char>, pos: int)
    requires
        0 <= pos < text.len(),
    ensures
        pos < token_end(text, pos).1 <= text.len(),
{
    lemma_run_end_bounds(text, pos, CharClass::Space);
    lemma_run_end_bounds(text, pos, CharClass::Word);
    lemma_run_end_bounds(text, pos, CharClass::Digit);
    lemma_line_end_bounds(text, pos);
    lemma_string_end_bounds(text, pos + 1);
    let end = run_end(text, pos, CharClass::Digit);
    if end + 1 < text.len() {
        lemma_run_end_bounds(text, end + 1, CharClass::Digit);
    }
}

/// The characters of a text.
pub fn characters(source: &str) -> (chars: Vec<char>)
    ensures
        chars@ == source@,
{
    let mut chars: Vec<char> = Vec::new();
    for c in it: source.chars()
        invariant
            it.seq() == source@,
            chars@ == it.seq().take(it.index() as int),
    {
        chars.push(c);
    }
    chars
}

/// Whether a character can begin an identifier.
pub fn letter(c: char) -> (yes: bool)
    ensures
        yes == is_letter(c),
{
    ('a' <= c && c <= 'z') || ('A' <= c && c <= 'Z') || c == '_'
}

/// Whether a character is a decimal digit.
pub fn digit(c: char) -> (yes: bool)
    ensures
        yes == is_digit(c),
{
    '0' <= c && c <= '9'
}

/// Whether a character is whitespace.
pub fn space(c: char) -> (yes: bool)
    ensures
        yes == is_space(c),
{
    let code = c as u32;
    (0x09 <= code && code <= 0x0D) || code == 0x20 || code == 0x85 || code == 0xA0 || code
        == 0x1680 || (0x2000 <= code && code <= 0x200A) || code == 0x2028 || code == 0x2029
        || code == 0x202F || code == 0x205F || code == 0x3000
}

/// Whether a character belongs to a class.
pub fn class_has(class: CharClass, c: char) -> (yes: bool)
    ensures
        yes == in_class(c, class),
{
    match class {
        CharClass::Word => letter(c) || digit(c),
        CharClass::Digit => digit(c),
        CharClass::Space => space(c),
    }
}

/// The end of the run of characters of `class` that begins at `pos`.
fn scan_run(chars: &Vec<char>, pos: usize, class: CharClass) -> (end: usize)
    requires
        pos <= chars.len(),
    ensures
        end == run_end(chars@, pos as int, class),
        pos <= end <= chars.len(),
{
    let mut end = pos;
    while end < chars.len() && class_has(class, chars[end])
        invariant
            pos <= end <= chars.len(),
            run_end(chars@, end as int, class) == run_end(chars@, pos as int, class),
        decreases chars.len() - end,
    {
        end += 1;
    }
    end
}

/// The end of the string literal whose body is read from `pos` on.
fn scan_string(chars: &Vec<char>, pos: usize) -> (end: Option<usize>)
    requires
        pos <= chars.len(),
    ensures
        match end {
            Some(end) => end == string_end(chars@, pos as int) && pos < end <= chars.len(),
            None => string_end(chars@, pos as int) == -1,
        },
{
    let mut at = pos;
    while at < chars.len()
        invariant
            pos <= at,
            string_end(chars@, at as int) == string_end(chars@, pos as int),
        decreases chars.len() - at,
    {
        let c = chars[at];
        if c == '"' {
            return Some(at + 1);
        }
        if c == '\\' {
            if at + 1 < chars.len() {
                at += 2;
            } else {
                return None;
            }
        } else {
            at += 1;
        }
    }
    None
}

/// The end of the line that is read from `pos` on.
fn scan_line(chars: &Vec<char>, pos: usize) -> (end: Option<usize>)
    requires
        pos <= chars.len(),
    ensures
        match end {
            Some(end) => end == line_end(chars@, pos as int) && pos < end <= chars.len(),
            None => line_end(chars@, pos as int) == -1,
        },
{
    let mut at = pos;
    while at < chars.len()
        invariant
            pos <= at <= chars.len(),
            line_end(chars@, at as int) == line_end(chars@, pos as int),
        decreases chars.len() - at,
    {
        if chars[at] == '\n' {
            return Some(at + 1);
        }
        at += 1;
    }
    None
}

/// Whether the characters from `start` up to `end` are those of `word`.
fn is_word(chars: &Vec<char>, start: usize, end: usize, word: &str) -> (same: bool)
    requires
        start <= end <= chars.len(),
    ensures
        same == (chars@.subrange(start as int, end as int) == word@),
{
    let length = word.unicode_len();
    if length != end - start {
        return false;
    }
    let mut i: usize = 0;
    while i < length
        invariant
            i <= length,
            length == end - start,
            length == word@.len(),
            start <= end <= chars.len(),
            forall|j: int| 0 <= j < i ==> chars@[start + j] == word@[j],
        decreases length - i,
    {
        if chars[start + i] != word.get_char(i) {
            assert(chars@.subrange(start as int, end as int)[i as int] != word@[i as int]);
            return false;
        }
        i += 1;
    }
    assert(chars@.subrange(start as int, end as int) =~= word@);
    true
}

/// The token that the word from `start` up to `end` is.
fn classify_word(chars: &Vec<char>, start: usize, end: usize) -> (token: Token)
    requires
        start <= end <= chars.len(),
    ensures
        token == word_token(chars@.subrange(start as int, end as int)),
{
    if is_word(chars, start, end, "fun") {
        Token::Fun
    } else if is_word(chars, start, end, "mod") {
        Token::Mod
    } else if is_word(chars, start, end, "var") {
        Token::Var
    } else if is_word(chars, start, end, "static") {
        Token::Static
    } else if is_word(chars, start, end, "cont") {
        Token::Cont
    } else if is_word(chars, start, end, "ext") {
        Token::Ext
    } else if is_word(chars, start, end, "pub") {
        Token::Pub
    } else if is_word(chars, start, end, "intf") {
        Token::Intf
    } else if is_word(chars, start, end, "enum") {
        Token::Enum
    } else if is_word(chars, start, end, "as") {
        Token::As
    } else if is_word(chars, start, end, "for") {
        Token::For
    } else if is_word(chars, start, end, "in") {
        Token::In
    } else if is_word(chars, start, end, "on") {
        Token::On
    } else if is_word(chars, start, end, "yield") {
        Token::Yield
    } else if is_word(chars, start, end, "import") {
        Token::Import
    } else if is_word(chars, start, end, "this") {
        Token::This
    } else if is_word(chars, start, end, "else") {
        Token::Else
    } else if is_word(chars, start, end, "while") {
        Token::While
    } else if is_word(chars, start, end, "break") {
        Token::Break
    } else if is_word(chars, start, end, "continue") {
        Token::Continue
    } else if is_word(chars, start, end, "return") {
        Token::Return
    } else if is_word(chars, start, end, "int") || is_word(chars, start, end, "bool") || is_word(
        chars,
        start,
        end,
        "float",
    ) || is_word(chars, start, end, "string") {
        Token::PrimitiveType
    } else if is_word(chars, start, end, "true") || is_word(chars, start, end, "false") {
        Token::BoolLiteral
    } else {
        Token::Identifier
    }
}

/// The token of two characters that begins with `first` and `second`.
fn classify_pair(first: char, second: char) -> (token: Option<Token>)
    ensures
        token == pair_token(first, second),
{
    if first == '<' && second == '=' {
        Some(Token::LessThanEquals)
    } else if first == '>' && second == '=' {
        Some(Token::GreaterThanEquals)
    } else if first == '=' && second == '=' {
        Some(Token::Equals)
    } else if first == '!' && second == '=' {
        Some(Token::NotEquals)
    } else if first == '+' && second == '=' {
        Some(Token::AddAssign)
    } else if first == '-' && second == '=' {
        Some(Token::SubAssign)
    } else if first == '*' && second == '=' {
        Some(Token::MulAssign)
    } else if first == '/' && second == '=' {
        Some(Token::DivAssign)
    } else if first == ':' && second == ':' {
        Some(Token::DoubleColon)
    } else if first == '.' && second == '.' {
        Some(Token::DoubleDot)
    } else {
        None
    }
}

/// The token of one character that is `c`.
fn classify_single(c: char) -> (token: Option<Token>)
    ensures
        token == single_token(c),
{
    if c == '+' {
        Some(Token::Plus)
    } else if c == '-' {
        Some(Token::Minus)
    } else if c == '*' {
        Some(Token::Times)
    } else if c == '/' {
        Some(Token::Divide)
    } else if c == '=' {
        Some(Token::Assign)
    } else if c == '<' {
        Some(Token::LessThan)
    } else if c == '>' {
        Some(Token::GreaterThan)
    } else if c == ';' {
        Some(Token::Semicolon)
    } else if c == ':' {
        Some(Token::Colon)
    } else if c == '.' {
        Some(Token::Dot)
    } else if c == ',' {
        Some(Token::Comma)
    } else if c == '&' {
        Some(Token::Ref)
    } else if c == '~' {
        Some(Token::Tilde)
    } else if c == '(' {
        Some(Token::OpenParan)
    } else if c == ')' {
        Some(Token::CloseParan)
    } else if c == '{' {
        Some(Token::OpenBlock)
    } else if c == '}' {
        Some(Token::CloseBlock)
    } else {
        None
    }
}

/// The longest token that begins at `pos`, and where it ends.
#[verifier::rlimit(50)]
fn next_token(chars: &Vec<char>, pos: usize) -> (found: (Token, usize))
    requires
        pos < chars.len(),
    ensures
        found.0 == token_end(chars@, pos as int).0,
        found.1 == token_end(chars@, pos as int).1,
        pos < found.1 <= chars.len(),
{
    proof {
        lemma_token_end_bounds(chars@, pos as int);
    }
    let c = chars[pos];
    if space(c) {
        (Token::Whitespace, scan_run(chars, pos, CharClass::Space))
    } else if c == '#' {
        match scan_line(chars, pos) {
            Some(end) => (Token::HashLineComment, end),
            None => (Token::Error, pos + 1),
        }
    } else if letter(c) {
        let end = scan_run(chars, pos, CharClass::Word);
        (classify_word(chars, pos, end), end)
    } else if digit(c) {
        let end = scan_run(chars, pos, CharClass::Digit);
        if end < chars.len() - 1 && chars[end] == '.' && digit(chars[end + 1]) {
            (Token::FloatLiteral, scan_run(chars, end + 1, CharClass::Digit))
        } else {
            (Token::IntLiteral, end)
        }
    } else if c == '"' {
        match scan_string(chars, pos + 1) {
            Some(end) => (Token::StringLiteral, end),
            None => (Token::Error, pos + 1),
        }
    } else if chars.len() - pos >= 5 && c == '&' && chars[pos + 1] == 't' && chars[pos + 2] == 'h'
        && chars[pos + 3] == 'i' && chars[pos + 4] == 's' {
        (Token::ThisRef, pos + 5)
    } else {
        let pair = if pos + 1 < chars.len() {
            classify_pair(c, chars[pos + 1])
        } else {
            None
        };
        match pair {
            Some(token) => (token, pos + 2),
            None => match classify_single(c) {
                Some(token) => (token, pos + 1),
                None => (Token::Error, pos + 1),
            },
        }
    }
}

/// The number of bytes that a character takes.
pub fn char_width(c: char) -> (width: usize)
    ensures
        width == encode_scalar(c as u32).len(),
        1 <= width <= 4,
{
    let code = c as u32;
    if code <= 0x7F {
        1
    } else if code <= 0x7FF {
        2
    } else if code <= 0xFFFF {
        3
    } else {
        4
    }
}

/// Reads the tokens of a source text. Whitespace and comments are left
/// out. The positions of a token count bytes.
#[verifier::rlimit(50)]
pub fn tokenize(source: &str) -> (lexemes: Vec<Lexeme>)
    ensures
        lexemes_model(&lexemes) == tokens_of(source@),
{
    let chars = characters(source);
    let total = source.as_bytes().len();
    let mut lexemes: Vec<Lexeme> = Vec::new();
    let mut pos: usize = 0;
    let mut byte_pos: usize = 0;
    let ghost mut spans: Seq<Span> = Seq::empty();
    assert(source@.take(0) =~= Seq::<char>::empty());
    while pos < chars.len()
        invariant
            pos <= chars.len(),
            chars@ == source@,
            total == encode_utf8(source@).len(),
            byte_pos == byte_offset(source@, pos as int),
            byte_pos <= total,
            spans + spans_from(source@, pos as int) == spans_from(source@, 0),
            lexemes_model(&lexemes) == lexed(source@, spans),
        decreases chars.len() - pos,
    {
        let (token, end) = next_token(&chars, pos);
        let mut byte_end = byte_pos;
        let mut at = pos;
        while at < end
            invariant
                pos <= at <= end <= chars.len(),
                chars@ == source@,
                total == encode_utf8(source@).len(),
                byte_end == byte_offset(source@, at as int),
                byte_end <= total,
            decreases end - at,
        {
            proof {
                lemma_byte_offset_step(source@, at as int);
            }
            byte_end += char_width(chars[at]);
            at += 1;
        }
        if token != Token::Whitespace && token != Token::HashLineComment {
            let text = String::from_str(source.substring_char(pos, end));
            let ghost before = lexemes_model(&lexemes);
            lexemes.push(Lexeme { token, text, start: byte_pos, end: byte_end });
            proof {
                let span = Span { token, start: pos as int, end: end as int };
                assert(spans.push(span) + spans_from(source@, end as int) =~= spans + (seq![span]
                    + spans_from(source@, end as int)));
                assert(lexemes_model(&lexemes) =~= before.push(lexed(source@, seq![span])[0]));
                assert(lexemes_model(&lexemes) =~= lexed(source@, spans.push(span)));
                spans = spans.push(span);
            }
        }
        pos = end;
        byte_pos = byte_end;
    }
    assert(spans =~= spans + spans_from(source@, pos as int));
    lexemes
}

} // verus!
