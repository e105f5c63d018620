//! What each token is: the texts that it can be read from.
//!
//! The lexer reads, at each position, the longest text that is a token, and
//! of two tokens with the same text the keyword. This is proved here of the
//! function that says where the token at a position ends.

use super::lexer::{
    in_class, is_digit, is_letter, is_space, lemma_string_end_bounds, lemma_token_end_bounds,
    line_end, pair_token, run_end, string_end, this_ref_at, token_end, word_token, CharClass,
};
use super::token::Token;
use vstd::prelude::*;

verus! {

/// Whether every character of a text belongs to a class.
pub open spec fn all_in_class(text: Seq<char>, class: CharClass) -> bool {
    forall|i: int| 0 <= i < text.len() ==> in_class(#[trigger] text[i], class)
}

/// Whether a text is a letter or `_` with letters, digits and `_` behind
/// it.
pub open spec fn is_word(text: Seq<char>) -> bool {
    text.len() > 0 && is_letter(text[0]) && all_in_class(text, CharClass::Word)
}

/// Whether a text is digits, a dot and digits.
pub open spec fn is_float(text: Seq<char>) -> bool {
    exists|dot: int|
        0 < dot < text.len() - 1 && #[trigger] text[dot] == '.' && all_in_class(
            text.subrange(0, dot),
            CharClass::Digit,
        ) && all_in_class(text.subrange(dot + 1, text.len() as int), CharClass::Digit)
}

/// Whether the characters from `from` up to `to` are the body of a string
/// literal: characters other than `"` and `\`, and `\` with any character
/// behind it.
pub open spec fn is_string_body(text: Seq<char>, from: int, to: int) -> bool
    decreases to - from,
{
    if from >= to {
        from == to
    } else if text[from] == '"' {
        false
    } else if text[from] == '\\' {
        from + 1 < to && is_string_body(text, from + 2, to)
    } else {
        is_string_body(text, from + 1, to)
    }
}

/// Whether a text is `#`, characters other than a line feed, and a line
/// feed.
pub open spec fn is_comment(text: Seq<char>) -> bool {
    text.len() >= 2 && text[0] == '#' && text.last() == '\n' && forall|i: int|
        0 < i < text.len() - 1 ==> #[trigger] text[i] != '\n'
}

/// The text of a token that is one or two signs or `&this`.
pub open spec fn sign_text(token: Token) -> Option<Seq<char>> {
    match token {
        Token::ThisRef => Some(seq!['&', 't', 'h', 'i', 's']),
        Token::Plus => Some(seq!['+']),
        Token::Minus => Some(seq!['-']),
        Token::Times => Some(seq!['*']),
        Token::Divide => Some(seq!['/']),
        Token::Assign => Some(seq!['=']),
        Token::LessThan => Some(seq!['<']),
        Token::GreaterThan => Some(seq!['>']),
        Token::LessThanEquals => Some(seq!['<', '=']),
        Token::GreaterThanEquals => Some(seq!['>', '=']),
        Token::Equals => Some(seq!['=', '=']),
        Token::NotEquals => Some(seq!['!', '=']),
        Token::AddAssign => Some(seq!['+', '=']),
        Token::SubAssign => Some(seq!['-', '=']),
        Token::MulAssign => Some(seq!['*', '=']),
        Token::DivAssign => Some(seq!['/', '=']),
        Token::Semicolon => Some(seq![';']),
        Token::Colon => Some(seq![':']),
        Token::DoubleColon => Some(seq![':', ':']),
        Token::Dot => Some(seq!['.']),
        Token::DoubleDot => Some(seq!['.', '.']),
        Token::Comma => Some(seq![',']),
        Token::Ref => Some(seq!['&']),
        Token::Tilde => Some(seq!['~']),
        Token::OpenParan => Some(seq!['(']),
        Token::CloseParan => Some(seq![')']),
        Token::OpenBlock => Some(seq!['{']),
        Token::CloseBlock => Some(seq!['}']),
        _ => None,
    }
}

/// Whether a text is a text of a token. A word is the keyword, the type
/// name or the boolean that it spells, and an identifier whatever it
/// spells.
pub open spec fn is_lexeme(token: Token, text: Seq<char>) -> bool {
    match token {
        Token::Whitespace => text.len() > 0 && all_in_class(text, CharClass::Space),
        Token::HashLineComment => is_comment(text),
        Token::Identifier => is_word(text),
        Token::IntLiteral => text.len() > 0 && all_in_class(text, CharClass::Digit),
        Token::FloatLiteral => is_float(text),
        Token::StringLiteral => text.len() >= 2 && text[0] == '"' && text.last() == '"'
            && is_string_body(text, 1, text.len() - 1),
        Token::Error => false,
        _ => if sign_text(token) is Some {
            sign_text(token) == Some(text)
        } else {
            is_word(text) && word_token(text) == token
        },
    }
}

/// Whether a token is read rather than another token with the same text: a
/// keyword, a type name or a boolean rather than an identifier.
pub open spec fn takes_precedence(token: Token, other: Token) -> bool {
    other == Token::Identifier && token != Token::Identifier
}

/// All characters from a position up to the end of the run that begins
/// there belong to the class, and the character at the end does not.
pub proof fn lemma_run(text: Seq<char>, pos: int, class: CharClass)
    requires
        0 <= pos <= text.len(),
    ensures
        pos <= run_end(text, pos, class) <= text.len(),
        forall|i: int| pos <= i < run_end(text, pos, class) ==> in_class(#[trigger] text[i], class),
        run_end(text, pos, class) < text.len() ==> !in_class(
            text[run_end(text, pos, class)],
            class,
        ),
    decreases text.len() - pos,
{
    if pos < text.len() && in_class(text[pos], class) {
        lemma_run(text, pos + 1, class);
    }
}

/// No character before the end of a line is a line feed, and the character
/// before the end is one.
pub proof fn lemma_line(text: Seq<char>, pos: int)
    requires
        0 <= pos <= text.len(),
    ensures
        line_end(text, pos) == -1 ==> forall|i: int|
            pos <= i < text.len() ==> #[trigger] text[i] != '\n',
        line_end(text, pos) != -1 ==> pos < line_end(text, pos) <= text.len() && text[line_end(
            text,
            pos,
        ) - 1] == '\n' && forall|i: int|
            pos <= i < line_end(text, pos) - 1 ==> #[trigger] text[i] != '\n',
    decreases text.len() - pos,
{
    if pos < text.len() && text[pos] != '\n' {
        lemma_line(text, pos + 1);
    }
}

/// A string literal ends where its body ends before a `"`, and nowhere
/// else.
pub proof fn lemma_string(text: Seq<char>, pos: int, to: int)
    requires
        0 <= pos <= to < text.len(),
        text[to] == '"',
    ensures
        is_string_body(text, pos, to) <==> string_end(text, pos) == to + 1,
    decreases to - pos,
{
    if pos < to {
        if text[pos] == '"' {
        } else if text[pos] == '\\' {
            if pos + 1 < to {
                lemma_string(text, pos + 2, to);
            } else {
                // the backslash takes the `"` at `to` with it
                if pos + 2 <= text.len() {
                    lemma_string_end_bounds(text, pos + 2);
                }
            }
        } else {
            lemma_string(text, pos + 1, to);
        }
    }
}

/// The body of a string literal in a part of a text is the body in the
/// text.
pub proof fn lemma_string_body_in_part(text: Seq<char>, start: int, end: int, from: int, to: int)
    requires
        0 <= start <= end <= text.len(),
        0 <= from,
        to <= end - start,
    ensures
        is_string_body(text.subrange(start, end), from, to) == is_string_body(
            text,
            start + from,
            start + to,
        ),
    decreases to - from,
{
    let part = text.subrange(start, end);
    if from < to {
        assert(part[from] == text[start + from]);
        if text[start + from] == '"' {
        } else if text[start + from] == '\\' {
            if from + 1 < to {
                lemma_string_body_in_part(text, start, end, from + 2, to);
            }
        } else {
            lemma_string_body_in_part(text, start, end, from + 1, to);
        }
    }
}

/// A string literal that is closed ends with a `"`.
pub proof fn lemma_string_closes(text: Seq<char>, pos: int)
    requires
        0 <= pos,
        string_end(text, pos) != -1,
    ensures
        pos < string_end(text, pos) <= text.len(),
        text[string_end(text, pos) - 1] == '"',
    decreases text.len() - pos,
{
    lemma_string_end_bounds(text, pos);
    if 0 <= pos < text.len() && text[pos] != '"' {
        if text[pos] == '\\' {
            if pos + 1 < text.len() {
                lemma_string_closes(text, pos + 2);
            }
        } else {
            lemma_string_closes(text, pos + 1);
        }
    }
}

/// A text whose characters all belong to a class ends within the run that
/// begins where it begins.
pub proof fn lemma_run_holds(text: Seq<char>, pos: int, to: int, class: CharClass)
    requires
        0 <= pos <= to <= text.len(),
        all_in_class(text.subrange(pos, to), class),
    ensures
        to <= run_end(text, pos, class),
    decreases to - pos,
{
    lemma_run(text, pos, class);
    if pos < to {
        assert(text.subrange(pos, to)[0] == text[pos]);
        assert(all_in_class(text.subrange(pos + 1, to), class)) by {
            assert forall|i: int| 0 <= i < to - pos - 1 implies in_class(
                #[trigger] text.subrange(pos + 1, to)[i],
                class,
            ) by {
                assert(text.subrange(pos + 1, to)[i] == text.subrange(pos, to)[i + 1]);
            }
        }
        lemma_run_holds(text, pos + 1, to, class);
    }
}

/// The token that is read at a position is a token of the text that is
/// read for it.
pub proof fn lemma_token_is_lexeme(text: Seq<char>, pos: int)
    requires
        0 <= pos < text.len(),
        token_end(text, pos).0 != Token::Error,
    ensures
        pos < token_end(text, pos).1 <= text.len(),
        is_lexeme(token_end(text, pos).0, text.subrange(pos, token_end(text, pos).1)),
{
    let c = text[pos];
    let (token, end) = token_end(text, pos);
    let read = text.subrange(pos, end);
    lemma_token_end_bounds(text, pos);
    lemma_run(text, pos, CharClass::Space);
    lemma_run(text, pos, CharClass::Word);
    lemma_run(text, pos, CharClass::Digit);
    if is_space(c) {
        assert(all_in_class(read, CharClass::Space)) by {
            assert forall|i: int| 0 <= i < read.len() implies in_class(
                #[trigger] read[i],
                CharClass::Space,
            ) by {
                assert(read[i] == text[pos + i]);
            }
        }
    } else if c == '#' {
        lemma_line(text, pos);
        assert(is_comment(read)) by {
            assert(read[0] == text[pos]);
            assert(read.last() == text[end - 1]);
            assert forall|i: int| 0 < i < read.len() - 1 implies #[trigger] read[i] != '\n' by {
                assert(read[i] == text[pos + i]);
            }
        }
    } else if is_letter(c) {
        assert(is_word(read)) by {
            assert(read[0] == text[pos]);
            assert forall|i: int| 0 <= i < read.len() implies in_class(
                #[trigger] read[i],
                CharClass::Word,
            ) by {
                assert(read[i] == text[pos + i]);
            }
        }
        assert(sign_text(word_token(read)) is None);
    } else if is_digit(c) {
        let digits = run_end(text, pos, CharClass::Digit);
        if token == Token::FloatLiteral {
            lemma_run(text, digits + 1, CharClass::Digit);
            let dot = digits - pos;
            assert(read[dot] == text[digits]);
            assert(all_in_class(read.subrange(0, dot), CharClass::Digit)) by {
                assert forall|i: int| 0 <= i < dot implies in_class(
                    #[trigger] read.subrange(0, dot)[i],
                    CharClass::Digit,
                ) by {
                    assert(read.subrange(0, dot)[i] == text[pos + i]);
                }
            }
            assert(all_in_class(read.subrange(dot + 1, read.len() as int), CharClass::Digit)) by {
                assert forall|i: int| 0 <= i < read.len() - dot - 1 implies in_class(
                    #[trigger] read.subrange(dot + 1, read.len() as int)[i],
                    CharClass::Digit,
                ) by {
                    assert(read.subrange(dot + 1, read.len() as int)[i] == text[digits + 1 + i]);
                }
            }
        } else {
            assert(all_in_class(read, CharClass::Digit)) by {
                assert forall|i: int| 0 <= i < read.len() implies in_class(
                    #[trigger] read[i],
                    CharClass::Digit,
                ) by {
                    assert(read[i] == text[pos + i]);
                }
            }
        }
    } else if c == '"' {
        lemma_string_end_bounds(text, pos + 1);
        lemma_string_closes(text, pos + 1);
        lemma_string(text, pos + 1, end - 1);
        lemma_string_body_in_part(text, pos, end, 1, end - pos - 1);
        assert(read[0] == text[pos]);
        assert(read.last() == text[end - 1]);
    } else if this_ref_at(text, pos) {
        assert(read =~= seq!['&', 't', 'h', 'i', 's']);
    } else if pos + 1 < text.len() && pair_token(c, text[pos + 1]) is Some {
        assert(read =~= seq![c, text[pos + 1]]);
    } else {
        assert(read =~= seq![c]);
    }
}

/// No token has a longer text at a position than the token that is read
/// there, and a token with the same text is that token or an identifier
/// that a keyword takes precedence over.
pub proof fn lemma_longest_match(text: Seq<char>, pos: int, other: Token, to: int)
    requires
        0 <= pos < to <= text.len(),
        is_lexeme(other, text.subrange(pos, to)),
    ensures
        to <= token_end(text, pos).1,
        to == token_end(text, pos).1 ==> other == token_end(text, pos).0 || takes_precedence(
            token_end(text, pos).0,
            other,
        ),
{
    let c = text[pos];
    let (token, end) = token_end(text, pos);
    let read = text.subrange(pos, to);
    assert(read[0] == c);
    assert(read.len() == to - pos);
    lemma_token_end_bounds(text, pos);
    lemma_run(text, pos, CharClass::Space);
    lemma_run(text, pos, CharClass::Word);
    lemma_run(text, pos, CharClass::Digit);
    if other == Token::Whitespace || other == Token::IntLiteral || other == Token::Identifier || (
    sign_text(other) is None && other != Token::HashLineComment && other != Token::FloatLiteral
        && other != Token::StringLiteral && other != Token::Error) {
        // a run of one class
        let class = if other == Token::Whitespace {
            CharClass::Space
        } else if other == Token::IntLiteral {
            CharClass::Digit
        } else {
            CharClass::Word
        };
        assert(in_class(read[0], class));
        lemma_run_holds(text, pos, to, class);
        if class == CharClass::Digit {
            let digits = run_end(text, pos, CharClass::Digit);
            if digits + 1 < text.len() {
                lemma_run(text, digits + 1, CharClass::Digit);
            }
        }
        if class == CharClass::Word && to == end {
            assert(text.subrange(pos, end) == read);
        }
    } else if other == Token::HashLineComment {
        lemma_line(text, pos);
        assert(read.last() == text[to - 1]);
        if line_end(text, pos) == -1 {
            assert(text[to - 1] != '\n');
        } else {
            let line = line_end(text, pos);
            if to - 1 < line - 1 {
                assert(text[to - 1] != '\n');
            }
            if line - 1 < to - 1 {
                assert(read[line - 1 - pos] == text[line - 1]);
            }
        }
    } else if other == Token::FloatLiteral {
        let dot = choose|dot: int|
            0 < dot < read.len() - 1 && #[trigger] read[dot] == '.' && all_in_class(
                read.subrange(0, dot),
                CharClass::Digit,
            ) && all_in_class(read.subrange(dot + 1, read.len() as int), CharClass::Digit);
        let digits = run_end(text, pos, CharClass::Digit);
        assert(read.subrange(0, dot)[0] == c);
        assert(text.subrange(pos, pos + dot) =~= read.subrange(0, dot));
        lemma_run_holds(text, pos, pos + dot, CharClass::Digit);
        assert(read[dot] == text[pos + dot]);
        assert(digits == pos + dot);
        assert(read.subrange(dot + 1, read.len() as int)[0] == text[digits + 1]);
        assert(text.subrange(digits + 1, to) =~= read.subrange(dot + 1, read.len() as int));
        lemma_run_holds(text, digits + 1, to, CharClass::Digit);
    } else if other == Token::StringLiteral {
        assert(read.last() == text[to - 1]);
        lemma_string_body_in_part(text, pos, to, 1, to - pos - 1);
        lemma_string(text, pos + 1, to - 1);
    } else {
        // one or two signs or `&this`
        let signs = sign_text(other)->0;
        assert(read == signs);
        assert(forall|i: int| 0 <= i < signs.len() ==> read[i] == text[pos + i]);
        if signs.len() == 5 {
            assert(read[1] == text[pos + 1] && read[2] == text[pos + 2] && read[3] == text[pos
                + 3] && read[4] == text[pos + 4]);
        } else if signs.len() == 2 {
            assert(read[1] == text[pos + 1]);
        }
    }
}

} // verus!
