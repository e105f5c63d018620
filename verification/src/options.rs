//! Supplemental options of the command line: `key=value` pairs separated by
//! commas.

use vstd::prelude::*;

verus! {

/// The place of the first `mark` in `text` from `from` on, or the length
/// of the text when there is none.
pub open spec fn mark_place(text: Seq<char>, mark: char, from: int) -> int
    decreases text.len() - from,
{
    if 0 <= from < text.len() {
        if text[from] == mark {
            from
        } else {
            mark_place(text, mark, from + 1)
        }
    } else {
        text.len() as int
    }
}

/// Whether a character is whitespace that is trimmed.
pub open spec fn is_blank(c: char) -> bool {
    crate::parser::lexer::is_space(c)
}

/// Whether a text holds nothing but whitespace.
pub open spec fn is_empty_option(text: Seq<char>) -> bool {
    forall|i: int| 0 <= i < text.len() ==> is_blank(#[trigger] text[i])
}

/// The place of the first entry with the key `key` from `from` on, or the
/// number of entries when there is none.
pub open spec fn key_place(options: Seq<(Seq<char>, Seq<char>)>, key: Seq<char>, from: int) -> int
    decreases options.len() - from,
{
    if 0 <= from < options.len() {
        if options[from].0 == key {
            from
        } else {
            key_place(options, key, from + 1)
        }
    } else {
        options.len() as int
    }
}

/// The options after `key` is given `value`: an entry of that key takes the
/// value, else the entry is added behind the others.
pub open spec fn with_option(
    options: Seq<(Seq<char>, Seq<char>)>,
    key: Seq<char>,
    value: Seq<char>,
) -> Seq<(Seq<char>, Seq<char>)> {
    let place = key_place(options, key, 0);
    if place < options.len() {
        options.update(place, (key, value))
    } else {
        options.push((key, value))
    }
}

/// The key and the value of one option: the text before the first `=` and
/// the text behind it up to the next `=`, or the whole text and nothing.
pub open spec fn option_of(text: Seq<char>) -> (Seq<char>, Seq<char>) {
    let first = mark_place(text, '=', 0);
    if first < text.len() {
        let second = mark_place(text, '=', first + 1);
        (text.subrange(0, first), text.subrange(first + 1, second))
    } else {
        (text, Seq::empty())
    }
}

/// The options of the pieces of `text` between commas from `from` on, put
/// into `options`.
pub open spec fn options_from(text: Seq<char>, from: int, options: Seq<(Seq<char>, Seq<char>)>) -> Seq<
    (Seq<char>, Seq<char>),
>
    decreases text.len() - from,
{
    if !(0 <= from <= text.len()) {
        options
    } else {
        let end = mark_place(text, ',', from);
        let option = option_of(text.subrange(from, end));
        let next = with_option(options, option.0, option.1);
        if from <= end < text.len() {
            options_from(text, end + 1, next)
        } else {
            next
        }
    }
}

/// The options that a text gives: none when it holds only whitespace.
pub open spec fn options_of(text: Seq<char>) -> Seq<(Seq<char>, Seq<char>)> {
    if is_empty_option(text) {
        Seq::empty()
    } else {
        options_from(text, 0, Seq::empty())
    }
}

/// The keys and values of a list, in order.
pub open spec fn options_model(options: &Vec<(String, String)>) -> Seq<(Seq<char>, Seq<char>)> {
    Seq::new(options.len() as nat, |i: int| (options[i].0@, options[i].1@))
}

/// The place of the first `mark` from `from` on.
fn find_mark(chars: &Vec<char>, mark: char, from: usize) -> (place: usize)
    requires
        from <= chars.len(),
    ensures
        place == mark_place(chars@, mark, from as int),
        from <= place <= chars.len(),
{
    let mut place = from;
    while place < chars.len() && chars[place] != mark
        invariant
            from <= place <= chars.len(),
            mark_place(chars@, mark, place as int) == mark_place(chars@, mark, from as int),
        decreases chars.len() - place,
    {
        place += 1;
    }
    place
}

/// Gives `key` the value `value` in `options`.
#[verifier::loop_isolation(false)]
fn set_option(options: &mut Vec<(String, String)>, key: String, value: String)
    ensures
        options_model(final(options)) == with_option(options_model(old(options)), key@, value@),
{
    let ghost before = options_model(options);
    let mut place: usize = 0;
    while place < options.len() && !(options[place].0 == key)
        invariant
            place <= options.len(),
            options_model(options) == before,
            key_place(before, key@, place as int) == key_place(before, key@, 0),
        decreases options.len() - place,
    {
        place += 1;
    }
    if place < options.len() {
        options.set(place, (key, value));
        assert(options_model(options) =~= before.update(place as int, (key@, value@)));
    } else {
        options.push((key, value));
        assert(options_model(options) =~= before.push((key@, value@)));
    }
}

/// Reads supplemental options: `key=value` pairs separated by commas. A
/// pair without `=` is a key with an empty value. A later pair replaces an
/// earlier pair of the same key.
#[verifier::loop_isolation(false)]
pub fn parse_options(s: &str) -> (options: Vec<(String, String)>)
    ensures
        options_model(&options) == options_of(s@),
{
    let chars = crate::parser::lexer::characters(s);
    let mut options: Vec<(String, String)> = Vec::new();
    assert(options_model(&options) =~= Seq::empty());
    let mut blank: usize = 0;
    while blank < chars.len() && crate::parser::lexer::space(chars[blank])
        invariant
            blank <= chars.len(),
            forall|i: int| 0 <= i < blank ==> is_blank(#[trigger] chars@[i]),
        decreases chars.len() - blank,
    {
        blank += 1;
    }
    if blank == chars.len() {
        return options;
    }
    assert(!is_blank(chars@[blank as int]));
    let mut from: usize = 0;
    loop
        invariant
            from <= chars.len(),
            chars@ == s@,
            options_from(s@, from as int, options_model(&options)) == options_of(s@),
        decreases chars.len() - from,
    {
        let end = find_mark(&chars, ',', from);
        let ghost piece = s@.subrange(from as int, end as int);
        let first = find_mark(&chars, '=', from);
        let (key, value) = if first < end {
            let second_found = find_mark(&chars, '=', first + 1);
            let second = if second_found < end {
                second_found
            } else {
                end
            };
            proof {
                lemma_mark_in_piece(s@, '=', from as int, end as int, from as int);
                lemma_mark_in_piece(s@, '=', from as int, end as int, first + 1);
                assert(piece.subrange(0, first - from) =~= s@.subrange(from as int, first as int));
                assert(piece.subrange(first + 1 - from, second - from) =~= s@.subrange(
                    first + 1,
                    second as int,
                ));
            }
            (
                String::from_str(s.substring_char(from, first)),
                String::from_str(s.substring_char(first + 1, second)),
            )
        } else {
            proof {
                lemma_mark_in_piece(s@, '=', from as int, end as int, from as int);
            }
            (String::from_str(s.substring_char(from, end)), String::new())
        };
        set_option(&mut options, key, value);
        if end < chars.len() {
            from = end + 1;
        } else {
            return options;
        }
    }
}

/// The first mark from a place on stands at that place or behind it.
pub proof fn lemma_mark_place_bounds(text: Seq<char>, mark: char, from: int)
    requires
        0 <= from <= text.len(),
    ensures
        from <= mark_place(text, mark, from) <= text.len(),
    decreases text.len() - from,
{
    if from < text.len() && text[from] != mark {
        lemma_mark_place_bounds(text, mark, from + 1);
    }
}

/// The first mark in a piece of a text is the first mark in the text from
/// the start of the piece on, if that lies in the piece.
pub proof fn lemma_mark_in_piece(text: Seq<char>, mark: char, start: int, end: int, from: int)
    requires
        0 <= start <= from <= end <= text.len(),
    ensures
        mark_place(text.subrange(start, end), mark, from - start) == if mark_place(
            text,
            mark,
            from,
        ) < end {
            mark_place(text, mark, from) - start
        } else {
            end - start
        },
    decreases end - from,
{
    let piece = text.subrange(start, end);
    lemma_mark_place_bounds(text, mark, from);
    if from < end {
        assert(piece[from - start] == text[from]);
        if text[from] != mark {
            lemma_mark_in_piece(text, mark, start, end, from + 1);
        }
    }
}

} // verus!
