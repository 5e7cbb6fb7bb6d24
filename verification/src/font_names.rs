//! Font families by number and by name.

use crate::text::{characters, equal_ignoring_case};
use vstd::prelude::*;

verus! {

pub const FONT_CHICAGO: i16 = 0;

pub const FONT_APPLICATION: i16 = 1;

pub const FONT_NEWYORK: i16 = 2;

pub const FONT_GENEVA: i16 = 3;

pub const FONT_MONACO: i16 = 4;

pub const FONT_VENICE: i16 = 5;

pub const FONT_LONDON: i16 = 6;

pub const FONT_ATHENS: i16 = 7;

pub const FONT_SANFRAN: i16 = 8;

pub const FONT_TORONTO: i16 = 9;

pub const FONT_CAIRO: i16 = 11;

pub const FONT_LOSANGELES: i16 = 12;

pub const FONT_PALATINO: i16 = 16;

pub const FONT_TIMES: i16 = 20;

pub const FONT_HELVETICA: i16 = 21;

pub const FONT_COURIER: i16 = 22;

pub const FONT_SYMBOL: i16 = 23;

pub const FONT_MOBILE: i16 = 24;

/// The name of a family.
pub open spec fn font_name(font_id: i16) -> Option<Seq<char>> {
    if font_id == FONT_CHICAGO {
        Some("Chicago"@)
    } else if font_id == FONT_APPLICATION {
        Some("Application"@)
    } else if font_id == FONT_NEWYORK {
        Some("New York"@)
    } else if font_id == FONT_GENEVA {
        Some("Geneva"@)
    } else if font_id == FONT_MONACO {
        Some("Monaco"@)
    } else if font_id == FONT_VENICE {
        Some("Venice"@)
    } else if font_id == FONT_LONDON {
        Some("London"@)
    } else if font_id == FONT_ATHENS {
        Some("Athens"@)
    } else if font_id == FONT_SANFRAN {
        Some("San Francisco"@)
    } else if font_id == FONT_TORONTO {
        Some("Toronto"@)
    } else if font_id == FONT_CAIRO {
        Some("Cairo"@)
    } else if font_id == FONT_LOSANGELES {
        Some("Los Angeles"@)
    } else if font_id == FONT_PALATINO {
        Some("Palatino"@)
    } else if font_id == FONT_TIMES {
        Some("Times"@)
    } else if font_id == FONT_HELVETICA {
        Some("Helvetica"@)
    } else if font_id == FONT_COURIER {
        Some("Courier"@)
    } else if font_id == FONT_SYMBOL {
        Some("Symbol"@)
    } else if font_id == FONT_MOBILE {
        Some("Mobile"@)
    } else {
        None
    }
}

/// The first family whose name agrees with a text but for the case of ASCII
/// letters.
pub open spec fn font_named(name: Seq<char>) -> Option<i16> {
    if crate::text::same_name("Chicago"@, name) {
        Some(FONT_CHICAGO)
    } else if crate::text::same_name("Application"@, name) {
        Some(FONT_APPLICATION)
    } else if crate::text::same_name("New York"@, name) {
        Some(FONT_NEWYORK)
    } else if crate::text::same_name("Geneva"@, name) {
        Some(FONT_GENEVA)
    } else if crate::text::same_name("Monaco"@, name) {
        Some(FONT_MONACO)
    } else if crate::text::same_name("Venice"@, name) {
        Some(FONT_VENICE)
    } else if crate::text::same_name("London"@, name) {
        Some(FONT_LONDON)
    } else if crate::text::same_name("Athens"@, name) {
        Some(FONT_ATHENS)
    } else if crate::text::same_name("San Francisco"@, name) {
        Some(FONT_SANFRAN)
    } else if crate::text::same_name("Toronto"@, name) {
        Some(FONT_TORONTO)
    } else if crate::text::same_name("Cairo"@, name) {
        Some(FONT_CAIRO)
    } else if crate::text::same_name("Los Angeles"@, name) {
        Some(FONT_LOSANGELES)
    } else if crate::text::same_name("Palatino"@, name) {
        Some(FONT_PALATINO)
    } else if crate::text::same_name("Times"@, name) {
        Some(FONT_TIMES)
    } else if crate::text::same_name("Helvetica"@, name) {
        Some(FONT_HELVETICA)
    } else if crate::text::same_name("Courier"@, name) {
        Some(FONT_COURIER)
    } else if crate::text::same_name("Symbol"@, name) {
        Some(FONT_SYMBOL)
    } else if crate::text::same_name("Mobile"@, name) {
        Some(FONT_MOBILE)
    } else {
        None
    }
}

/// A character with the Unicode property White_Space.
pub open spec fn white_space(c: char) -> bool {
    let code = c as int;
    ||| 0x09 <= code <= 0x0d
    ||| code == 0x20
    ||| code == 0x85
    ||| code == 0xa0
    ||| code == 0x1680
    ||| 0x2000 <= code <= 0x200a
    ||| code == 0x2028
    ||| code == 0x2029
    ||| code == 0x202f
    ||| code == 0x205f
    ||| code == 0x3000
}

/// How many white space characters a text starts with.
pub open spec fn leading_space(text: Seq<char>) -> int
    decreases text.len(),
{
    if text.len() == 0 || !white_space(text[0]) {
        0
    } else {
        1 + leading_space(text.skip(1))
    }
}

/// A text without the white space at its end.
pub open spec fn trimmed_end(text: Seq<char>) -> Seq<char>
    decreases text.len(),
{
    if text.len() == 0 || !white_space(text.last()) {
        text
    } else {
        trimmed_end(text.drop_last())
    }
}

/// A text without the white space around it.
pub open spec fn trimmed(text: Seq<char>) -> Seq<char> {
    trimmed_end(text.skip(leading_space(text)))
}

proof fn lemma_leading_space_at(text: Seq<char>, at: int)
    requires
        0 <= at <= text.len(),
        forall|i: int| 0 <= i < at ==> white_space(#[trigger] text[i]),
        at < text.len() ==> !white_space(text[at]),
    ensures
        leading_space(text) == at,
    decreases text.len(),
{
    if at > 0 {
        assert(white_space(text[0]));
        let rest = text.skip(1);
        assert forall|i: int| 0 <= i < at - 1 implies white_space(#[trigger] rest[i]) by {
            assert(rest[i] == text[i + 1]);
        }
        lemma_leading_space_at(rest, at - 1);
    }
}

fn is_white_space(c: char) -> (space: bool)
    ensures
        space == white_space(c),
{
    let code: u32 = c as u32;
    (0x09 <= code && code <= 0x0d) || code == 0x20 || code == 0x85 || code == 0xa0 || code
        == 0x1680 || (0x2000 <= code && code <= 0x200a) || code == 0x2028 || code == 0x2029
        || code == 0x202f || code == 0x205f || code == 0x3000
}

/// A text without the white space around it.
pub fn trim_text(text: &str) -> (trimmed_text: &str)
    ensures
        trimmed_text@ == trimmed(text@),
{
    let all = characters(text);
    let count: usize = all.len();
    let mut start: usize = 0;
    while start < count && is_white_space(all[start])
        invariant
            start <= count,
            count == all@.len(),
            all@ == text@,
            forall|i: int| 0 <= i < start ==> white_space(#[trigger] all@[i]),
        decreases count - start,
    {
        start += 1;
    }
    proof {
        lemma_leading_space_at(text@, start as int);
    }
    let mut end: usize = count;
    assert(text@.subrange(start as int, end as int) =~= text@.skip(start as int));
    while end > start && is_white_space(all[end - 1])
        invariant
            start <= end <= count,
            count == all@.len(),
            all@ == text@,
            trimmed_end(text@.subrange(start as int, end as int)) == trimmed(text@),
        decreases end,
    {
        assert(text@.subrange(start as int, end as int).drop_last() =~= text@.subrange(
            start as int,
            end - 1,
        ));
        end -= 1;
    }
    text.substring_char(start, end)
}

/// The name of a family.
pub fn font_name_for_id(font_id: i16) -> (name: Option<&'static str>)
    ensures
        match name {
            Some(text) => font_name(font_id) == Some(text@),
            None => font_name(font_id) is None,
        },
{
    if font_id == FONT_CHICAGO {
        Some("Chicago")
    } else if font_id == FONT_APPLICATION {
        Some("Application")
    } else if font_id == FONT_NEWYORK {
        Some("New York")
    } else if font_id == FONT_GENEVA {
        Some("Geneva")
    } else if font_id == FONT_MONACO {
        Some("Monaco")
    } else if font_id == FONT_VENICE {
        Some("Venice")
    } else if font_id == FONT_LONDON {
        Some("London")
    } else if font_id == FONT_ATHENS {
        Some("Athens")
    } else if font_id == FONT_SANFRAN {
        Some("San Francisco")
    } else if font_id == FONT_TORONTO {
        Some("Toronto")
    } else if font_id == FONT_CAIRO {
        Some("Cairo")
    } else if font_id == FONT_LOSANGELES {
        Some("Los Angeles")
    } else if font_id == FONT_PALATINO {
        Some("Palatino")
    } else if font_id == FONT_TIMES {
        Some("Times")
    } else if font_id == FONT_HELVETICA {
        Some("Helvetica")
    } else if font_id == FONT_COURIER {
        Some("Courier")
    } else if font_id == FONT_SYMBOL {
        Some("Symbol")
    } else if font_id == FONT_MOBILE {
        Some("Mobile")
    } else {
        None
    }
}

/// The family of a name, without regard to the white space around it and to
/// the case of ASCII letters.
pub fn font_id_for_name(name: &str) -> (font_id: Option<i16>)
    ensures
        font_id == font_named(trimmed(name@)),
{
    let needle = trim_text(name);
    if equal_ignoring_case("Chicago", needle) {
        Some(FONT_CHICAGO)
    } else if equal_ignoring_case("Application", needle) {
        Some(FONT_APPLICATION)
    } else if equal_ignoring_case("New York", needle) {
        Some(FONT_NEWYORK)
    } else if equal_ignoring_case("Geneva", needle) {
        Some(FONT_GENEVA)
    } else if equal_ignoring_case("Monaco", needle) {
        Some(FONT_MONACO)
    } else if equal_ignoring_case("Venice", needle) {
        Some(FONT_VENICE)
    } else if equal_ignoring_case("London", needle) {
        Some(FONT_LONDON)
    } else if equal_ignoring_case("Athens", needle) {
        Some(FONT_ATHENS)
    } else if equal_ignoring_case("San Francisco", needle) {
        Some(FONT_SANFRAN)
    } else if equal_ignoring_case("Toronto", needle) {
        Some(FONT_TORONTO)
    } else if equal_ignoring_case("Cairo", needle) {
        Some(FONT_CAIRO)
    } else if equal_ignoring_case("Los Angeles", needle) {
        Some(FONT_LOSANGELES)
    } else if equal_ignoring_case("Palatino", needle) {
        Some(FONT_PALATINO)
    } else if equal_ignoring_case("Times", needle) {
        Some(FONT_TIMES)
    } else if equal_ignoring_case("Helvetica", needle) {
        Some(FONT_HELVETICA)
    } else if equal_ignoring_case("Courier", needle) {
        Some(FONT_COURIER)
    } else if equal_ignoring_case("Symbol", needle) {
        Some(FONT_SYMBOL)
    } else if equal_ignoring_case("Mobile", needle) {
        Some(FONT_MOBILE)
    } else {
        None
    }
}

/// A name that starts and ends with letters has nothing to trim.
proof fn lemma_plain_name(name: Seq<char>)
    requires
        name.len() > 0,
        !white_space(name[0]),
        !white_space(name.last()),
    ensures
        trimmed(name) == name,
{
    assert(name.skip(0) =~= name);
}

/// Every family is found under its own name.
pub proof fn family_is_found_by_its_name(font_id: i16)
    requires
        font_name(font_id) is Some,
    ensures
        font_named(trimmed(font_name(font_id)->0)) == Some(font_id),
{
    reveal_strlit("Chicago");
    reveal_strlit("Application");
    reveal_strlit("New York");
    reveal_strlit("Geneva");
    reveal_strlit("Monaco");
    reveal_strlit("Venice");
    reveal_strlit("London");
    reveal_strlit("Athens");
    reveal_strlit("San Francisco");
    reveal_strlit("Toronto");
    reveal_strlit("Cairo");
    reveal_strlit("Los Angeles");
    reveal_strlit("Palatino");
    reveal_strlit("Times");
    reveal_strlit("Helvetica");
    reveal_strlit("Courier");
    reveal_strlit("Symbol");
    reveal_strlit("Mobile");
    lemma_plain_name(font_name(font_id)->0);
    assert(crate::text::folded("Geneva"@[0]) != crate::text::folded("Monaco"@[0]));
    assert(crate::text::folded("Geneva"@[0]) != crate::text::folded("Venice"@[0]));
    assert(crate::text::folded("Monaco"@[0]) != crate::text::folded("Venice"@[0]));
    assert(crate::text::folded("Geneva"@[0]) != crate::text::folded("London"@[0]));
    assert(crate::text::folded("Monaco"@[0]) != crate::text::folded("London"@[0]));
    assert(crate::text::folded("Venice"@[0]) != crate::text::folded("London"@[0]));
    assert(crate::text::folded("Geneva"@[0]) != crate::text::folded("Athens"@[0]));
    assert(crate::text::folded("Monaco"@[0]) != crate::text::folded("Athens"@[0]));
    assert(crate::text::folded("Venice"@[0]) != crate::text::folded("Athens"@[0]));
    assert(crate::text::folded("London"@[0]) != crate::text::folded("Athens"@[0]));
    assert(crate::text::folded("Chicago"@[0]) != crate::text::folded("Toronto"@[0]));
    assert(crate::text::folded("Application"@[0]) != crate::text::folded("Los Angeles"@[0]));
    assert(crate::text::folded("New York"@[0]) != crate::text::folded("Palatino"@[0]));
    assert(crate::text::folded("Cairo"@[0]) != crate::text::folded("Times"@[0]));
    assert(crate::text::folded("Chicago"@[1]) != crate::text::folded("Courier"@[1]));
    assert(crate::text::folded("Toronto"@[0]) != crate::text::folded("Courier"@[0]));
    assert(crate::text::folded("Geneva"@[0]) != crate::text::folded("Symbol"@[0]));
    assert(crate::text::folded("Monaco"@[0]) != crate::text::folded("Symbol"@[0]));
    assert(crate::text::folded("Venice"@[0]) != crate::text::folded("Symbol"@[0]));
    assert(crate::text::folded("London"@[0]) != crate::text::folded("Symbol"@[0]));
    assert(crate::text::folded("Athens"@[0]) != crate::text::folded("Symbol"@[0]));
    assert(crate::text::folded("Geneva"@[0]) != crate::text::folded("Mobile"@[0]));
    assert(crate::text::folded("Monaco"@[2]) != crate::text::folded("Mobile"@[2]));
    assert(crate::text::folded("Venice"@[0]) != crate::text::folded("Mobile"@[0]));
    assert(crate::text::folded("London"@[0]) != crate::text::folded("Mobile"@[0]));
    assert(crate::text::folded("Athens"@[0]) != crate::text::folded("Mobile"@[0]));
    assert(crate::text::folded("Symbol"@[0]) != crate::text::folded("Mobile"@[0]));
}

/// A trimmed text is a piece of the text, neither starts nor ends with white
/// space, and only white space was cut off at either end.
pub proof fn trimmed_text_has_no_space_around_it(text: Seq<char>)
    ensures
        trimmed(text).len() > 0 ==> !white_space(trimmed(text)[0]) && !white_space(
            trimmed(text).last(),
        ),
        exists|start: int|
            0 <= start && start + trimmed(text).len() <= text.len() && trimmed(text)
                == #[trigger] text.subrange(start, start + trimmed(text).len()) && (forall|i: int|
                0 <= i < start || start + trimmed(text).len() <= i < text.len() ==> white_space(
                    #[trigger] text[i],
                )),
{
    let start = leading_space(text);
    lemma_leading_space_bound(text);
    let rest = text.skip(start);
    lemma_trimmed_end_piece(rest);
    let piece = trimmed(text);
    assert(piece =~= text.subrange(start, start + piece.len()));
    assert forall|i: int|
        0 <= i < start || start + piece.len() <= i < text.len() implies white_space(
        #[trigger] text[i],
    ) by {
        if i >= start {
            assert(rest[i - start] == text[i]);
        }
    }
    if piece.len() > 0 {
        assert(piece[0] == rest[0]);
        assert(rest[0] == text[start]);
    }
}

proof fn lemma_leading_space_bound(text: Seq<char>)
    ensures
        0 <= leading_space(text) <= text.len(),
        forall|i: int| 0 <= i < leading_space(text) ==> white_space(#[trigger] text[i]),
        leading_space(text) < text.len() ==> !white_space(text[leading_space(text)]),
    decreases text.len(),
{
    if text.len() > 0 && white_space(text[0]) {
        let rest = text.skip(1);
        lemma_leading_space_bound(rest);
        assert forall|i: int| 0 <= i < leading_space(text) implies white_space(#[trigger] text[i]) by {
            if i > 0 {
                assert(rest[i - 1] == text[i]);
            }
        }
        if leading_space(text) < text.len() {
            assert(rest[leading_space(rest)] == text[leading_space(text)]);
        }
    }
}

proof fn lemma_trimmed_end_piece(text: Seq<char>)
    ensures
        trimmed_end(text).len() <= text.len(),
        trimmed_end(text) == text.take(trimmed_end(text).len() as int),
        forall|i: int|
            trimmed_end(text).len() <= i < text.len() ==> white_space(#[trigger] text[i]),
        trimmed_end(text).len() > 0 ==> !white_space(trimmed_end(text).last()),
    decreases text.len(),
{
    if text.len() == 0 || !white_space(text.last()) {
        assert(text.take(text.len() as int) =~= text);
    } else {
        let rest = text.drop_last();
        lemma_trimmed_end_piece(rest);
        let kept = trimmed_end(rest).len() as int;
        assert(rest.take(kept) =~= text.take(kept));
        assert forall|i: int| kept <= i < text.len() implies white_space(#[trigger] text[i]) by {
            if i < rest.len() {
                assert(rest[i] == text[i]);
            }
        }
    }
}

} // verus!
