//! Names that compare without regard to ASCII case, and numbers as text.

use vstd::prelude::*;

verus! {

/// The number of a character, with ASCII capitals as small letters.
pub open spec fn folded(c: char) -> int {
    if 'A' <= c && c <= 'Z' {
        c as int + 32
    } else {
        c as int
    }
}

/// Two names agree but for the case of ASCII letters.
pub open spec fn same_name(a: Seq<char>, b: Seq<char>) -> bool {
    &&& a.len() == b.len()
    &&& forall|i: int| 0 <= i < a.len() ==> folded(#[trigger] a[i]) == folded(b[i])
}

/// The path lies below `folder`.
pub open spec fn below(path: Seq<char>, folder: Seq<char>) -> bool {
    &&& path.len() > folder.len()
    &&& same_name(path.take(folder.len() as int), folder)
    &&& path[folder.len() as int] == '/'
}

/// The path is `folder` or lies below it.
pub open spec fn within(path: Seq<char>, folder: Seq<char>) -> bool {
    same_name(path, folder) || below(path, folder)
}

/// Position of the last slash, or a negative number.
pub open spec fn last_slash(path: Seq<char>) -> int
    decreases path.len(),
{
    if path.len() == 0 {
        -1
    } else if path.last() == '/' {
        path.len() - 1
    } else {
        last_slash(path.drop_last())
    }
}

/// The path up to the last slash; empty where there is none.
pub open spec fn parent_path(path: Seq<char>) -> Seq<char> {
    if last_slash(path) < 0 {
        Seq::empty()
    } else {
        path.take(last_slash(path))
    }
}

/// The characters of a string.
pub(crate) fn characters(text: &str) -> (characters: Vec<char>)
    ensures
        characters@ == text@,
{
    let mut characters: Vec<char> = Vec::new();
    for c in it: text.chars()
        invariant
            characters@ == it.seq().take(it.index()),
            it.seq() == text@,
    {
        proof {
            assert(it.seq().take(it.index() + 1) =~= it.seq().take(it.index()).push(
                it.seq()[it.index()],
            ));
        }
        characters.push(c);
    }
    assert(text@.take(text@.len() as int) =~= text@);
    characters
}

fn fold(c: char) -> (number: u32)
    ensures
        number == folded(c),
{
    let number: u32 = c as u32;
    if 'A' <= c && c <= 'Z' {
        number + 32
    } else {
        number
    }
}

/// Whether `path`, up to the length of `name`, agrees with `name`.
fn leading_agrees(path: &Vec<char>, name: &Vec<char>) -> (agrees: bool)
    requires
        path@.len() >= name@.len(),
    ensures
        agrees == same_name(path@.take(name@.len() as int), name@),
{
    let mut i: usize = 0;
    while i < name.len()
        invariant
            i <= name@.len() <= path@.len(),
            forall|j: int| 0 <= j < i ==> folded(#[trigger] path@[j]) == folded(name@[j]),
        decreases name@.len() - i,
    {
        if fold(path[i]) != fold(name[i]) {
            assert(folded(path@.take(name@.len() as int)[i as int]) != folded(name@[i as int]));
            return false;
        }
        i += 1;
    }
    true
}

/// Whether two names agree but for the case of ASCII letters.
pub fn equal_ignoring_case(a: &str, b: &str) -> (equal: bool)
    ensures
        equal == same_name(a@, b@),
{
    let left = characters(a);
    let right = characters(b);
    assert(left@.take(left@.len() as int) =~= left@);
    left.len() == right.len() && leading_agrees(&left, &right)
}

/// Whether a path is a folder or lies below it.
pub fn is_within(path: &str, folder: &str) -> (inside: bool)
    ensures
        inside == within(path@, folder@),
{
    let left = characters(path);
    let right = characters(folder);
    assert(left@.take(left@.len() as int) =~= left@);
    if left.len() < right.len() {
        return false;
    }
    leading_agrees(&left, &right) && (left.len() == right.len() || left[right.len()] == '/')
}

/// The path up to the last slash; empty where there is none.
pub fn parent_of(path: &str) -> (parent: String)
    ensures
        parent@ == parent_path(path@),
{
    let path_characters = characters(path);
    let mut end: usize = path_characters.len();
    assert(path@.take(end as int) =~= path@);
    while end > 0
        invariant
            end <= path@.len(),
            path_characters@ == path@,
            last_slash(path@) == last_slash(path@.take(end as int)),
        decreases end,
    {
        assert(path@.take(end as int).drop_last() =~= path@.take(end - 1));
        assert(path@.take(end as int).last() == path@[end - 1]);
        if path_characters[end - 1] == '/' {
            let parent = path.substring_char(0, end - 1);
            assert(path@.subrange(0, end - 1) =~= path@.take(end - 1));
            return parent.to_owned();
        }
        end -= 1;
    }
    String::new()
}

/// Two characters agree but for case exactly where they are equal or the small
/// and the capital form of one letter from A to Z.
pub proof fn characters_agree_but_for_case(a: char, b: char)
    ensures
        same_name(seq![a], seq![b]) <==> a == b || ('A' <= a && a <= 'Z' && b as int == a as int
            + 32) || ('A' <= b && b <= 'Z' && a as int == b as int + 32),
{
    let (one, other) = (seq![a], seq![b]);
    assert(one[0] == a && other[0] == b);
    if folded(a) == folded(b) {
        assert forall|i: int| 0 <= i < one.len() implies folded(#[trigger] one[i]) == folded(
            other[i],
        ) by {}
    }
}

/// Names agree exactly where they are of one length and agree character by
/// character.
pub proof fn names_agree_character_by_character(a: Seq<char>, b: Seq<char>)
    ensures
        same_name(a, b) <==> a.len() == b.len() && forall|i: int|
            0 <= i < a.len() ==> same_name(seq![#[trigger] a[i]], seq![b[i]]),
{
    if a.len() == b.len() {
        assert forall|i: int| 0 <= i < a.len() implies (folded(#[trigger] a[i]) == folded(b[i]))
            == same_name(seq![a[i]], seq![b[i]]) by {
            let (one, other) = (seq![a[i]], seq![b[i]]);
            assert(one[0] == a[i] && other[0] == b[i]);
        }
        if forall|i: int| 0 <= i < a.len() ==> same_name(seq![#[trigger] a[i]], seq![b[i]]) {
            assert forall|i: int| 0 <= i < a.len() implies folded(#[trigger] a[i]) == folded(
                b[i],
            ) by {
                assert(same_name(seq![a[i]], seq![b[i]]));
            }
        }
    }
}

/// What comes before the last slash of a path is its parent; a name without a
/// slash lies in the root.
pub proof fn child_lies_below_its_parent(parent: Seq<char>, leaf: Seq<char>)
    requires
        !leaf.contains('/'),
    ensures
        parent_path(parent.push('/') + leaf) == parent,
        parent_path(leaf) == Seq::<char>::empty(),
    decreases leaf.len(),
{
    let path = parent.push('/') + leaf;
    if leaf.len() == 0 {
        assert(path =~= parent.push('/'));
        assert(path.take(parent.len() as int) =~= parent);
    } else {
        let shorter = leaf.drop_last();
        assert forall|i: int| 0 <= i < shorter.len() implies shorter[i] != '/' by {
            assert(leaf.contains(leaf[i]));
        }
        child_lies_below_its_parent(parent, shorter);
        assert(leaf.contains(leaf[leaf.len() - 1]));
        assert(path.drop_last() =~= parent.push('/') + shorter);
        lemma_last_slash(path);
        lemma_last_slash(leaf);
        lemma_last_slash(parent.push('/') + shorter);
        lemma_last_slash(shorter);
        let at = last_slash(path);
        assert(at == last_slash(parent.push('/') + shorter));
        if at >= 0 {
            assert(path.take(at) =~= (parent.push('/') + shorter).take(at));
        }
    }
}

proof fn lemma_last_slash(path: Seq<char>)
    ensures
        -1 <= last_slash(path) < path.len(),
        last_slash(path) >= 0 ==> path[last_slash(path)] == '/',
        forall|i: int| last_slash(path) < i < path.len() ==> #[trigger] path[i] != '/',
    decreases path.len(),
{
    if path.len() > 0 && path.last() != '/' {
        lemma_last_slash(path.drop_last());
        assert forall|i: int| last_slash(path) < i < path.len() implies #[trigger] path[i] != '/' by {
            if i < path.len() - 1 {
                assert(path.drop_last()[i] == path[i]);
            }
        }
    }
}

/// A path is within a folder exactly where it is the folder or continues it
/// behind a slash, but for case.
pub proof fn folder_holds_what_continues_it(
    folder: Seq<char>,
    spelled: Seq<char>,
    rest: Seq<char>,
    next: char,
)
    requires
        same_name(spelled, folder),
    ensures
        within(spelled, folder),
        within(spelled.push(next) + rest, folder) <==> next == '/',
        forall|shorter: Seq<char>|
            shorter.len() < folder.len() ==> !#[trigger] within(shorter, folder),
        forall|other: Seq<char>|
            other.len() >= folder.len() && !same_name(other.take(folder.len() as int), folder)
                ==> !#[trigger] within(other, folder),
{
    let path = spelled.push(next) + rest;
    assert(path.take(folder.len() as int) =~= spelled);
    assert(path[folder.len() as int] == next);
    assert forall|other: Seq<char>|
        other.len() >= folder.len() && !same_name(
            other.take(folder.len() as int),
            folder,
        ) implies !#[trigger] within(other, folder) by {
        if other.len() == folder.len() {
            assert(other.take(folder.len() as int) =~= other);
        }
    }
}

/// The relation between names is an equivalence.
pub proof fn same_name_is_an_equivalence(a: Seq<char>, b: Seq<char>, c: Seq<char>)
    ensures
        same_name(a, a),
        same_name(a, b) ==> same_name(b, a),
        same_name(a, b) && same_name(b, c) ==> same_name(a, c),
{
}

/// The digits that numbers are written with.
pub open spec fn digit_characters() -> Seq<char> {
    seq!['0', '1', '2', '3', '4', '5', '6', '7', '8', '9', 'A', 'B', 'C', 'D', 'E', 'F']
}

/// The low `digits` hexadecimal digits of a number, the highest first.
pub open spec fn hex_characters(value: u32, digits: nat) -> Seq<char>
    decreases digits,
{
    if digits == 0 {
        Seq::empty()
    } else {
        hex_characters((value / 16) as u32, (digits - 1) as nat).push(
            digit_characters()[(value % 16) as int],
        )
    }
}

/// The decimal digits of a number that is not negative.
pub open spec fn natural_characters(value: int) -> Seq<char>
    decreases value,
{
    if value < 0 {
        Seq::empty()
    } else if value < 10 {
        seq![digit_characters()[value]]
    } else {
        natural_characters(value / 10).push(digit_characters()[value % 10])
    }
}

/// A number in decimal.
pub open spec fn decimal_characters(value: int) -> Seq<char> {
    if value < 0 {
        seq!['-'] + natural_characters(-value)
    } else {
        natural_characters(value)
    }
}

/// Write one digit behind a text.
fn append_digit(text: &mut String, digit: u32)
    requires
        digit < 16,
    ensures
        final(text)@ == old(text)@.push(digit_characters()[digit as int]),
{
    let digits = "0123456789ABCDEF";
    proof {
        reveal_strlit("0123456789ABCDEF");
        assert(digits@ =~= digit_characters());
    }
    let from: usize = digit as usize;
    let piece = digits.substring_char(from, from + 1);
    assert(piece@ =~= seq![digit_characters()[digit as int]]);
    text.append(piece);
    assert(text@ =~= old(text)@.push(digit_characters()[digit as int]));
}

/// Write the low hexadecimal digits of a number behind a text.
fn append_hex(text: &mut String, value: u32, digits: u32)
    ensures
        final(text)@ == old(text)@ + hex_characters(value, digits as nat),
    decreases digits,
{
    if digits == 0 {
        assert(text@ =~= old(text)@ + hex_characters(value, 0));
        return;
    }
    append_hex(text, value / 16, digits - 1);
    append_digit(text, value % 16);
    assert(text@ =~= old(text)@ + hex_characters(value, digits as nat));
}

/// A number in the form `0x00123456`.
pub fn hex_text(value: u32) -> (text: String)
    ensures
        text@ == seq!['0', 'x'] + hex_characters(value, 8),
{
    let mut text = "0x".to_owned();
    proof {
        reveal_strlit("0x");
        assert(text@ =~= seq!['0', 'x']);
    }
    append_hex(&mut text, value, 8);
    text
}

/// Write the decimal digits of a number behind a text.
fn append_natural(text: &mut String, value: u32)
    ensures
        final(text)@ == old(text)@ + natural_characters(value as int),
    decreases value,
{
    if value < 10 {
        append_digit(text, value);
    } else {
        append_natural(text, value / 10);
        append_digit(text, value % 10);
    }
    assert(text@ =~= old(text)@ + natural_characters(value as int));
}

/// A number in decimal.
pub fn decimal_text(value: i16) -> (text: String)
    ensures
        text@ == decimal_characters(value as int),
{
    if value < 0 {
        let mut text = "-".to_owned();
        proof {
            reveal_strlit("-");
            assert(text@ =~= seq!['-']);
        }
        let magnitude: i32 = -(value as i32);
        append_natural(&mut text, magnitude as u32);
        text
    } else {
        let mut text = String::new();
        append_natural(&mut text, value as u32);
        assert(text@ =~= natural_characters(value as int));
        text
    }
}

/// What a digit counts.
pub open spec fn digit_value(digit: char) -> int {
    if digit as int >= 'A' as int {
        digit as int - 'A' as int + 10
    } else {
        digit as int - '0' as int
    }
}

/// The number that digits spell in a base.
pub open spec fn number_read(digits: Seq<char>, base: int) -> int
    decreases digits.len(),
{
    if digits.len() == 0 {
        0
    } else {
        number_read(digits.drop_last(), base) * base + digit_value(digits.last())
    }
}

/// Hexadecimal digits spell the number that they stand for, modulo what they
/// can hold; eight spell every number.
pub proof fn hex_digits_spell_their_number(value: u32)
    ensures
        hex_characters(value, 8).len() == 8,
        number_read(hex_characters(value, 8), 16) == value,
{
    lemma_hex_read(value, 8);
}

/// What a number is below for it to fit into some hexadecimal digits.
pub open spec fn hex_bound(digits: nat) -> int
    decreases digits,
{
    if digits == 0 {
        1
    } else {
        16 * hex_bound((digits - 1) as nat)
    }
}

proof fn lemma_hex_read(value: u32, digits: nat)
    requires
        digits <= 8,
    ensures
        hex_characters(value, digits).len() == digits,
        digits == 8 || value < hex_bound(digits) ==> number_read(
            hex_characters(value, digits),
            16,
        ) == value,
    decreases digits,
{
    if digits > 0 {
        let fewer = (digits - 1) as nat;
        let front = hex_characters((value / 16) as u32, fewer);
        lemma_hex_read((value / 16) as u32, fewer);
        assert(hex_characters(value, digits).drop_last() =~= front);
        if digits == 8 {
            reveal_with_fuel(hex_bound, 8);
        }
    }
}

/// Decimal digits spell the number that they stand for, without a leading
/// zero; a number below zero has a sign before the digits of its opposite.
pub proof fn decimal_digits_spell_their_number(value: int)
    ensures
        value >= 0 ==> number_read(decimal_characters(value), 10) == value,
        value > 0 ==> decimal_characters(value)[0] != '0',
        value < 0 ==> decimal_characters(value)[0] == '-' && number_read(
            decimal_characters(value).skip(1),
            10,
        ) == -value,
{
    if value < 0 {
        lemma_decimal_read(-value);
        assert(decimal_characters(value).skip(1) =~= natural_characters(-value));
    } else {
        lemma_decimal_read(value);
    }
}

proof fn lemma_decimal_read(value: int)
    requires
        value >= 0,
    ensures
        natural_characters(value).len() > 0,
        number_read(natural_characters(value), 10) == value,
        value > 0 ==> natural_characters(value)[0] != '0',
    decreases value,
{
    if value < 10 {
        reveal_with_fuel(number_read, 2);
        assert(natural_characters(value).drop_last() =~= Seq::<char>::empty());
    } else {
        lemma_decimal_read(value / 10);
        assert(natural_characters(value).drop_last() =~= natural_characters(value / 10));
    }
}

} // verus!
