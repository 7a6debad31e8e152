//! Texts: comparing, joining, trimming and writing numbers.

use crate::order::{
    code_points, code_points_injective, has_rank, listing_exists, lists, numbers_standing, ranks,
    ranks_among, sorted, text_before, text_listing, text_order, text_order_is_total, values,
    values_injective, Ranked, Standing,
};
use vstd::prelude::*;

verus! {

/// `String::push`: the character becomes the last one of the text.
pub assume_specification[ String::push ](text: &mut String, c: char)
    ensures
        final(text)@ == old(text)@.push(c),
;

/// The texts that a sequence of strings holds.
pub open spec fn texts(strings: Seq<String>) -> Seq<Seq<char>> {
    strings.map_values(|s: String| s@)
}

/// The text of an optional string, or `fallback` where there is none.
pub open spec fn or_text(text: Option<String>, fallback: Seq<char>) -> Seq<char> {
    match text {
        Some(text) => text@,
        None => fallback,
    }
}

/// The text of an optional string as an optional text.
pub open spec fn opt_text(text: Option<String>) -> Option<Seq<char>> {
    match text {
        Some(text) => Some(text@),
        None => None,
    }
}

/// The text of an optional string slice as an optional text.
pub open spec fn opt_str(text: Option<&str>) -> Option<Seq<char>> {
    match text {
        Some(text) => Some(text@),
        None => None,
    }
}

/// The first `n` parts, separated by a comma and a blank.
pub open spec fn joined_first(parts: Seq<Seq<char>>, n: nat) -> Seq<char>
    decreases n,
{
    if n == 0 {
        Seq::empty()
    } else if n == 1 {
        parts[0]
    } else {
        joined_first(parts, (n - 1) as nat) + ", "@ + parts[n - 1]
    }
}

/// All parts, separated by a comma and a blank.
pub open spec fn joined(parts: Seq<Seq<char>>) -> Seq<char> {
    joined_first(parts, parts.len())
}

/// The character of a decimal digit.
pub open spec fn digit_char(digit: nat) -> char {
    ('0' as nat + digit) as char
}

/// A number in decimal notation, without leading zeros.
pub open spec fn decimal(n: nat) -> Seq<char>
    decreases n,
{
    if n < 10 {
        seq![digit_char(n)]
    } else {
        decimal(n / 10).push(digit_char(n % 10))
    }
}

/// The characters with the Unicode property `White_Space`.
pub open spec fn white_space(c: char) -> bool {
    ||| '\u{9}' <= c <= '\u{d}'
    ||| c == ' '
    ||| c == '\u{85}'
    ||| c == '\u{a0}'
    ||| c == '\u{1680}'
    ||| '\u{2000}' <= c <= '\u{200a}'
    ||| c == '\u{2028}'
    ||| c == '\u{2029}'
    ||| c == '\u{202f}'
    ||| c == '\u{205f}'
    ||| c == '\u{3000}'
}

/// `text` without the white space it starts with.
pub open spec fn trimmed_start(text: Seq<char>) -> Seq<char>
    decreases text.len(),
{
    if text.len() > 0 && white_space(text[0]) {
        trimmed_start(text.drop_first())
    } else {
        text
    }
}

/// `text` without the white space it ends with.
pub open spec fn trimmed_end(text: Seq<char>) -> Seq<char>
    decreases text.len(),
{
    if text.len() > 0 && white_space(text.last()) {
        trimmed_end(text.drop_last())
    } else {
        text
    }
}

/// `text` without the white space around it.
pub open spec fn trimmed(text: Seq<char>) -> Seq<char> {
    trimmed_end(trimmed_start(text))
}

/// An optional text trimmed, where nothing or only white space counts as absent.
pub open spec fn given(text: Option<Seq<char>>) -> Option<Seq<char>> {
    match text {
        Some(text) => if trimmed(text).len() > 0 {
            Some(trimmed(text))
        } else {
            None
        },
        None => None,
    }
}

/// The characters of a text.
pub(crate) fn chars_of(text: &str) -> (chars: Vec<char>)
    ensures
        chars@ == text@,
{
    let mut chars: Vec<char> = Vec::new();
    for c in it: text.chars()
        invariant
            chars@ == it.seq().take(it.index() as int),
            it.seq() == text@,
    {
        chars.push(c);
    }
    assert(text@.take(text@.len() as int) =~= text@);
    chars
}

/// The code point of a character.
fn point_of(c: char) -> (point: u64)
    ensures
        point as int == c as int,
{
    c as u64
}

/// The code points of a text.
fn points_of(text: &str) -> (points: Vec<u64>)
    ensures
        values(points@) == code_points(text@),
{
    let chars = chars_of(text);
    let mut points: Vec<u64> = Vec::new();
    let mut at: usize = 0;
    while at < chars.len()
        invariant
            at <= chars.len(),
            points.len() == at,
            forall|i: int| 0 <= i < at ==> #[trigger] points@[i] as int == chars@[i] as int,
        decreases chars.len() - at,
    {
        points.push(point_of(chars[at]));
        at = at + 1;
    }
    assert(values(points@) =~= code_points(text@));
    points
}

/// How one text stands to another in code point order.
pub fn text_standing(a: &str, b: &str) -> (standing: Standing)
    ensures
        standing == Standing::Before <==> text_before(a@, b@),
        standing == Standing::Same <==> a@ == b@,
        standing == Standing::After <==> text_before(b@, a@),
{
    let a_points = points_of(a);
    let b_points = points_of(b);
    proof {
        if a_points@ == b_points@ {
            code_points_injective(a@, b@);
        }
        if a@ == b@ {
            values_injective(a_points@, b_points@);
        }
    }
    numbers_standing(&a_points, &b_points)
}

/// Whether two texts are the same.
pub(crate) fn same_text(a: &str, b: &str) -> (same: bool)
    ensures
        same == (a@ == b@),
{
    let standing = text_standing(a, b);
    match standing {
        Standing::Same => true,
        _ => false,
    }
}

/// Whether a text is among the given ones.
pub(crate) fn contains_text(items: &Vec<String>, text: &str) -> (found: bool)
    ensures
        found == texts(items@).contains(text@),
{
    let mut at: usize = 0;
    while at < items.len()
        invariant
            at <= items.len(),
            forall|i: int| 0 <= i < at ==> texts(items@)[i] != text@,
        decreases items.len() - at,
    {
        if same_text(items[at].as_str(), text) {
            assert(texts(items@)[at as int] == text@);
            return true;
        }
        at = at + 1;
    }
    false
}

/// All parts, separated by a comma and a blank.
pub fn join_texts(parts: &Vec<String>) -> (text: String)
    ensures
        text@ == joined(texts(parts@)),
{
    let mut text = String::new();
    let mut at: usize = 0;
    while at < parts.len()
        invariant
            at <= parts.len(),
            text@ == joined_first(texts(parts@), at as nat),
        decreases parts.len() - at,
    {
        if at > 0 {
            text.append(", ");
        }
        text.append(parts[at].as_str());
        assert(text@ =~= joined_first(texts(parts@), (at + 1) as nat));
        at = at + 1;
    }
    text
}

/// Appends a number in decimal notation.
pub(crate) fn push_decimal(text: &mut String, n: u64)
    ensures
        final(text)@ == old(text)@ + decimal(n as nat),
    decreases n,
{
    if n >= 10 {
        push_decimal(text, n / 10);
    }
    let digit: u8 = (n % 10) as u8;
    text.push((48u8 + digit) as char);
    assert(text@ =~= old(text)@ + decimal(n as nat));
}

/// A number in decimal notation.
pub fn decimal_text(n: u64) -> (text: String)
    ensures
        text@ == decimal(n as nat),
{
    let mut text = String::new();
    push_decimal(&mut text, n);
    assert(text@ =~= decimal(n as nat));
    text
}

/// Whether a character has the Unicode property `White_Space`.
pub fn is_white_space(c: char) -> (white: bool)
    ensures
        white == white_space(c),
{
    ('\u{9}' <= c && c <= '\u{d}') || c == ' ' || c == '\u{85}' || c == '\u{a0}' || c == '\u{1680}'
        || ('\u{2000}' <= c && c <= '\u{200a}') || c == '\u{2028}' || c == '\u{2029}' || c
        == '\u{202f}' || c == '\u{205f}' || c == '\u{3000}'
}

/// A text without the white space around it.
pub fn trim<'a>(text: &'a str) -> (inner: &'a str)
    ensures
        inner@ == trimmed(text@),
{
    let chars = chars_of(text);
    let mut from: usize = 0;
    assert(chars@.skip(0) =~= chars@);
    while from < chars.len() && is_white_space(chars[from])
        invariant
            from <= chars.len(),
            trimmed_start(chars@) == trimmed_start(chars@.skip(from as int)),
        decreases chars.len() - from,
    {
        assert(chars@.skip(from as int).drop_first() =~= chars@.skip(from + 1));
        from = from + 1;
    }
    let ghost tail = chars@.skip(from as int);
    assert(trimmed_start(chars@) == tail);
    let mut to: usize = chars.len();
    assert(chars@.subrange(from as int, to as int) =~= tail);
    while to > from && is_white_space(chars[to - 1])
        invariant
            from <= to <= chars.len(),
            trimmed_end(tail) == trimmed_end(chars@.subrange(from as int, to as int)),
        decreases to - from,
    {
        assert(chars@.subrange(from as int, to as int).drop_last() =~= chars@.subrange(
            from as int,
            to - 1,
        ));
        to = to - 1;
    }
    text.substring_char(from, to)
}

/// An optional text trimmed, where nothing or only white space counts as absent.
pub fn given_text<'a>(text: Option<&'a str>) -> (inner: Option<&'a str>)
    ensures
        opt_str(inner) == given(opt_str(text)),
{
    match text {
        Some(text) => {
            let inner = trim(text);
            if inner.is_empty() {
                None
            } else {
                Some(inner)
            }
        },
        None => None,
    }
}

/// The text of an optional string, or `fallback` where there is none.
pub(crate) fn text_or<'a>(text: &'a Option<String>, fallback: &'a str) -> (shown: &'a str)
    ensures
        shown@ == or_text(*text, fallback@),
{
    match text {
        Some(text) => text.as_str(),
        None => fallback,
    }
}

impl Ranked for String {
    type Rank = Seq<char>;

    open spec fn rank(&self) -> Seq<char> {
        self@
    }

    open spec fn order() -> spec_fn(Seq<char>, Seq<char>) -> bool {
        text_order()
    }

    proof fn order_is_strict() {
        text_order_is_total();
    }

    fn standing(&self, other: &Self) -> (standing: Standing) {
        text_standing(self.as_str(), other.as_str())
    }
}

/// The texts that there are among optional ones.
pub open spec fn texts_among(items: Seq<Option<String>>) -> Set<Seq<char>> {
    Set::new(
        |x: Seq<char>|
            exists|i: int| 0 <= i < items.len() && opt_text(#[trigger] items[i]) == Some(x),
    )
}

/// The texts that there are, in code point order and each once.
pub(crate) fn sorted_texts(items: Vec<Option<String>>) -> (listed: Vec<String>)
    ensures
        texts(listed@) == text_listing(texts_among(items@)),
        lists(texts(listed@), texts_among(items@), text_order()),
{
    let listed = sorted(items);
    proof {
        assert(texts(listed@) =~= ranks(listed@));
        let ranked = ranks_among(items@);
        let among = texts_among(items@);
        assert forall|x: Seq<char>| ranked.contains(x) == among.contains(x) by {
            if ranked.contains(x) {
                let i = choose|i: int| 0 <= i < items@.len() && has_rank(#[trigger] items@[i], x);
                assert(opt_text(items@[i]) == Some(x));
            }
            if among.contains(x) {
                let i = choose|i: int|
                    0 <= i < items@.len() && opt_text(#[trigger] items@[i]) == Some(x);
                assert(has_rank(items@[i], x));
            }
        }
        assert(ranked =~= among);
    }
    listed
}

/// A copy of an optional string.
pub(crate) fn opt_clone(text: Option<&String>) -> (copy: Option<String>)
    ensures
        copy == match text {
            Some(text) => Some(*text),
            None => None,
        },
{
    match text {
        Some(text) => Some(text.clone()),
        None => None,
    }
}

/// Every set of texts out of a sequence has a listing.
pub proof fn texts_are_listed(items: Seq<Seq<char>>, members: Set<Seq<char>>)
    requires
        forall|x: Seq<char>| #[trigger] members.contains(x) ==> items.contains(x),
    ensures
        lists(text_listing(members), members, text_order()),
{
    text_order_is_total();
    let before = text_order();
    assert forall|a: Seq<char>, b: Seq<char>| a == b || #[trigger] before(a, b) || before(b, a) by {
        assert(a == b || text_before(a, b) || text_before(b, a));
    }
    listing_exists(items, members, before);
}

/// Trimming leaves exactly what stands between the white space around a text.
pub proof fn trimming_strips_white_space(before: Seq<char>, inner: Seq<char>, after: Seq<char>)
    requires
        forall|i: int| 0 <= i < before.len() ==> white_space(#[trigger] before[i]),
        forall|i: int| 0 <= i < after.len() ==> white_space(#[trigger] after[i]),
        inner.len() > 0 ==> !white_space(inner[0]) && !white_space(inner.last()),
    ensures
        trimmed(before + inner + after) == inner,
    decreases before.len() + after.len(),
{
    let text = before + inner + after;
    if before.len() > 0 {
        trimming_strips_white_space(before.drop_first(), inner, after);
        assert(text.drop_first() =~= before.drop_first() + inner + after);
        assert(text[0] == before[0]);
    } else if inner.len() > 0 {
        assert(text[0] == inner[0]);
        assert(trimmed_start(text) == text);
        if after.len() > 0 {
            trimming_strips_white_space(before, inner, after.drop_last());
            let shorter = before + inner + after.drop_last();
            assert(text.drop_last() =~= shorter);
            assert(text.last() == after.last());
            assert(shorter[0] == inner[0]);
            assert(trimmed_start(shorter) == shorter);
        } else {
            assert(text =~= inner);
        }
    } else if after.len() > 0 {
        trimming_strips_white_space(before, inner, after.drop_first());
        assert(text.drop_first() =~= before + inner + after.drop_first());
        assert(text[0] == after[0]);
    } else {
        assert(text =~= inner);
    }
}

/// What is left after trimming neither starts nor ends with white space.
pub proof fn trimmed_has_bare_ends(text: Seq<char>)
    ensures
        trimmed(text).len() > 0 ==> !white_space(trimmed(text)[0]) && !white_space(
            trimmed(text).last(),
        ),
        trimmed(trimmed(text)) == trimmed(text),
{
    trimmed_start_is_bare(text);
    trimmed_end_is_bare(trimmed_start(text));
    trimming_strips_white_space(Seq::empty(), trimmed(text), Seq::empty());
    assert(Seq::<char>::empty() + trimmed(text) + Seq::<char>::empty() =~= trimmed(text));
}

proof fn trimmed_start_is_bare(text: Seq<char>)
    ensures
        trimmed_start(text).len() > 0 ==> !white_space(trimmed_start(text)[0]),
    decreases text.len(),
{
    if text.len() > 0 && white_space(text[0]) {
        trimmed_start_is_bare(text.drop_first());
    }
}

proof fn trimmed_end_is_bare(text: Seq<char>)
    ensures
        trimmed_end(text).len() > 0 ==> !white_space(trimmed_end(text).last()) && trimmed_end(
            text,
        )[0] == text[0],
    decreases text.len(),
{
    if text.len() > 0 && white_space(text.last()) {
        trimmed_end_is_bare(text.drop_last());
    }
}

/// The texts of strings are read one by one.
pub proof fn texts_one_by_one(strings: Seq<String>)
    ensures
        texts(strings).len() == strings.len(),
        forall|i: int| 0 <= i < strings.len() ==> #[trigger] texts(strings)[i] == strings[i]@,
{
}

/// Joining nothing gives nothing, joining one part gives that part, and every further
/// part is put behind a comma and a blank.
pub proof fn joined_part_by_part(parts: Seq<Seq<char>>, last: Seq<char>)
    ensures
        joined(Seq::<Seq<char>>::empty()) == Seq::<char>::empty(),
        parts.len() == 0 ==> joined(parts.push(last)) == last,
        parts.len() > 0 ==> joined(parts.push(last)) == joined(parts) + seq![',', ' '] + last,
{
    reveal_strlit(", ");
    assert(", "@ =~= seq![',', ' ']);
    joined_ignores_rest(parts, parts.push(last), parts.len());
}

proof fn joined_ignores_rest(a: Seq<Seq<char>>, b: Seq<Seq<char>>, n: nat)
    requires
        n <= a.len(),
        n <= b.len(),
        forall|i: int| 0 <= i < n ==> a[i] == b[i],
    ensures
        joined_first(a, n) == joined_first(b, n),
    decreases n,
{
    if n > 1 {
        joined_ignores_rest(a, b, (n - 1) as nat);
    }
}

/// A number is written with its digits from the highest to the lowest: one digit where it
/// is below ten, and otherwise those of its tenth part and then its last one. Only zero
/// starts with a zero.
pub proof fn decimal_digit_by_digit(n: nat, digit: nat)
    requires
        digit < 10,
    ensures
        decimal(digit).len() == 1,
        decimal(digit)[0] as nat == '0' as nat + digit,
        n > 0 ==> decimal(n * 10 + digit) == decimal(n) + decimal(digit),
        n > 0 ==> decimal(n)[0] != '0',
    decreases n,
{
    assert('0' as nat == 48);
    if n > 0 {
        assert((n * 10 + digit) / 10 == n && (n * 10 + digit) % 10 == digit);
        assert(decimal(n * 10 + digit) =~= decimal(n) + decimal(digit));
        if n >= 10 {
            decimal_digit_by_digit(n / 10, n % 10);
            assert(decimal(n / 10).len() > 0) by {
                decimal_is_long(n / 10);
            }
        } else {
            assert(decimal(n)[0] as nat == 48 + n);
        }
    }
}

proof fn decimal_is_long(n: nat)
    ensures
        decimal(n).len() > 0,
{
}

/// What is given is what stands between the white space around a text, and nothing where
/// only white space is there.
pub proof fn given_is_the_inner_text(before: Seq<char>, inner: Seq<char>, after: Seq<char>)
    requires
        forall|i: int| 0 <= i < before.len() ==> white_space(#[trigger] before[i]),
        forall|i: int| 0 <= i < after.len() ==> white_space(#[trigger] after[i]),
        inner.len() > 0 ==> !white_space(inner[0]) && !white_space(inner.last()),
    ensures
        given(None) is None,
        inner.len() > 0 ==> given(Some(before + inner + after)) == Some(inner),
        inner.len() == 0 ==> given(Some(before + inner + after)) is None,
{
    trimming_strips_white_space(before, inner, after);
}

} // verus!
