//! Image versions as sequences of numbers.

use crate::order::{lex_before, number_order, number_order_is_total, numbers_before, values};
use crate::text::{chars_of, decimal, digit_char};
use vstd::prelude::*;

verus! {

/// `c` is one of the ten ASCII digits.
pub open spec fn ascii_digit(c: char) -> bool {
    '0' <= c <= '9'
}

/// The fields of a text: the pieces between its characters that are no digits.
/// A digit belongs to the last field so far, anything else opens a new one.
pub open spec fn digit_fields(text: Seq<char>) -> Seq<Seq<char>>
    decreases text.len(),
{
    if text.len() == 0 {
        seq![Seq::empty()]
    } else {
        let fields = digit_fields(text.drop_last());
        if ascii_digit(text.last()) {
            fields.drop_last().push(fields.last().push(text.last()))
        } else {
            fields.push(Seq::empty())
        }
    }
}

/// The number that a run of digits denotes.
pub open spec fn run_value(run: Seq<char>) -> nat
    decreases run.len(),
{
    if run.len() == 0 {
        0
    } else {
        run_value(run.drop_last()) * 10 + (run.last() as nat - '0' as nat) as nat
    }
}

/// The number that a field holds. An empty field holds none, and neither does
/// one whose number is over 64 bits.
pub open spec fn field_number(field: Seq<char>) -> Option<u64> {
    if field.len() > 0 && run_value(field) <= u64::MAX {
        Some(run_value(field) as u64)
    } else {
        None
    }
}

/// The numbers of a version, from left to right.
pub open spec fn version_numbers(version: Seq<char>) -> Seq<u64> {
    digit_fields(version).filter_map(|field: Seq<char>| field_number(field))
}

/// `a` is an older version than `b`.
pub open spec fn older(a: Seq<char>, b: Seq<char>) -> bool {
    numbers_before(version_numbers(a), version_numbers(b))
}

/// Numbers in decimal notation with a separator between them.
pub open spec fn dotted(numbers: Seq<u64>, separator: char) -> Seq<char>
    decreases numbers.len(),
{
    if numbers.len() == 0 {
        Seq::empty()
    } else if numbers.len() == 1 {
        decimal(numbers[0] as nat)
    } else {
        dotted(numbers.drop_last(), separator).push(separator) + decimal(numbers.last() as nat)
    }
}

/// Numeric components of a version, for ordering (so `24.4.10` sorts after `24.4.9`).
pub fn version_key(version: &str) -> (key: Vec<u64>)
    ensures
        key@ == version_numbers(version@),
{
    let ghost number = |field: Seq<char>| field_number(field);
    let chars = chars_of(version);
    let mut key: Vec<u64> = Vec::new();
    // The field that is being read: whether it holds a digit yet, and its number
    // as long as that fits.
    let mut started: bool = false;
    let mut value: Option<u64> = Some(0);
    let mut at: usize = 0;
    let ghost mut fields = digit_fields(chars@.take(0));
    proof {
        assert(chars@.take(0) =~= Seq::<char>::empty());
        assert(fields.drop_last() =~= Seq::<Seq<char>>::empty());
        assert(fields.last().len() == 0);
    }
    while at < chars.len()
        invariant
            at <= chars.len(),
            number == |field: Seq<char>| field_number(field),
            fields == digit_fields(chars@.take(at as int)),
            fields.len() > 0,
            key@ == fields.drop_last().filter_map(number),
            started == (fields.last().len() > 0),
            match value {
                Some(value) => value == run_value(fields.last()),
                None => run_value(fields.last()) > u64::MAX,
            },
        decreases chars.len() - at,
    {
        let c = chars[at];
        let ghost seen = chars@.take(at as int);
        let ghost next = chars@.take(at + 1);
        proof {
            assert(next.drop_last() =~= seen);
            assert(next.last() == c);
        }
        if '0' <= c && c <= '9' {
            let digit: u64 = (c as u32 - 48) as u64;
            let ghost grown = fields.last().push(c);
            proof {
                assert(grown.drop_last() =~= fields.last());
                assert(run_value(grown) == run_value(fields.last()) * 10 + digit);
            }
            value = match value {
                Some(value) => match value.checked_mul(10) {
                    Some(tens) => tens.checked_add(digit),
                    None => None,
                },
                None => None,
            };
            started = true;
            proof {
                let prior = fields;
                fields = prior.drop_last().push(grown);
                assert(fields.drop_last() =~= prior.drop_last());
            }
        } else {
            if started {
                if let Some(value) = value {
                    key.push(value);
                }
            }
            value = Some(0);
            started = false;
            proof {
                assert(key@ =~= fields.filter_map(number));
                let prior = fields;
                fields = prior.push(Seq::empty());
                assert(fields.drop_last() =~= prior);
            }
        }
        at = at + 1;
    }
    if started {
        if let Some(value) = value {
            key.push(value);
        }
    }
    assert(chars@.take(at as int) =~= version@);
    assert(key@ =~= fields.filter_map(number));
    key
}

/// A version that is written as decimal numbers with a separator between them
/// has exactly those numbers.
pub proof fn version_numbers_of_dotted(numbers: Seq<u64>, separator: char)
    requires
        !ascii_digit(separator),
    ensures
        version_numbers(dotted(numbers, separator)) == numbers,
    decreases numbers.len(),
{
    let number = |field: Seq<char>| field_number(field);
    if numbers.len() == 0 {
        reveal_with_fuel(Seq::filter_map, 2);
        assert(version_numbers(dotted(numbers, separator)) =~= numbers);
    } else {
        let last = decimal(numbers.last() as nat);
        decimal_is_run(numbers.last() as nat);
        let front = if numbers.len() == 1 {
            Seq::empty()
        } else {
            dotted(numbers.drop_last(), separator).push(separator)
        };
        assert(dotted(numbers, separator) =~= front + last);
        run_extends_last_field(front, last);
        let opened = digit_fields(front);
        if numbers.len() == 1 {
            assert(opened.drop_last() =~= Seq::<Seq<char>>::empty());
            assert(opened.last() + last =~= last);
            assert(numbers.drop_last() =~= Seq::<u64>::empty());
        } else {
            version_numbers_of_dotted(numbers.drop_last(), separator);
            assert(front.drop_last() =~= dotted(numbers.drop_last(), separator));
            assert(opened.drop_last() =~= digit_fields(front.drop_last()));
            assert(opened.last() + last =~= last);
        }
        let fields = opened.drop_last().push(last);
        assert(digit_fields(front + last) == fields);
        assert(fields.drop_last() =~= opened.drop_last());
        assert(opened.drop_last().filter_map(number) == numbers.drop_last());
        assert(number(fields.last()) == Some(numbers.last()));
        assert(fields.filter_map(number) =~= numbers.drop_last() + seq![numbers.last()]);
        assert(numbers =~= numbers.drop_last() + seq![numbers.last()]);
    }
}

/// Versions are ordered by the first number in which they differ, whatever
/// follows it.
pub proof fn first_difference_decides(
    shared: Seq<u64>,
    a: u64,
    b: u64,
    a_rest: Seq<u64>,
    b_rest: Seq<u64>,
)
    requires
        a < b,
    ensures
        numbers_before(shared.push(a) + a_rest, shared.push(b) + b_rest),
    decreases shared.len(),
{
    let left = shared.push(a) + a_rest;
    let right = shared.push(b) + b_rest;
    if shared.len() > 0 {
        first_difference_decides(shared.drop_first(), a, b, a_rest, b_rest);
        assert(values(left).drop_first() =~= values(shared.drop_first().push(a) + a_rest));
        assert(values(right).drop_first() =~= values(shared.drop_first().push(b) + b_rest));
        assert(values(left)[0] == shared[0] && values(right)[0] == shared[0]);
    } else {
        assert(values(left)[0] == a && values(right)[0] == b);
    }
}

/// A version with further numbers is newer than one that ends before them.
pub proof fn longer_is_newer(shared: Seq<u64>, more: Seq<u64>)
    requires
        more.len() > 0,
    ensures
        numbers_before(shared, shared + more),
    decreases shared.len(),
{
    if shared.len() > 0 {
        longer_is_newer(shared.drop_first(), more);
        assert(values(shared).drop_first() =~= values(shared.drop_first()));
        assert(values(shared + more).drop_first() =~= values(shared.drop_first() + more));
        assert(values(shared)[0] == values(shared + more)[0]);
    } else {
        assert(values(shared).len() == 0);
        assert(values(shared + more).len() > 0);
        assert(lex_before(values(shared), values(shared + more)));
    }
}

/// Decimal notation is a run of digits that denotes the number it was made from.
pub proof fn decimal_is_run(n: nat)
    ensures
        decimal(n).len() > 0,
        forall|i: int| 0 <= i < decimal(n).len() ==> ascii_digit(#[trigger] decimal(n)[i]),
        run_value(decimal(n)) == n,
    decreases n,
{
    let written = decimal(n);
    let last = digit_char(n % 10);
    assert('0' as nat == 48);
    assert(last as nat == 48 + n % 10);
    if n < 10 {
        assert(written.drop_last() =~= Seq::<char>::empty());
        assert(written.last() == last);
        reveal_with_fuel(run_value, 2);
    } else {
        decimal_is_run(n / 10);
        assert(written.drop_last() =~= decimal(n / 10));
        assert forall|i: int| 0 <= i < written.len() implies ascii_digit(#[trigger] written[i]) by {
            if i < written.len() - 1 {
                assert(written[i] == decimal(n / 10)[i]);
            }
        }
    }
}

/// Digits at the end of a text belong to its last field.
proof fn run_extends_last_field(front: Seq<char>, run: Seq<char>)
    requires
        forall|i: int| 0 <= i < run.len() ==> ascii_digit(#[trigger] run[i]),
    ensures
        digit_fields(front).len() > 0,
        digit_fields(front + run) == digit_fields(front).drop_last().push(
            digit_fields(front).last() + run,
        ),
    decreases run.len(),
{
    fields_not_empty(front);
    let opened = digit_fields(front);
    if run.len() == 0 {
        assert(front + run =~= front);
        assert(opened.last() + run =~= opened.last());
        assert(opened =~= opened.drop_last().push(opened.last()));
    } else {
        run_extends_last_field(front, run.drop_last());
        assert((front + run).drop_last() =~= front + run.drop_last());
        let prior = digit_fields(front + run.drop_last());
        assert(prior.drop_last() =~= opened.drop_last());
        assert(prior.last().push(run.last()) =~= opened.last() + run);
        assert(ascii_digit(run[run.len() - 1]));
    }
}

proof fn fields_not_empty(text: Seq<char>)
    ensures
        digit_fields(text).len() > 0,
    decreases text.len(),
{
    if text.len() > 0 {
        fields_not_empty(text.drop_last());
    }
}

/// A number of a version stands alone: no digit comes before it or after it.
pub open spec fn stands_alone(front: Seq<char>, tail: Seq<char>) -> bool {
    &&& front.len() > 0 ==> !ascii_digit(front.last())
    &&& tail.len() > 0 ==> !ascii_digit(tail[0])
}

/// Of two versions that are written alike up to a number, the one in which that number
/// is larger is newer, however many digits it has and whatever follows it.
pub proof fn larger_number_is_newer(
    front: Seq<char>,
    a: u64,
    b: u64,
    a_tail: Seq<char>,
    b_tail: Seq<char>,
)
    requires
        a < b,
        stands_alone(front, a_tail),
        stands_alone(front, b_tail),
    ensures
        older(front + decimal(a as nat) + a_tail, front + decimal(b as nat) + b_tail),
{
    numbers_around(front, a, a_tail);
    numbers_around(front, b, b_tail);
    let shared = version_numbers(front);
    first_difference_decides(shared, a, b, version_numbers(a_tail), version_numbers(b_tail));
    assert(shared + seq![a] =~= shared.push(a));
    assert(shared + seq![b] =~= shared.push(b));
}

proof fn numbers_around(front: Seq<char>, n: u64, tail: Seq<char>)
    requires
        stands_alone(front, tail),
    ensures
        version_numbers(front + decimal(n as nat) + tail) == version_numbers(front) + seq![n]
            + version_numbers(tail),
{
    let none = Seq::<char>::empty();
    let written = decimal(n as nat);
    version_numbers_of_dotted(Seq::empty(), '.');
    version_numbers_of_dotted(seq![n], '.');
    let head = front + written;
    if front.len() > 0 {
        let sep = front.last();
        assert(front =~= front.drop_last().push(sep) + none);
        assert(head =~= front.drop_last().push(sep) + written);
        separator_splits_version(front.drop_last(), sep, written);
        separator_splits_version(front.drop_last(), sep, none);
        assert(version_numbers(front) =~= version_numbers(front.drop_last()));
    } else {
        assert(front =~= none);
        assert(head =~= written);
    }
    assert(version_numbers(head) =~= version_numbers(front) + seq![n]);
    if tail.len() > 0 {
        let sep = tail[0];
        let rest = tail.drop_first();
        assert(tail =~= none.push(sep) + rest);
        assert(head + tail =~= head.push(sep) + rest);
        separator_splits_version(head, sep, rest);
        separator_splits_version(none, sep, rest);
        assert(version_numbers(tail) =~= version_numbers(rest));
    } else {
        assert(tail =~= none);
        assert(head + tail =~= head);
    }
    assert(version_numbers(head + tail) =~= version_numbers(head) + version_numbers(tail));
}

/// A character that is no digit splits a version: its numbers are those before it and
/// then those after it.
pub proof fn separator_splits_version(front: Seq<char>, separator: char, tail: Seq<char>)
    requires
        !('0' <= separator <= '9'),
    ensures
        version_numbers(front.push(separator) + tail) == version_numbers(front) + version_numbers(
            tail,
        ),
{
    fields_split(front, separator, tail);
    numbers_of_both(digit_fields(front), digit_fields(tail));
}

proof fn fields_split(front: Seq<char>, separator: char, tail: Seq<char>)
    requires
        !ascii_digit(separator),
    ensures
        digit_fields(front.push(separator) + tail) == digit_fields(front) + digit_fields(tail),
    decreases tail.len(),
{
    let text = front.push(separator) + tail;
    if tail.len() == 0 {
        assert(text.drop_last() =~= front);
        assert(digit_fields(text) =~= digit_fields(front) + digit_fields(tail));
    } else {
        let shorter = tail.drop_last();
        assert(text.drop_last() =~= front.push(separator) + shorter);
        fields_split(front, separator, shorter);
        fields_not_empty(shorter);
        assert(digit_fields(text) =~= digit_fields(front) + digit_fields(tail));
    }
}

proof fn numbers_of_both(a: Seq<Seq<char>>, b: Seq<Seq<char>>)
    ensures
        (a + b).filter_map(|field: Seq<char>| field_number(field)) == a.filter_map(
            |field: Seq<char>| field_number(field),
        ) + b.filter_map(|field: Seq<char>| field_number(field)),
    decreases b.len(),
{
    let number = |field: Seq<char>| field_number(field);
    if b.len() == 0 {
        assert(a + b =~= a);
        assert(b.filter_map(number) =~= Seq::<u64>::empty());
        assert(a.filter_map(number) + b.filter_map(number) =~= a.filter_map(number));
    } else {
        assert((a + b).drop_last() =~= a + b.drop_last());
        numbers_of_both(a, b.drop_last());
        assert((a + b).filter_map(number) =~= a.filter_map(number) + b.filter_map(number));
    }
}

/// A run of digits is one number, unless it needs more than 64 bits: then it is none, as
/// is an empty text. Leading zeros make no difference.
pub proof fn digit_run_is_one_number(run: Seq<char>)
    requires
        forall|i: int| 0 <= i < run.len() ==> '0' <= #[trigger] run[i] <= '9',
    ensures
        run.len() == 0 ==> version_numbers(run) == Seq::<u64>::empty(),
        run.len() > 0 && run_value(run) <= u64::MAX ==> version_numbers(run) == seq![
            run_value(run) as u64,
        ],
        run_value(run) > u64::MAX ==> version_numbers(run) == Seq::<u64>::empty(),
        run_value(seq!['0'] + run) == run_value(run),
{
    reveal_with_fuel(Seq::filter_map, 3);
    let none = Seq::<char>::empty();
    assert forall|i: int| 0 <= i < run.len() implies ascii_digit(#[trigger] run[i]) by {
        assert('0' <= run[i] <= '9');
    }
    run_extends_last_field(none, run);
    assert(none + run =~= run);
    assert(digit_fields(run) =~= seq![run]);
    assert(seq![run].drop_last() =~= Seq::<Seq<char>>::empty());
    assert(seq![run].last() == run);
    let number = |field: Seq<char>| field_number(field);
    assert(Seq::<Seq<char>>::empty().filter_map(number) =~= Seq::<u64>::empty());
    assert(version_numbers(run) =~= match field_number(run) {
        Some(n) => seq![n],
        None => Seq::empty(),
    });
    zero_first(run);
}

proof fn zero_first(run: Seq<char>)
    ensures
        run_value(seq!['0'] + run) == run_value(run),
    decreases run.len(),
{
    let longer = seq!['0'] + run;
    if run.len() == 0 {
        assert(longer.drop_last() =~= Seq::<char>::empty());
        assert(run_value(longer.drop_last()) == 0);
        assert(longer.last() == '0');
    } else {
        zero_first(run.drop_last());
        assert(longer.drop_last() =~= seq!['0'] + run.drop_last());
        assert(longer.last() == run.last());
    }
}

/// Every further digit of a run makes ten times the number and adds its own.
pub proof fn run_digit_by_digit(run: Seq<char>, digit: char)
    requires
        '0' <= digit <= '9',
    ensures
        run_value(Seq::<char>::empty()) == 0,
        run_value(run.push(digit)) == run_value(run) * 10 + (digit as nat - 48),
{
    assert(run.push(digit).drop_last() =~= run);
    assert('0' as nat == 48);
}

/// A version is older than another when its numbers come first, and for no other reason:
/// of two versions with different numbers exactly one is older, of two with the same
/// numbers neither is.
pub proof fn older_goes_by_numbers(a: Seq<char>, b: Seq<char>)
    ensures
        older(a, b) <==> numbers_before(version_numbers(a), version_numbers(b)),
        version_numbers(a) == version_numbers(b) ==> !older(a, b),
        version_numbers(a) != version_numbers(b) ==> (older(a, b) <==> !older(b, a)),
{
    number_order_is_total();
    let by_number = number_order();
    let (m, n) = (version_numbers(a), version_numbers(b));
    assert(!by_number(m, m));
    assert(m == n || numbers_before(m, n) || numbers_before(n, m));
    if by_number(m, n) && by_number(n, m) {
        assert(by_number(m, m));
    }
}

} // verus!
