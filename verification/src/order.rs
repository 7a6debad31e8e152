//! Orders and the sorted listings that they give.
//!
//! A set of items is listed in order by the one sequence that holds exactly
//! those items and rises strictly. The orders used here are the lexicographic
//! ones, on texts by code point and on number sequences by value.

use vstd::prelude::*;

verus! {

/// How one value stands to another.
#[derive(Clone, Copy, Debug, PartialEq, Eq, Structural)]
pub enum Standing {
    Before,
    Same,
    After,
}

/// `a` comes strictly before `b` in lexicographic order: at the first place
/// where they differ `a` holds the smaller number or has already ended.
pub open spec fn lex_before(a: Seq<int>, b: Seq<int>) -> bool
    decreases a.len(),
{
    if b.len() == 0 {
        false
    } else if a.len() == 0 {
        true
    } else if a[0] != b[0] {
        a[0] < b[0]
    } else {
        lex_before(a.drop_first(), b.drop_first())
    }
}

/// The code points of a text.
pub open spec fn code_points(text: Seq<char>) -> Seq<int> {
    text.map_values(|c: char| c as int)
}

/// `a` comes strictly before `b` when texts are ordered by code point.
pub open spec fn text_before(a: Seq<char>, b: Seq<char>) -> bool {
    lex_before(code_points(a), code_points(b))
}

/// The values of a sequence of machine numbers.
pub open spec fn values(numbers: Seq<u64>) -> Seq<int> {
    numbers.map_values(|n: u64| n as int)
}

/// `a` comes strictly before `b` when number sequences are ordered place by place.
pub open spec fn numbers_before(a: Seq<u64>, b: Seq<u64>) -> bool {
    lex_before(values(a), values(b))
}

/// Every item comes strictly before all that follow it.
pub open spec fn rises<T>(items: Seq<T>, before: spec_fn(T, T) -> bool) -> bool {
    forall|i: int, j: int| 0 <= i < j < items.len() ==> before(#[trigger] items[i], #[trigger] items[j])
}

/// `listed` holds exactly the members of `members`, each once, in rising order.
pub open spec fn lists<T>(listed: Seq<T>, members: Set<T>, before: spec_fn(T, T) -> bool) -> bool {
    &&& rises(listed, before)
    &&& forall|x: T| #[trigger] listed.contains(x) <==> members.contains(x)
}

/// The members of a set in rising order.
pub open spec fn listing<T>(members: Set<T>, before: spec_fn(T, T) -> bool) -> Seq<T> {
    choose|listed: Seq<T>| lists(listed, members, before)
}

/// The order of texts by code point.
pub open spec fn text_order() -> spec_fn(Seq<char>, Seq<char>) -> bool {
    |a: Seq<char>, b: Seq<char>| text_before(a, b)
}

/// The order of number sequences place by place.
pub open spec fn number_order() -> spec_fn(Seq<u64>, Seq<u64>) -> bool {
    |a: Seq<u64>, b: Seq<u64>| numbers_before(a, b)
}

/// The texts of a set in code point order.
pub open spec fn text_listing(members: Set<Seq<char>>) -> Seq<Seq<char>> {
    listing(members, text_order())
}

/// Nothing comes before itself, and what comes before something comes before
/// all that the latter comes before.
pub open spec fn strict_order<T>(before: spec_fn(T, T) -> bool) -> bool {
    &&& forall|a: T| !#[trigger] before(a, a)
    &&& forall|a: T, b: T, c: T|
        #[trigger] before(a, b) && #[trigger] before(b, c) ==> before(a, c)
}

/// No sequence comes before itself.
pub proof fn lex_irreflexive(a: Seq<int>)
    ensures
        !lex_before(a, a),
    decreases a.len(),
{
    if a.len() > 0 {
        lex_irreflexive(a.drop_first());
    }
}

/// The lexicographic order is transitive.
pub proof fn lex_transitive(a: Seq<int>, b: Seq<int>, c: Seq<int>)
    requires
        lex_before(a, b),
        lex_before(b, c),
    ensures
        lex_before(a, c),
    decreases a.len(),
{
    if a.len() > 0 && b.len() > 0 && c.len() > 0 && a[0] == b[0] && b[0] == c[0] {
        lex_transitive(a.drop_first(), b.drop_first(), c.drop_first());
    }
}

/// Of two different sequences one comes before the other.
pub proof fn lex_total(a: Seq<int>, b: Seq<int>)
    ensures
        a == b || lex_before(a, b) || lex_before(b, a),
    decreases a.len(),
{
    if a.len() > 0 && b.len() > 0 && a[0] == b[0] {
        lex_total(a.drop_first(), b.drop_first());
        if a.drop_first() == b.drop_first() {
            assert(a =~= seq![a[0]] + a.drop_first());
            assert(b =~= seq![b[0]] + b.drop_first());
        }
    } else if a.len() == 0 && b.len() == 0 {
        assert(a =~= b);
    }
}

/// Texts are equal when their code points are.
pub proof fn code_points_injective(a: Seq<char>, b: Seq<char>)
    requires
        code_points(a) == code_points(b),
    ensures
        a == b,
{
    assert(a.len() == code_points(a).len() && b.len() == code_points(b).len());
    assert forall|i: int| 0 <= i < a.len() implies a[i] == b[i] by {
        assert(code_points(a)[i] == a[i] as int);
        assert(code_points(b)[i] == b[i] as int);
    }
    assert(a =~= b);
}

/// Number sequences are equal when their values are.
pub proof fn values_injective(a: Seq<u64>, b: Seq<u64>)
    requires
        values(a) == values(b),
    ensures
        a == b,
{
    assert(a.len() == values(a).len() && b.len() == values(b).len());
    assert forall|i: int| 0 <= i < a.len() implies a[i] == b[i] by {
        assert(values(a)[i] == a[i] as int);
        assert(values(b)[i] == b[i] as int);
    }
    assert(a =~= b);
}

/// Ordering texts by code point is a strict total order.
pub proof fn text_order_is_total()
    ensures
        strict_order(text_order()),
        forall|a: Seq<char>, b: Seq<char>|
            a == b || #[trigger] text_before(a, b) || text_before(b, a),
{
    let before = text_order();
    assert forall|a: Seq<char>| !#[trigger] before(a, a) by {
        lex_irreflexive(code_points(a));
    }
    assert forall|a: Seq<char>, b: Seq<char>, c: Seq<char>|
        #[trigger] before(a, b) && #[trigger] before(b, c) implies before(a, c) by {
        lex_transitive(code_points(a), code_points(b), code_points(c));
    }
    assert forall|a: Seq<char>, b: Seq<char>|
        a == b || #[trigger] text_before(a, b) || text_before(b, a) by {
        lex_total(code_points(a), code_points(b));
        if code_points(a) == code_points(b) {
            code_points_injective(a, b);
        }
    }
}

/// Ordering number sequences place by place is a strict total order.
pub proof fn number_order_is_total()
    ensures
        strict_order(number_order()),
        forall|a: Seq<u64>, b: Seq<u64>|
            a == b || #[trigger] numbers_before(a, b) || numbers_before(b, a),
{
    let before = number_order();
    assert forall|a: Seq<u64>| !#[trigger] before(a, a) by {
        lex_irreflexive(values(a));
    }
    assert forall|a: Seq<u64>, b: Seq<u64>, c: Seq<u64>|
        #[trigger] before(a, b) && #[trigger] before(b, c) implies before(a, c) by {
        lex_transitive(values(a), values(b), values(c));
    }
    assert forall|a: Seq<u64>, b: Seq<u64>|
        a == b || #[trigger] numbers_before(a, b) || numbers_before(b, a) by {
        lex_total(values(a), values(b));
        if values(a) == values(b) {
            values_injective(a, b);
        }
    }
}

/// Where two sequences agree up to a place, what follows it decides their order.
proof fn lex_step(a: Seq<int>, b: Seq<int>, at: int)
    requires
        0 <= at < a.len(),
        at < b.len(),
        a[at] == b[at],
    ensures
        lex_before(a.skip(at), b.skip(at)) == lex_before(a.skip(at + 1), b.skip(at + 1)),
{
    assert(a.skip(at).drop_first() =~= a.skip(at + 1));
    assert(b.skip(at).drop_first() =~= b.skip(at + 1));
}

/// How one number sequence stands to another, place by place.
pub fn numbers_standing(a: &Vec<u64>, b: &Vec<u64>) -> (standing: Standing)
    ensures
        standing == Standing::Before <==> numbers_before(a@, b@),
        standing == Standing::Same <==> a@ == b@,
        standing == Standing::After <==> numbers_before(b@, a@),
{
    let ghost left = values(a@);
    let ghost right = values(b@);
    proof {
        number_order_is_total();
        lex_irreflexive(left);
        assert(left.skip(0) =~= left && right.skip(0) =~= right);
        if lex_before(left, right) && lex_before(right, left) {
            lex_transitive(left, right, left);
        }
    }
    let mut at: usize = 0;
    while at < a.len() && at < b.len()
        invariant
            at <= a.len(),
            at <= b.len(),
            left == values(a@),
            right == values(b@),
            forall|i: int| 0 <= i < at ==> a@[i] == b@[i],
            lex_before(left, right) == lex_before(left.skip(at as int), right.skip(at as int)),
            lex_before(right, left) == lex_before(right.skip(at as int), left.skip(at as int)),
            !(lex_before(left, right) && lex_before(right, left)),
            !lex_before(left, left),
        decreases a.len() - at,
    {
        if a[at] < b[at] {
            return Standing::Before;
        }
        if b[at] < a[at] {
            return Standing::After;
        }
        proof {
            lex_step(left, right, at as int);
            lex_step(right, left, at as int);
        }
        at = at + 1;
    }
    if at < b.len() {
        Standing::Before
    } else if at < a.len() {
        Standing::After
    } else {
        assert(a@ =~= b@);
        Standing::Same
    }
}

/// A set has only one listing: two rising sequences with the same members are equal.
pub proof fn listing_unique<T>(
    a: Seq<T>,
    b: Seq<T>,
    members: Set<T>,
    before: spec_fn(T, T) -> bool,
)
    requires
        strict_order(before),
        lists(a, members, before),
        lists(b, members, before),
    ensures
        a == b,
    decreases a.len(),
{
    if a.len() == 0 {
        if b.len() > 0 {
            assert(b.contains(b[0]));
            assert(a.contains(b[0]));
        }
        assert(a =~= b);
    } else {
        assert(a.contains(a[0]));
        assert(b.contains(a[0]));
        let i = choose|i: int| 0 <= i < b.len() && b[i] == a[0];
        assert(b.contains(b[0]));
        assert(a.contains(b[0]));
        let j = choose|j: int| 0 <= j < a.len() && a[j] == b[0];
        if i != 0 {
            assert(before(b[0], b[i]));
            if j != 0 {
                assert(before(a[0], a[j]));
                assert(before(a[0], a[0]));
            }
            assert(false);
        }
        let rest = members.remove(a[0]);
        let a1 = a.drop_first();
        let b1 = b.drop_first();
        assert forall|x: T| #[trigger] a1.contains(x) <==> rest.contains(x) by {
            rest_contains(a, x, before);
            assert(a.contains(x) <==> members.contains(x));
        }
        assert forall|x: T| #[trigger] b1.contains(x) <==> rest.contains(x) by {
            rest_contains(b, x, before);
            assert(b.contains(x) <==> members.contains(x));
        }
        listing_unique(a1, b1, rest, before);
        assert(a =~= seq![a[0]] + a1);
        assert(b =~= seq![b[0]] + b1);
    }
}

proof fn rest_contains<T>(a: Seq<T>, x: T, before: spec_fn(T, T) -> bool)
    requires
        strict_order(before),
        rises(a, before),
        a.len() > 0,
    ensures
        a.drop_first().contains(x) <==> a.contains(x) && x != a[0],
{
    let rest = a.drop_first();
    if rest.contains(x) {
        let i = choose|i: int| 0 <= i < rest.len() && rest[i] == x;
        assert(a[i + 1] == x);
        assert(before(a[0], a[i + 1]));
    }
    if a.contains(x) && x != a[0] {
        let i = choose|i: int| 0 <= i < a.len() && a[i] == x;
        assert(rest[i - 1] == x);
    }
}

/// A rising sequence with the members of a set is that set's listing.
pub proof fn listing_is<T>(listed: Seq<T>, members: Set<T>, before: spec_fn(T, T) -> bool)
    requires
        strict_order(before),
        lists(listed, members, before),
    ensures
        listing(members, before) == listed,
{
    listing_unique(listing(members, before), listed, members, before);
}

/// Placing an item behind those that come before it, and in front of the first that
/// comes after it, keeps a sequence rising.
pub(crate) proof fn insert_rises<T>(
    items: Seq<T>,
    at: int,
    x: T,
    before: spec_fn(T, T) -> bool,
)
    requires
        strict_order(before),
        rises(items, before),
        0 <= at <= items.len(),
        forall|i: int| 0 <= i < at ==> before(#[trigger] items[i], x),
        at < items.len() ==> before(x, items[at]),
    ensures
        rises(items.insert(at, x), before),
        forall|y: T| #[trigger] items.insert(at, x).contains(y) <==> items.contains(y) || y == x,
{
    let grown = items.insert(at, x);
    assert forall|i: int| at <= i < items.len() implies before(x, #[trigger] items[i]) by {
        if i > at {
            assert(before(items[at], items[i]));
        }
    }
    assert forall|i: int, j: int| 0 <= i < j < grown.len() implies before(
        #[trigger] grown[i],
        #[trigger] grown[j],
    ) by {
        let i0 = if i < at { i } else { i - 1 };
        let j0 = if j < at { j } else { j - 1 };
        if i != at {
            assert(grown[i] == items[i0]);
        }
        if j != at {
            assert(grown[j] == items[j0]);
        }
    }
    assert forall|y: T| #[trigger] grown.contains(y) <==> items.contains(y) || y == x by {
        if grown.contains(y) && y != x {
            let i = choose|i: int| 0 <= i < grown.len() && grown[i] == y;
            assert(y == items[if i < at { i } else { i - 1 }]);
        }
        if items.contains(y) {
            let i = choose|i: int| 0 <= i < items.len() && items[i] == y;
            assert(grown[if i < at { i } else { i + 1 }] == y);
        }
        if y == x {
            assert(grown[at] == y);
        }
    }
}

/// Of two different items one comes before the other.
pub open spec fn connects<T>(before: spec_fn(T, T) -> bool) -> bool {
    forall|a: T, b: T| a == b || #[trigger] before(a, b) || before(b, a)
}

/// Every set of items out of a sequence has a listing.
pub proof fn listing_exists<T>(items: Seq<T>, members: Set<T>, before: spec_fn(T, T) -> bool)
    requires
        strict_order(before),
        connects(before),
        forall|x: T| #[trigger] members.contains(x) ==> items.contains(x),
    ensures
        lists(listing(members, before), members, before),
    decreases items.len(),
{
    if items.len() == 0 {
        assert(lists(Seq::<T>::empty(), members, before));
    } else {
        let x = items.last();
        let fewer = members.remove(x);
        assert forall|y: T| #[trigger] fewer.contains(y) implies items.drop_last().contains(
            y,
        ) by {
            assert(members.contains(y));
            let i = choose|i: int| 0 <= i < items.len() && items[i] == y;
            assert(items.drop_last()[i] == y);
        }
        listing_exists(items.drop_last(), fewer, before);
        let listed = listing(fewer, before);
        if members.contains(x) {
            assert(!listed.contains(x));
            let at = place_for(listed, x, before, 0);
            insert_rises(listed, at, x, before);
            let grown = listed.insert(at, x);
            assert forall|y: T| #[trigger] grown.contains(y) <==> members.contains(y) by {
                assert(listed.contains(y) <==> fewer.contains(y));
            }
            assert(lists(grown, members, before));
        } else {
            assert forall|y: T| #[trigger] listed.contains(y) <==> members.contains(y) by {
                assert(listed.contains(y) <==> fewer.contains(y));
            }
            assert(lists(listed, members, before));
        }
    }
}

/// The place at which an item belongs in a rising sequence that does not hold it.
proof fn place_for<T>(listed: Seq<T>, x: T, before: spec_fn(T, T) -> bool, from: int) -> (at: int)
    requires
        strict_order(before),
        connects(before),
        rises(listed, before),
        !listed.contains(x),
        0 <= from <= listed.len(),
        forall|i: int| 0 <= i < from ==> before(#[trigger] listed[i], x),
    ensures
        0 <= at <= listed.len(),
        forall|i: int| 0 <= i < at ==> before(#[trigger] listed[i], x),
        at < listed.len() ==> before(x, listed[at]),
    decreases listed.len() - from,
{
    if from < listed.len() && before(listed[from], x) {
        place_for(listed, x, before, from + 1)
    } else {
        if from < listed.len() {
            assert(listed.contains(listed[from]));
            assert(listed[from] == x || before(listed[from], x) || before(x, listed[from]));
        }
        from
    }
}

/// Items that are sorted by their rank.
pub trait Ranked: Sized {
    /// What decides about the order.
    type Rank;

    /// The rank of an item.
    spec fn rank(&self) -> Self::Rank;

    /// The order of the ranks.
    spec fn order() -> spec_fn(Self::Rank, Self::Rank) -> bool;

    proof fn order_is_strict()
        ensures
            strict_order(Self::order()),
    ;

    /// How one item stands to another.
    fn standing(&self, other: &Self) -> (standing: Standing)
        ensures
            standing == Standing::Before <==> Self::order()(self.rank(), other.rank()),
            standing == Standing::Same <==> self.rank() == other.rank(),
            standing == Standing::After <==> Self::order()(other.rank(), self.rank()),
    ;
}

/// The ranks of items.
pub open spec fn ranks<T: Ranked>(items: Seq<T>) -> Seq<T::Rank> {
    items.map_values(|item: T| item.rank())
}

/// There is an item, and it has the given rank.
pub open spec fn has_rank<T: Ranked>(item: Option<T>, rank: T::Rank) -> bool {
    item is Some && item->0.rank() == rank
}

/// The ranks of the items that there are.
pub open spec fn ranks_among<T: Ranked>(items: Seq<Option<T>>) -> Set<T::Rank> {
    Set::new(
        |rank: T::Rank| exists|i: int| 0 <= i < items.len() && has_rank(#[trigger] items[i], rank),
    )
}

/// Adds an item to a list that is kept in order, with each rank once.
fn insert_in_order<T: Ranked>(listed: &mut Vec<T>, item: T)
    requires
        rises(ranks(old(listed)@), T::order()),
    ensures
        rises(ranks(final(listed)@), T::order()),
        forall|rank: T::Rank| #[trigger]
            ranks(final(listed)@).contains(rank) <==> ranks(old(listed)@).contains(rank) || rank
                == item.rank(),
{
    let ghost before = T::order();
    let ghost held = ranks(listed@);
    let ghost added = item.rank();
    proof {
        T::order_is_strict();
    }
    let mut at: usize = 0;
    while at < listed.len()
        invariant_except_break
            forall|i: int| 0 <= i < at ==> before(#[trigger] held[i], added),
        invariant
            at <= listed.len(),
            held == ranks(listed@),
            added == item.rank(),
            rises(held, before),
            before == T::order(),
            listed@ == old(listed)@,
        ensures
            forall|i: int| 0 <= i < at ==> before(#[trigger] held[i], added),
            at < listed.len() ==> before(added, held[at as int]),
        decreases listed.len() - at,
    {
        let standing = listed[at].standing(&item);
        assert(held[at as int] == listed@[at as int].rank());
        match standing {
            Standing::Before => {
                at = at + 1;
            },
            Standing::Same => {
                return ;
            },
            Standing::After => {
                break ;
            },
        }
    }
    proof {
        insert_rises(held, at as int, added, before);
    }
    listed.insert(at, item);
    assert(ranks(listed@) =~= held.insert(at as int, added));
}

/// The items that there are, in order and with each rank once.
pub(crate) fn sorted<T: Ranked>(items: Vec<Option<T>>) -> (listed: Vec<T>)
    ensures
        ranks(listed@) == listing(ranks_among(items@), T::order()),
        lists(ranks(listed@), ranks_among(items@), T::order()),
{
    let ghost all = items@;
    let mut left = items;
    let mut listed: Vec<T> = Vec::new();
    proof {
        assert(ranks(listed@) =~= Seq::empty());
        assert(all.take(all.len() as int) =~= all);
    }
    while left.len() > 0
        invariant
            left.len() <= all.len(),
            left@ == all.take(left.len() as int),
            rises(ranks(listed@), T::order()),
            forall|rank: T::Rank| #[trigger]
                ranks(listed@).contains(rank) <==> exists|i: int|
                    left.len() <= i < all.len() && has_rank(#[trigger] all[i], rank),
        decreases left.len(),
    {
        let ghost held = ranks(listed@);
        let ghost last = left.len() - 1;
        let popped = left.pop();
        proof {
            assert(popped == Some(all[last]));
            assert(left@ =~= all.take(last));
        }
        if let Some(Some(item)) = popped {
            insert_in_order(&mut listed, item);
        }
        proof {
            assert forall|rank: T::Rank| #[trigger]
                ranks(listed@).contains(rank) <==> exists|i: int|
                    last <= i < all.len() && has_rank(#[trigger] all[i], rank) by {
                assert(held.contains(rank) <==> exists|i: int|
                    last + 1 <= i < all.len() && has_rank(#[trigger] all[i], rank));
                if has_rank(all[last], rank) {
                    assert(ranks(listed@).contains(rank));
                }
            }
        }
    }
    proof {
        T::order_is_strict();
        listing_is(ranks(listed@), ranks_among(all), T::order());
    }
    listed
}

/// The first place at which two sequences differ decides about their order, whatever
/// follows it.
pub proof fn lex_first_difference(
    shared: Seq<int>,
    a: int,
    b: int,
    a_rest: Seq<int>,
    b_rest: Seq<int>,
)
    requires
        a < b,
    ensures
        lex_before(shared.push(a) + a_rest, shared.push(b) + b_rest),
        !lex_before(shared.push(b) + b_rest, shared.push(a) + a_rest),
    decreases shared.len(),
{
    let left = shared.push(a) + a_rest;
    let right = shared.push(b) + b_rest;
    if shared.len() > 0 {
        let rest = shared.drop_first();
        lex_first_difference(rest, a, b, a_rest, b_rest);
        assert(left.drop_first() =~= rest.push(a) + a_rest);
        assert(right.drop_first() =~= rest.push(b) + b_rest);
        assert(left[0] == shared[0] && right[0] == shared[0]);
    } else {
        assert(left[0] == a && right[0] == b);
    }
}

/// A sequence comes before every longer one that starts with it.
pub proof fn lex_prefix_first(shared: Seq<int>, more: Seq<int>)
    requires
        more.len() > 0,
    ensures
        lex_before(shared, shared + more),
        !lex_before(shared + more, shared),
    decreases shared.len(),
{
    if shared.len() > 0 {
        lex_prefix_first(shared.drop_first(), more);
        assert((shared + more).drop_first() =~= shared.drop_first() + more);
        assert((shared + more)[0] == shared[0]);
    }
}

/// Of two texts that agree up to a character, the one with the smaller code point there
/// comes first, whatever follows it.
pub proof fn first_character_decides(
    shared: Seq<char>,
    a: char,
    b: char,
    a_rest: Seq<char>,
    b_rest: Seq<char>,
)
    requires
        a < b,
    ensures
        text_before(shared.push(a) + a_rest, shared.push(b) + b_rest),
        !text_before(shared.push(b) + b_rest, shared.push(a) + a_rest),
{
    let points = code_points(shared);
    lex_first_difference(points, a as int, b as int, code_points(a_rest), code_points(b_rest));
    assert(code_points(shared.push(a) + a_rest) =~= points.push(a as int) + code_points(a_rest));
    assert(code_points(shared.push(b) + b_rest) =~= points.push(b as int) + code_points(b_rest));
}

/// A text comes before every longer one that starts with it, and never before itself.
pub proof fn shorter_text_comes_first(shared: Seq<char>, more: Seq<char>)
    ensures
        text_before(shared, shared + more) == (more.len() > 0),
        !text_before(shared + more, shared),
{
    let points = code_points(shared);
    if more.len() > 0 {
        lex_prefix_first(points, code_points(more));
    } else {
        lex_irreflexive(points);
        assert(shared + more =~= shared);
    }
    assert(code_points(shared + more) =~= points + code_points(more));
}

/// A listing holds every member of its set exactly once and nothing else, and each
/// item comes before all that follow it.
pub proof fn listing_holds<T>(listed: Seq<T>, members: Set<T>, before: spec_fn(T, T) -> bool)
    requires
        strict_order(before),
        lists(listed, members, before),
    ensures
        forall|x: T| #[trigger]
            members.contains(x) <==> exists|i: int| 0 <= i < listed.len() && listed[i] == x,
        forall|i: int, j: int|
            0 <= i < j < listed.len() ==> before(#[trigger] listed[i], #[trigger] listed[j])
                && listed[i] != listed[j],
{
    assert forall|x: T| #[trigger] members.contains(x) <==> exists|i: int|
        0 <= i < listed.len() && listed[i] == x by {
        assert(listed.contains(x) <==> members.contains(x));
    }
}

} // verus!
