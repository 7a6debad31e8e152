//! Base images: telling ids from families, and finding them.

use crate::error::{ClientError, Failure};
use crate::order::{lists, text_before, text_listing, text_order};
use crate::text::{
    chars_of, contains_text, opt_clone, opt_text, same_text, sorted_texts, texts, texts_among,
    texts_are_listed,
};
use crate::types::{name_of, region_name, Image};
use vstd::prelude::*;

verus! {

/// Reference to a base image for launch. The Lambda API `image` object accepts
/// exactly one of `id` (a specific image) or `family` (newest in the family).
#[derive(Debug, Clone, Copy)]
pub enum ImageRef<'a> {
    Id(&'a str),
    Family(&'a str),
}

/// `c` is an ASCII hexadecimal digit, in either case.
pub open spec fn hex_digit(c: char) -> bool {
    '0' <= c <= '9' || 'a' <= c <= 'f' || 'A' <= c <= 'F'
}

/// A text without its hyphens.
pub open spec fn without_hyphens(text: Seq<char>) -> Seq<char> {
    text.filter(|c: char| c != '-')
}

/// A text is an image id when it consists of hexadecimal digits and hyphens, and
/// exactly 32 digits are left once the hyphens are removed.
pub open spec fn image_id_form(text: Seq<char>) -> bool {
    &&& forall|i: int| 0 <= i < text.len() ==> #[trigger] text[i] == '-' || hex_digit(text[i])
    &&& without_hyphens(text).len() == 32
}

/// What `char::to_lowercase` turns a character outside ASCII into.
pub uninterp spec fn unicode_lowercase(c: char) -> Seq<char>;

/// A character in lower case.
pub open spec fn lowercase(c: char) -> Seq<char> {
    if 'A' <= c <= 'Z' {
        seq![(c as nat + 32) as char]
    } else if c <= '\u{7f}' {
        seq![c]
    } else {
        unicode_lowercase(c)
    }
}

/// An image id for comparison: hyphens removed, lowercased.
pub open spec fn canonical(id: Seq<char>) -> Seq<char>
    decreases id.len(),
{
    if id.len() == 0 {
        Seq::empty()
    } else if id.last() == '-' {
        canonical(id.drop_last())
    } else {
        canonical(id.drop_last()) + lowercase(id.last())
    }
}

/// `char::to_lowercase` on one character. Its result is a function of the
/// character alone, read from the Unicode tables; which characters it yields is
/// not stated.
#[verifier::external_body]
fn lowercase_chars(c: char) -> (lower: Vec<char>)
    ensures
        lower@ == unicode_lowercase(c),
{
    c.to_lowercase().collect()
}

/// A Lambda image id is a UUID (32 hex digits, optionally hyphenated); families
/// are human slugs that always contain non-hex letters, so "exactly 32 hex digits
/// once hyphens are removed" cleanly tells an id from a family.
pub fn looks_like_image_id(value: &str) -> (is_id: bool)
    ensures
        is_id == image_id_form(value@),
{
    let ghost kept = |c: char| c != '-';
    let chars = chars_of(value);
    let mut hex_digits: usize = 0;
    let mut at: usize = 0;
    assert(chars@.take(0).filter(kept).len() == 0) by {
        reveal(Seq::filter);
    }
    while at < chars.len()
        invariant
            at <= chars.len(),
            chars@ == value@,
            kept == |c: char| c != '-',
            hex_digits <= at,
            hex_digits == chars@.take(at as int).filter(kept).len(),
            forall|i: int| 0 <= i < at ==> #[trigger] value@[i] == '-' || hex_digit(value@[i]),
        decreases chars.len() - at,
    {
        let c = chars[at];
        proof {
            reveal(Seq::filter);
            assert(chars@.take(at + 1).drop_last() =~= chars@.take(at as int));
        }
        if c != '-' {
            if ('0' <= c && c <= '9') || ('a' <= c && c <= 'f') || ('A' <= c && c <= 'F') {
                hex_digits = hex_digits + 1;
            } else {
                assert(!hex_digit(value@[at as int]));
                return false;
            }
        }
        at = at + 1;
    }
    assert(chars@.take(at as int) =~= value@);
    hex_digits == 32
}

impl<'a> ImageRef<'a> {
    /// Classify a raw value as an image id or a family and build the matching
    /// `ImageRef`. Image ids are UUIDs and families are human-readable slugs
    /// (e.g. `lambda-stack-24-04`), so the two never collide.
    pub fn smart(value: &'a str) -> (image: Self)
        ensures
            image == (if image_id_form(value@) {
                ImageRef::Id(value)
            } else {
                ImageRef::Family(value)
            }),
    {
        if looks_like_image_id(value) {
            ImageRef::Id(value)
        } else {
            ImageRef::Family(value)
        }
    }
}

/// Canonical form of an image id for comparison: hyphens removed, lowercased. Lets
/// a user pass a UUID in any hyphenation/case and still match the `/images` form.
pub fn canonical_id(id: &str) -> (form: String)
    ensures
        form@ == canonical(id@),
{
    let chars = chars_of(id);
    let mut form = String::new();
    let mut at: usize = 0;
    while at < chars.len()
        invariant
            at <= chars.len(),
            form@ == canonical(chars@.take(at as int)),
        decreases chars.len() - at,
    {
        let c = chars[at];
        let ghost seen = form@;
        assert(chars@.take(at + 1).drop_last() =~= chars@.take(at as int));
        if c == '-' {
        } else if 'A' <= c && c <= 'Z' {
            form.push((c as u8 + 32) as char);
            assert(form@ =~= seen + lowercase(c));
        } else if c <= '\u{7f}' {
            form.push(c);
            assert(form@ =~= seen + lowercase(c));
        } else {
            let lower = lowercase_chars(c);
            let mut i: usize = 0;
            while i < lower.len()
                invariant
                    i <= lower.len(),
                    form@ == seen + lower@.take(i as int),
                decreases lower.len() - i,
            {
                form.push(lower[i]);
                assert(form@ =~= seen + lower@.take(i + 1));
                i = i + 1;
            }
            assert(lower@.take(i as int) =~= lower@);
        }
        at = at + 1;
    }
    assert(chars@.take(at as int) =~= id@);
    form
}

/// The image has the given id, in whatever hyphenation and case.
pub open spec fn has_id(image: Image, id: Seq<char>) -> bool {
    canonical(image.id@) == canonical(id)
}

/// Image `i` is the first that has the given id.
pub open spec fn first_with_id(images: Seq<Image>, id: Seq<char>, i: int) -> bool {
    &&& 0 <= i < images.len()
    &&& has_id(images[i], id)
    &&& forall|j: int| 0 <= j < i ==> !has_id(#[trigger] images[j], id)
}

/// The regions in which the image with the given id is offered.
pub open spec fn id_regions(images: Seq<Image>, id: Seq<char>) -> Set<Seq<char>> {
    Set::new(
        |region: Seq<char>|
            exists|i: int|
                0 <= i < images.len() && has_id(#[trigger] images[i], id) && region_name(
                    images[i].region,
                ) == Some(region),
    )
}

/// What an image id resolves to: the id as the first match writes it, and every
/// region it is offered in. There may be none of the latter; only a total absence
/// of the id is an error.
pub open spec fn resolved_id(images: Seq<Image>, id: Seq<char>) -> Result<
    (Seq<char>, Seq<Seq<char>>),
    Failure,
> {
    if exists|i: int| 0 <= i < images.len() && has_id(#[trigger] images[i], id) {
        Ok(
            (
                images[choose|i: int| first_with_id(images, id, i)].id@,
                text_listing(id_regions(images, id)),
            ),
        )
    } else {
        Err(Failure::ImageIdNotFound(id))
    }
}

/// A resolved id is as expected.
pub open spec fn resolves(
    result: Result<(String, Vec<String>), ClientError>,
    expected: Result<(Seq<char>, Seq<Seq<char>>), Failure>,
) -> bool {
    match (result, expected) {
        (Ok(found), Ok(wanted)) => found.0@ == wanted.0 && texts(found.1@) == wanted.1,
        (Err(error), Err(failure)) => error@ == failure,
        _ => false,
    }
}

/// The families that the images name.
pub open spec fn families(images: Seq<Image>) -> Set<Seq<char>> {
    Set::new(
        |family: Seq<char>|
            exists|i: int|
                0 <= i < images.len() && opt_text((#[trigger] images[i]).family) == Some(family),
    )
}

/// A family is valid when some image names it.
pub open spec fn checked_family(images: Seq<Image>, family: Seq<char>) -> Result<(), Failure> {
    if families(images).contains(family) {
        Ok(())
    } else {
        Err(Failure::ImageFamilyNotFound { family, families: text_listing(families(images)) })
    }
}

/// Resolves an image id (accepted in any hyphenation/case) to the form in which
/// the API writes it and the regions it is offered in.
pub fn find_image(images: &Vec<Image>, id: &str) -> (result: Result<
    (String, Vec<String>),
    ClientError,
>)
    ensures
        resolves(result, resolved_id(images@, id@)),
{
    let target = canonical_id(id);
    let mut first: Option<usize> = None;
    let mut names: Vec<Option<String>> = Vec::new();
    let mut at: usize = 0;
    while at < images.len()
        invariant
            at <= images.len(),
            target@ == canonical(id@),
            match first {
                Some(i) => i < at && first_with_id(images@, id@, i as int),
                None => forall|j: int| 0 <= j < at ==> !has_id(#[trigger] images@[j], id@),
            },
            names.len() == at,
            forall|i: int|
                0 <= i < at ==> opt_text(#[trigger] names@[i]) == if has_id(images@[i], id@) {
                    region_name(images@[i].region)
                } else {
                    None
                },
        decreases images.len() - at,
    {
        let image = &images[at];
        if same_text(canonical_id(image.id.as_str()).as_str(), target.as_str()) {
            if first.is_none() {
                first = Some(at);
            }
            names.push(opt_clone(name_of(&image.region)));
        } else {
            names.push(None);
        }
        at = at + 1;
    }
    match first {
        Some(i) => {
            proof {
                assert forall|x: Seq<char>| #[trigger]
                    id_regions(images@, id@).contains(x) implies texts_among(names@).contains(
                    x,
                ) by {
                    let k = choose|k: int|
                        0 <= k < images@.len() && has_id(#[trigger] images@[k], id@)
                            && region_name(images@[k].region) == Some(x);
                    assert(opt_text(names@[k]) == Some(x));
                }
                assert(texts_among(names@) =~= id_regions(images@, id@));
                assert(has_id(images@[i as int], id@));
                first_with_id_unique(
                    images@,
                    id@,
                    i as int,
                    choose|i: int| first_with_id(images@, id@, i),
                );
            }
            Ok((images[i].id.clone(), sorted_texts(names)))
        },
        None => Err(ClientError::ImageIdNotFound(id.to_owned())),
    }
}

/// Validates that an image family exists, erroring with the available families.
pub fn check_family(images: &Vec<Image>, family: &str) -> (result: Result<(), ClientError>)
    ensures
        match (result, checked_family(images@, family@)) {
            (Ok(_), Ok(_)) => true,
            (Err(error), Err(failure)) => error@ == failure,
            _ => false,
        },
{
    let mut names: Vec<Option<String>> = Vec::new();
    let mut at: usize = 0;
    while at < images.len()
        invariant
            at <= images.len(),
            names.len() == at,
            forall|i: int| 0 <= i < at ==> #[trigger] names@[i] == images@[i].family,
        decreases images.len() - at,
    {
        names.push(opt_clone(images[at].family.as_ref()));
        at = at + 1;
    }
    proof {
        assert forall|x: Seq<char>| #[trigger] families(images@).contains(x) implies texts_among(
            names@,
        ).contains(x) by {
            let k = choose|k: int|
                0 <= k < images@.len() && opt_text((#[trigger] images@[k]).family) == Some(x);
            assert(opt_text(names@[k]) == Some(x));
        }
        assert(texts_among(names@) =~= families(images@));
    }
    let named = sorted_texts(names);
    if contains_text(&named, family) {
        Ok(())
    } else {
        Err(ClientError::ImageFamilyNotFound { family: family.to_owned(), families: named })
    }
}

proof fn first_with_id_unique(images: Seq<Image>, id: Seq<char>, i: int, j: int)
    requires
        first_with_id(images, id, i),
        first_with_id(images, id, j),
    ensures
        i == j,
{
    if i < j {
        assert(!has_id(images[i], id));
    }
    if j < i {
        assert(!has_id(images[j], id));
    }
}

/// Hyphens make no difference to the canonical form.
pub proof fn canonical_without_hyphens(id: Seq<char>)
    ensures
        canonical(without_hyphens(id)) == canonical(id),
    decreases id.len(),
{
    reveal(Seq::filter);
    if id.len() > 0 {
        canonical_without_hyphens(id.drop_last());
        if id.last() != '-' {
            let kept = without_hyphens(id);
            assert(kept.drop_last() =~= without_hyphens(id.drop_last()));
            assert(kept.last() == id.last());
        }
    }
}

/// The canonical form is taken piece by piece.
pub proof fn canonical_of_both(a: Seq<char>, b: Seq<char>)
    ensures
        canonical(a + b) == canonical(a) + canonical(b),
    decreases b.len(),
{
    if b.len() == 0 {
        assert(a + b =~= a);
        assert(canonical(a) + canonical(b) =~= canonical(a));
    } else {
        canonical_of_both(a, b.drop_last());
        assert((a + b).drop_last() =~= a + b.drop_last());
        assert((a + b).last() == b.last());
        assert(canonical(a + b) =~= canonical(a) + canonical(b));
    }
}

/// Ids that agree once hyphens are removed and letters lowercased have the same
/// canonical form.
pub proof fn canonical_ignores_form(a: Seq<char>, b: Seq<char>)
    requires
        without_hyphens(a).len() == without_hyphens(b).len(),
        forall|i: int|
            0 <= i < without_hyphens(a).len() ==> lowercase(#[trigger] without_hyphens(a)[i])
                == lowercase(without_hyphens(b)[i]),
    ensures
        canonical(a) == canonical(b),
{
    canonical_without_hyphens(a);
    canonical_without_hyphens(b);
    hyphens_are_gone(a);
    hyphens_are_gone(b);
    canonical_by_letters(without_hyphens(a), without_hyphens(b));
}

proof fn hyphens_are_gone(text: Seq<char>)
    ensures
        forall|i: int| 0 <= i < without_hyphens(text).len() ==> #[trigger] without_hyphens(text)[i] != '-',
{
    assert forall|i: int| 0 <= i < without_hyphens(text).len() implies #[trigger] without_hyphens(
        text,
    )[i] != '-' by {
        text.lemma_filter_pred(|c: char| c != '-', i);
    }
}

proof fn canonical_by_letters(a: Seq<char>, b: Seq<char>)
    requires
        a.len() == b.len(),
        forall|i: int| 0 <= i < a.len() ==> #[trigger] a[i] != '-' && b[i] != '-',
        forall|i: int| 0 <= i < a.len() ==> lowercase(#[trigger] a[i]) == lowercase(b[i]),
    ensures
        canonical(a) == canonical(b),
    decreases a.len(),
{
    if a.len() > 0 {
        let n = a.len() - 1;
        assert(lowercase(a[n]) == lowercase(b[n]));
        assert(a[n] != '-' && b[n] != '-');
        assert forall|i: int| 0 <= i < a.drop_last().len() implies #[trigger] a.drop_last()[i] != '-'
            && b.drop_last()[i] != '-' && lowercase(a.drop_last()[i]) == lowercase(
            b.drop_last()[i],
        ) by {
            assert(a.drop_last()[i] == a[i] && b.drop_last()[i] == b[i]);
        }
        canonical_by_letters(a.drop_last(), b.drop_last());
    }
}

/// `c` is an ASCII hexadecimal digit in lower case.
pub open spec fn lower_hex_digit(c: char) -> bool {
    '0' <= c <= '9' || 'a' <= c <= 'f'
}

/// The canonical form of an image id is its 32 digits in lower case: an image id
/// itself, and its own canonical form.
pub proof fn canonical_of_image_id(id: Seq<char>)
    requires
        image_id_form(id),
    ensures
        canonical(id).len() == 32,
        forall|i: int|
            0 <= i < 32 ==> seq![#[trigger] canonical(id)[i]] == lowercase(without_hyphens(id)[i]),
        forall|i: int| 0 <= i < 32 ==> lower_hex_digit(#[trigger] canonical(id)[i]),
        image_id_form(canonical(id)),
        canonical(canonical(id)) == canonical(id),
{
    let digits = without_hyphens(id);
    canonical_without_hyphens(id);
    digits_of(id);
    canonical_digits(digits);
    nothing_to_filter(canonical(id));
    canonical_of_lower(canonical(id));
    assert forall|i: int| 0 <= i < 32 implies lower_hex_digit(#[trigger] canonical(id)[i]) by {
        let c = canonical(id)[i];
        assert(hex_digit(c) && lowercase(c) == seq![c]);
        if 'A' <= c <= 'F' {
            assert(lowercase(c)[0] == (c as nat + 32) as char);
        }
    }
}

/// Taking the canonical form neither makes an image id of a text nor takes that form
/// from one, as long as no character outside ASCII is turned into hexadecimal digits
/// and hyphens alone.
pub proof fn canonical_keeps_id_form(id: Seq<char>)
    requires
        forall|i: int|
            0 <= i < id.len() && #[trigger] id[i] > '\u{7f}' ==> exists|k: int|
                0 <= k < lowercase(id[i]).len() && #[trigger] lowercase(id[i])[k] != '-'
                    && !hex_digit(lowercase(id[i])[k]),
    ensures
        image_id_form(canonical(id)) == image_id_form(id),
{
    if image_id_form(id) {
        canonical_of_image_id(id);
    }
    if image_id_form(canonical(id)) {
        let digits = without_hyphens(id);
        assert forall|i: int| 0 <= i < id.len() implies #[trigger] id[i] == '-' || hex_digit(
            id[i],
        ) by {
            if id[i] != '-' && !hex_digit(id[i]) {
                let c = id[i];
                let low = lowercase(c);
                if c <= '\u{7f}' {
                    assert(low[0] != '-' && !hex_digit(low[0])) by {
                        if 'A' <= c <= 'Z' {
                            assert(low[0] as nat == c as nat + 32);
                        }
                    }
                }
                let k = choose|k: int|
                    0 <= k < low.len() && #[trigger] low[k] != '-' && !hex_digit(low[k]);
                let j = lowered_place(id, i, k);
                assert(canonical(id)[j] == '-' || hex_digit(canonical(id)[j]));
            }
        }
        digits_of(id);
        canonical_without_hyphens(id);
        canonical_digits(digits);
        nothing_to_filter(canonical(id));
    }
}

/// An ASCII text has the form of an image id exactly where its canonical form has it.
pub proof fn canonical_keeps_ascii_id_form(id: Seq<char>)
    requires
        forall|i: int| 0 <= i < id.len() ==> #[trigger] id[i] <= '\u{7f}',
    ensures
        image_id_form(canonical(id)) == image_id_form(id),
{
    canonical_keeps_id_form(id);
}

/// Where a character of the lower case of `id[i]` stands in the canonical form.
proof fn lowered_place(id: Seq<char>, i: int, k: int) -> (place: int)
    requires
        0 <= i < id.len(),
        id[i] != '-',
        0 <= k < lowercase(id[i]).len(),
    ensures
        0 <= place < canonical(id).len(),
        canonical(id)[place] == lowercase(id[i])[k],
    decreases id.len(),
{
    let front = id.drop_last();
    if i == id.len() - 1 {
        canonical(front).len() + k
    } else {
        assert(front[i] == id[i]);
        lowered_place(front, i, k)
    }
}

proof fn digits_of(id: Seq<char>)
    requires
        forall|i: int| 0 <= i < id.len() ==> #[trigger] id[i] == '-' || hex_digit(id[i]),
    ensures
        forall|i: int|
            0 <= i < without_hyphens(id).len() ==> hex_digit(#[trigger] without_hyphens(id)[i]),
{
    let digits = without_hyphens(id);
    assert forall|i: int| 0 <= i < digits.len() implies hex_digit(#[trigger] digits[i]) by {
        hyphens_are_gone(id);
        id.lemma_filter_contains_rev(|c: char| c != '-', digits[i]);
        let j = choose|j: int| 0 <= j < id.len() && id[j] == digits[i];
        assert(id[j] == '-' || hex_digit(id[j]));
    }
}

proof fn canonical_of_lower(text: Seq<char>)
    requires
        forall|i: int|
            0 <= i < text.len() ==> #[trigger] text[i] != '-' && lowercase(text[i]) == seq![text[i]],
    ensures
        canonical(text) == text,
    decreases text.len(),
{
    if text.len() > 0 {
        let n = text.len() - 1;
        assert(text[n] != '-' && lowercase(text[n]) == seq![text[n]]);
        canonical_of_lower(text.drop_last());
        assert(text.drop_last() + seq![text[n]] =~= text);
    } else {
        assert(canonical(text) =~= text);
    }
}

proof fn nothing_to_filter(text: Seq<char>)
    requires
        forall|i: int| 0 <= i < text.len() ==> #[trigger] text[i] != '-',
    ensures
        without_hyphens(text) == text,
    decreases text.len(),
{
    reveal(Seq::filter);
    if text.len() > 0 {
        assert(text[text.len() - 1] != '-');
        nothing_to_filter(text.drop_last());
        assert(text.drop_last().push(text.last()) =~= text);
    }
}

proof fn canonical_digits(digits: Seq<char>)
    requires
        forall|i: int| 0 <= i < digits.len() ==> hex_digit(#[trigger] digits[i]),
    ensures
        canonical(digits).len() == digits.len(),
        forall|i: int|
            0 <= i < digits.len() ==> seq![#[trigger] canonical(digits)[i]] == lowercase(digits[i]),
        forall|i: int|
            0 <= i < digits.len() ==> hex_digit(#[trigger] canonical(digits)[i])
                && canonical(digits)[i] != '-' && lowercase(canonical(digits)[i]) == seq![
                canonical(digits)[i],
            ],
    decreases digits.len(),
{
    if digits.len() > 0 {
        let front = digits.drop_last();
        let last = digits[digits.len() - 1];
        assert(hex_digit(last));
        canonical_digits(front);
        let form = canonical(digits);
        assert(form == canonical(front) + lowercase(last));
        assert(lowercase(last).len() == 1);
        let low = lowercase(last)[0];
        assert(lowercase(last) =~= seq![low]);
        assert(hex_digit(low) && low != '-' && lowercase(low) == seq![low]) by {
            if 'A' <= last <= 'Z' {
                assert(low as nat == last as nat + 32);
            }
        }
        assert forall|i: int| 0 <= i < digits.len() implies seq![#[trigger] form[i]] == lowercase(
            digits[i],
        ) && hex_digit(form[i]) && form[i] != '-' && lowercase(form[i]) == seq![form[i]] by {
            if i < front.len() {
                assert(form[i] == canonical(front)[i]);
                assert(digits[i] == front[i]);
            } else {
                assert(form[i] == low);
            }
        }
    }
}

/// An image id that the API lists is found in whatever hyphenation and case it is
/// given, and resolves to the same id and regions in all of them.
pub proof fn listed_id_is_found(images: Seq<Image>, i: int, id: Seq<char>)
    requires
        0 <= i < images.len(),
        without_hyphens(id).len() == without_hyphens(images[i].id@).len(),
        forall|k: int|
            0 <= k < without_hyphens(id).len() ==> lowercase(#[trigger] without_hyphens(id)[k])
                == lowercase(without_hyphens(images[i].id@)[k]),
    ensures
        resolved_id(images, id) is Ok,
        resolved_id(images, id) == resolved_id(images, images[i].id@),
{
    let listed = images[i].id@;
    canonical_ignores_form(id, listed);
    assert(has_id(images[i], id) && has_id(images[i], listed));
    assert forall|j: int| has_id(images[j], id) == has_id(images[j], listed) by {}
    assert(id_regions(images, id) =~= id_regions(images, listed));
    let first = first_match(images, id, i);
    assert(first_with_id(images, listed, first)) by {
        assert forall|j: int| 0 <= j < first implies !has_id(#[trigger] images[j], listed) by {
            assert(!has_id(images[j], id));
        }
    }
    first_with_id_unique(images, id, first, choose|k: int| first_with_id(images, id, k));
    first_with_id_unique(images, listed, first, choose|k: int| first_with_id(images, listed, k));
}

proof fn first_match(images: Seq<Image>, id: Seq<char>, i: int) -> (first: int)
    requires
        0 <= i < images.len(),
        has_id(images[i], id),
    ensures
        first_with_id(images, id, first),
    decreases i,
{
    if exists|j: int| 0 <= j < i && has_id(#[trigger] images[j], id) {
        first_match(images, id, choose|j: int| 0 <= j < i && has_id(#[trigger] images[j], id))
    } else {
        i
    }
}

/// What an id resolves to is the id of a listed image that differs from it in
/// hyphenation and case only, and exactly the regions in which such images are
/// offered, in order and each once. Only an id that no image has is an error.
pub proof fn resolution_is_exact(images: Seq<Image>, id: Seq<char>)
    ensures
        resolved_id(images, id) is Ok <==> exists|i: int|
            0 <= i < images.len() && has_id(#[trigger] images[i], id),
        resolved_id(images, id) is Err ==> resolved_id(images, id)->Err_0
            == Failure::ImageIdNotFound(id),
        ({
            let (own_id, regions) = resolved_id(images, id)->Ok_0;
            resolved_id(images, id) is Ok ==> {
                &&& exists|i: int|
                    0 <= i < images.len() && has_id(#[trigger] images[i], id) && images[i].id@
                        == own_id
                &&& lists(regions, id_regions(images, id), text_order())
            }
        }),
{
    if exists|i: int| 0 <= i < images.len() && has_id(#[trigger] images[i], id) {
        let i = choose|i: int| 0 <= i < images.len() && has_id(#[trigger] images[i], id);
        let first = first_match(images, id, i);
        first_with_id_unique(images, id, first, choose|k: int| first_with_id(images, id, k));
        assert(has_id(images[first], id));
        let regions = images.map_values(|image: Image| region_name(image.region)->0);
        assert forall|region: Seq<char>| #[trigger]
            id_regions(images, id).contains(region) implies regions.contains(region) by {
            let k = choose|k: int|
                0 <= k < images.len() && has_id(#[trigger] images[k], id) && region_name(
                    images[k].region,
                ) == Some(region);
            assert(regions[k] == region);
        }
        texts_are_listed(regions, id_regions(images, id));
    }
}

/// A text with a character that is neither a hexadecimal digit nor a hyphen is
/// never taken for an image id.
pub proof fn slug_is_no_id(text: Seq<char>, i: int)
    requires
        0 <= i < text.len(),
        text[i] != '-',
        !hex_digit(text[i]),
    ensures
        !image_id_form(text),
{
}

/// A hyphen disappears, a capital letter of ASCII becomes its small one, any other
/// character of ASCII stays, and one outside ASCII becomes what `char::to_lowercase`
/// makes of it.
pub proof fn canonical_of_character(c: char)
    ensures
        c == '-' ==> canonical(seq![c]) == Seq::<char>::empty(),
        'A' <= c <= 'Z' ==> canonical(seq![c]).len() == 1 && canonical(seq![c])[0] as nat
            == c as nat + 32,
        c <= '\u{7f}' && c != '-' && !('A' <= c <= 'Z') ==> canonical(seq![c]) == seq![c],
        c > '\u{7f}' ==> canonical(seq![c]) == unicode_lowercase(c),
{
    let none = Seq::<char>::empty();
    assert(seq![c].drop_last() =~= none);
    assert(seq![c].last() == c);
    assert(canonical(none) =~= none);
    assert(none + lowercase(c) =~= lowercase(c));
}

/// Where hyphens stand, and whether any do, makes no difference to the form of an image
/// id.
pub proof fn id_form_ignores_hyphens(a: Seq<char>, b: Seq<char>)
    ensures
        image_id_form(a + seq!['-'] + b) == image_id_form(a + b),
{
    let kept = |c: char| c != '-';
    let hyphen = seq!['-'];
    let with = a + hyphen + b;
    let without = a + b;
    assert(hyphen.filter(kept).len() == 0) by {
        reveal_with_fuel(Seq::filter, 2);
        assert(hyphen.drop_last() =~= Seq::<char>::empty());
        assert(hyphen.last() == '-');
    }
    Seq::filter_distributes_over_add(a + hyphen, b, kept);
    Seq::filter_distributes_over_add(a, hyphen, kept);
    Seq::filter_distributes_over_add(a, b, kept);
    assert(without_hyphens(with) =~= without_hyphens(without));
    if image_id_form(with) {
        assert forall|i: int| 0 <= i < without.len() implies #[trigger] without[i] == '-'
            || hex_digit(without[i]) by {
            let j = if i < a.len() { i } else { i + 1 };
            assert(without[i] == with[j]);
        }
    }
    if image_id_form(without) {
        assert forall|j: int| 0 <= j < with.len() implies #[trigger] with[j] == '-' || hex_digit(
            with[j],
        ) by {
            if j < a.len() {
                assert(with[j] == without[j]);
            } else if j > a.len() {
                assert(with[j] == without[j - 1]);
            }
        }
    }
}

/// A text without hyphens is an image id exactly when it has 32 characters that are all
/// hexadecimal digits, in either case.
pub proof fn bare_id_form(text: Seq<char>)
    requires
        forall|i: int| 0 <= i < text.len() ==> #[trigger] text[i] != '-',
    ensures
        image_id_form(text) <==> text.len() == 32 && forall|i: int|
            0 <= i < text.len() ==> {
                ||| '0' <= #[trigger] text[i] <= '9'
                ||| 'a' <= text[i] <= 'f'
                ||| 'A' <= text[i] <= 'F'
            },
{
    nothing_to_filter(text);
    if image_id_form(text) {
        assert forall|i: int| 0 <= i < text.len() implies {
            ||| '0' <= #[trigger] text[i] <= '9'
            ||| 'a' <= text[i] <= 'f'
            ||| 'A' <= text[i] <= 'F'
        } by {
            assert(hex_digit(text[i]));
        }
    }
}

/// The region that an image is offered in, where the API names one, is the given one.
pub open spec fn offered_in(image: Image, region: Seq<char>) -> bool {
    image.region is Some && image.region->0.name is Some && image.region->0.name->0@ == region
}

/// An id resolves to the id of the first listed image with the same canonical form, and
/// to all regions that images with that form name: in code point order, each once, and
/// no other. Without such an image it does not resolve.
pub proof fn id_resolves_to_first_match(images: Seq<Image>, id: Seq<char>)
    ensures
        (forall|i: int|
            0 <= i < images.len() ==> canonical((#[trigger] images[i]).id@) != canonical(id))
            ==> resolved_id(images, id) == Err::<(Seq<char>, Seq<Seq<char>>), Failure>(
            Failure::ImageIdNotFound(id),
        ),
        forall|i: int|
            0 <= i < images.len() && canonical((#[trigger] images[i]).id@) == canonical(id) && (
            forall|j: int|
                0 <= j < i ==> canonical((#[trigger] images[j]).id@) != canonical(id)) ==> {
                let (own_id, regions) = resolved_id(images, id)->Ok_0;
                &&& resolved_id(images, id) is Ok
                &&& own_id == images[i].id@
                &&& forall|a: int, b: int|
                    0 <= a < b < regions.len() ==> text_before(
                        #[trigger] regions[a],
                        #[trigger] regions[b],
                    )
                &&& forall|region: Seq<char>| #[trigger]
                    regions.contains(region) <==> exists|k: int|
                        0 <= k < images.len() && canonical((#[trigger] images[k]).id@)
                            == canonical(id) && offered_in(images[k], region)
            },
{
    resolution_is_exact(images, id);
    if resolved_id(images, id) is Err {
        assert forall|i: int| 0 <= i < images.len() implies canonical((#[trigger] images[i]).id@)
            != canonical(id) by {
            assert(!has_id(images[i], id));
        }
    }
    assert forall|i: int|
        0 <= i < images.len() && canonical((#[trigger] images[i]).id@) == canonical(id) && (
        forall|j: int|
            0 <= j < i ==> canonical((#[trigger] images[j]).id@) != canonical(id)) implies {
        let (own_id, regions) = resolved_id(images, id)->Ok_0;
        &&& resolved_id(images, id) is Ok
        &&& own_id == images[i].id@
        &&& forall|a: int, b: int|
            0 <= a < b < regions.len() ==> text_before(#[trigger] regions[a], #[trigger] regions[b])
        &&& forall|region: Seq<char>| #[trigger]
            regions.contains(region) <==> exists|k: int|
                0 <= k < images.len() && canonical((#[trigger] images[k]).id@) == canonical(id)
                    && offered_in(images[k], region)
    } by {
        assert(has_id(images[i], id));
        assert forall|j: int| 0 <= j < i implies !has_id(#[trigger] images[j], id) by {
            assert(canonical(images[j].id@) != canonical(id));
        }
        assert(first_with_id(images, id, i));
        first_with_id_unique(images, id, i, choose|k: int| first_with_id(images, id, k));
        let regions = resolved_id(images, id)->Ok_0.1;
        let before = text_order();
        assert forall|a: int, b: int| 0 <= a < b < regions.len() implies text_before(
            #[trigger] regions[a],
            #[trigger] regions[b],
        ) by {
            assert(before(regions[a], regions[b]));
        }
        assert forall|region: Seq<char>| #[trigger]
            regions.contains(region) <==> exists|k: int|
                0 <= k < images.len() && canonical((#[trigger] images[k]).id@) == canonical(id)
                    && offered_in(images[k], region) by {
            assert(regions.contains(region) <==> id_regions(images, id).contains(region));
            if id_regions(images, id).contains(region) {
                let k = choose|k: int|
                    0 <= k < images.len() && has_id(#[trigger] images[k], id) && region_name(
                        images[k].region,
                    ) == Some(region);
                assert(canonical(images[k].id@) == canonical(id) && offered_in(images[k], region));
            }
            if exists|k: int|
                0 <= k < images.len() && canonical((#[trigger] images[k]).id@) == canonical(id)
                    && offered_in(images[k], region) {
                let k = choose|k: int|
                    0 <= k < images.len() && canonical((#[trigger] images[k]).id@) == canonical(id)
                        && offered_in(images[k], region);
                assert(has_id(images[k], id));
            }
        }
    }
}

/// The image names the given family.
pub open spec fn names_family(image: Image, family: Seq<char>) -> bool {
    image.family is Some && image.family->0@ == family
}

/// A family passes exactly when some image names that very family. Otherwise the error
/// names the family and lists all that images name: in code point order, each once, and
/// no other.
pub proof fn family_passes_when_named(images: Seq<Image>, family: Seq<char>)
    ensures
        checked_family(images, family) is Ok <==> exists|i: int|
            0 <= i < images.len() && names_family(#[trigger] images[i], family),
        checked_family(images, family) is Err ==> {
            let failure = checked_family(images, family)->Err_0;
            &&& failure is ImageFamilyNotFound
            &&& failure->family == family
            &&& forall|a: int, b: int|
                0 <= a < b < failure->families.len() ==> text_before(
                    #[trigger] failure->families[a],
                    #[trigger] failure->families[b],
                )
            &&& forall|name: Seq<char>| #[trigger]
                failure->families.contains(name) <==> exists|i: int|
                    0 <= i < images.len() && names_family(#[trigger] images[i], name)
        },
{
    let all = families(images);
    assert forall|name: Seq<char>| #[trigger]
        all.contains(name) <==> exists|i: int|
            0 <= i < images.len() && names_family(#[trigger] images[i], name) by {
        if all.contains(name) {
            let i = choose|i: int|
                0 <= i < images.len() && opt_text((#[trigger] images[i]).family) == Some(name);
            assert(names_family(images[i], name));
        }
        if exists|i: int| 0 <= i < images.len() && names_family(#[trigger] images[i], name) {
            let i = choose|i: int|
                0 <= i < images.len() && names_family(#[trigger] images[i], name);
            assert(opt_text(images[i].family) == Some(name));
        }
    }
    let named = images.map_values(|image: Image| image.family->0@);
    assert forall|name: Seq<char>| #[trigger] all.contains(name) implies named.contains(name) by {
        let i = choose|i: int| 0 <= i < images.len() && names_family(#[trigger] images[i], name);
        assert(named[i] == name);
    }
    texts_are_listed(named, all);
    if checked_family(images, family) is Err {
        let listed = text_listing(all);
        let before = text_order();
        assert forall|a: int, b: int| 0 <= a < b < listed.len() implies text_before(
            #[trigger] listed[a],
            #[trigger] listed[b],
        ) by {
            assert(before(listed[a], listed[b]));
        }
        assert forall|name: Seq<char>| #[trigger]
            listed.contains(name) <==> exists|i: int|
                0 <= i < images.len() && names_family(#[trigger] images[i], name) by {
            assert(listed.contains(name) <==> all.contains(name));
        }
    }
}

/// A resolution that is as expected gives that very id and those very regions, or an error
/// with that very failure.
pub proof fn resolution_is_the_expected_one(
    result: Result<(String, Vec<String>), ClientError>,
    expected: Result<(Seq<char>, Seq<Seq<char>>), Failure>,
)
    requires
        resolves(result, expected),
    ensures
        result is Ok <==> expected is Ok,
        result is Ok ==> {
            &&& result->Ok_0.0@ == expected->Ok_0.0
            &&& result->Ok_0.1@.len() == expected->Ok_0.1.len()
            &&& forall|i: int|
                0 <= i < expected->Ok_0.1.len() ==> (#[trigger] result->Ok_0.1@[i])@
                    == expected->Ok_0.1[i]
        },
        result is Err ==> result->Err_0@ == expected->Err_0,
{
    if result is Ok {
        let regions = result->Ok_0.1@;
        assert forall|i: int| 0 <= i < regions.len() implies (#[trigger] regions[i])@ == texts(
            regions,
        )[i] by {}
    }
}

} // verus!
