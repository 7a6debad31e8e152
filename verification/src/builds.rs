//! Image builds: `/images` grouped by family and architecture.

use crate::image::{checked_family, offered_in};
use crate::order::{
    has_rank, listing, listing_exists, lists, number_order, number_order_is_total,
    numbers_before, numbers_standing, ranks, ranks_among, rises, sorted, strict_order,
    text_before, text_listing, text_order, text_order_is_total, Ranked, Standing,
};
use crate::text::{
    decimal, decimal_text, join_texts, joined, opt_clone, opt_text, or_text, same_text,
    sorted_texts, text_or, text_standing, texts, texts_among, texts_are_listed,
};
use crate::types::{name_of, region_name, Image};
use crate::version::{older, version_key, version_numbers};
use vstd::prelude::*;

verus! {

/// `/images` collapsed to one entry per (family, architecture): the newest version
/// in that group and every region it is offered in.
#[derive(Debug, Clone)]
pub struct ImageBuild {
    pub family: String,
    pub arch: String,
    pub latest_version: String,
    pub regions: Vec<String>,
}

/// What an `ImageBuild` holds, as texts.
pub struct BuildText {
    pub family: Seq<char>,
    pub arch: Seq<char>,
    pub latest_version: Seq<char>,
    pub regions: Seq<Seq<char>>,
}

impl View for ImageBuild {
    type V = BuildText;

    open spec fn view(&self) -> BuildText {
        BuildText {
            family: self.family@,
            arch: self.arch@,
            latest_version: self.latest_version@,
            regions: texts(self.regions@),
        }
    }
}

/// The family by which an image can be launched: one that is given and not empty.
pub open spec fn launch_family(image: Image) -> Option<Seq<char>> {
    match image.family {
        Some(family) => if family@.len() > 0 {
            Some(family@)
        } else {
            None
        },
        None => None,
    }
}

/// The architecture of an image, `-` where none is given.
pub open spec fn image_arch(image: Image) -> Seq<char> {
    or_text(image.architecture, "-"@)
}

/// The version of an image, `-` where none is given or it is empty.
pub open spec fn image_version(image: Image) -> Seq<char> {
    match image.version {
        Some(version) => if version@.len() > 0 {
            version@
        } else {
            "-"@
        },
        None => "-"@,
    }
}

/// The image belongs to the group of the given family and architecture.
pub open spec fn in_group(image: Image, key: (Seq<char>, Seq<char>)) -> bool {
    launch_family(image) == Some(key.0) && image_arch(image) == key.1
}

/// The family and architecture of every image that can be launched by family.
pub open spec fn group_keys(images: Seq<Image>) -> Set<(Seq<char>, Seq<char>)> {
    Set::new(
        |key: (Seq<char>, Seq<char>)|
            exists|i: int| 0 <= i < images.len() && in_group(#[trigger] images[i], key),
    )
}

/// Groups are ordered by family, and within a family by architecture.
pub open spec fn key_before(a: (Seq<char>, Seq<char>), b: (Seq<char>, Seq<char>)) -> bool {
    text_before(a.0, b.0) || (a.0 == b.0 && text_before(a.1, b.1))
}

/// The order of groups.
pub open spec fn key_order() -> spec_fn((Seq<char>, Seq<char>), (Seq<char>, Seq<char>)) -> bool {
    |a: (Seq<char>, Seq<char>), b: (Seq<char>, Seq<char>)| key_before(a, b)
}

/// Image `i` carries the newest version of a group: no other is newer, and it is
/// the first that carries it.
pub open spec fn newest_in(images: Seq<Image>, key: (Seq<char>, Seq<char>), i: int) -> bool {
    &&& 0 <= i < images.len()
    &&& in_group(images[i], key)
    &&& forall|j: int|
        0 <= j < images.len() && in_group(#[trigger] images[j], key) ==> !older(
            image_version(images[i]),
            image_version(images[j]),
        )
    &&& forall|j: int|
        0 <= j < i && in_group(#[trigger] images[j], key) ==> older(
            image_version(images[j]),
            image_version(images[i]),
        )
}

/// The newest version of a group.
pub open spec fn newest_version(images: Seq<Image>, key: (Seq<char>, Seq<char>)) -> Seq<char> {
    image_version(images[choose|i: int| newest_in(images, key, i)])
}

/// The regions in which some image of a group is offered.
pub open spec fn group_regions(images: Seq<Image>, key: (Seq<char>, Seq<char>)) -> Set<Seq<char>> {
    Set::new(
        |region: Seq<char>|
            exists|i: int|
                0 <= i < images.len() && in_group(#[trigger] images[i], key) && region_name(
                    images[i].region,
                ) == Some(region),
    )
}

/// The build that stands for a group.
pub open spec fn group_build(images: Seq<Image>, key: (Seq<char>, Seq<char>)) -> BuildText {
    BuildText {
        family: key.0,
        arch: key.1,
        latest_version: newest_version(images, key),
        regions: text_listing(group_regions(images, key)),
    }
}

/// One build per group, in the order of the groups.
pub open spec fn image_builds(images: Seq<Image>) -> Seq<BuildText> {
    listing(group_keys(images), key_order()).map_values(
        |key: (Seq<char>, Seq<char>)| group_build(images, key),
    )
}

/// The texts that builds hold.
pub open spec fn build_texts(builds: Seq<ImageBuild>) -> Seq<BuildText> {
    builds.map_values(|b: ImageBuild| b@)
}

/// The order of groups is a strict total order.
pub proof fn key_order_is_total()
    ensures
        strict_order(key_order()),
        forall|a: (Seq<char>, Seq<char>), b: (Seq<char>, Seq<char>)|
            a == b || #[trigger] key_before(a, b) || key_before(b, a),
{
    text_order_is_total();
    let by_text = text_order();
    let before = key_order();
    assert forall|a: (Seq<char>, Seq<char>)| !#[trigger] before(a, a) by {
        assert(!by_text(a.0, a.0) && !by_text(a.1, a.1));
    }
    assert forall|
        a: (Seq<char>, Seq<char>),
        b: (Seq<char>, Seq<char>),
        c: (Seq<char>, Seq<char>),
    | #[trigger]
        before(a, b) && #[trigger] before(b, c) implies before(a, c) by {
        if by_text(a.0, b.0) && by_text(b.0, c.0) {
            assert(by_text(a.0, c.0));
        }
        if by_text(a.1, b.1) && by_text(b.1, c.1) {
            assert(by_text(a.1, c.1));
        }
    }
    assert forall|a: (Seq<char>, Seq<char>), b: (Seq<char>, Seq<char>)|
        a == b || #[trigger] key_before(a, b) || key_before(b, a) by {
        assert(a.0 == b.0 || text_before(a.0, b.0) || text_before(b.0, a.0));
        assert(a.1 == b.1 || text_before(a.1, b.1) || text_before(b.1, a.1));
    }
}

/// A group has only one image that is the first with its newest version.
pub proof fn newest_unique(images: Seq<Image>, key: (Seq<char>, Seq<char>), i: int, j: int)
    requires
        newest_in(images, key, i),
        newest_in(images, key, j),
    ensures
        i == j,
{
    if i < j {
        assert(in_group(images[i], key));
    }
    if j < i {
        assert(in_group(images[j], key));
    }
}

fn launch_family_of(image: &Image) -> (family: Option<&String>)
    ensures
        match family {
            Some(family) => launch_family(*image) == Some(family@),
            None => launch_family(*image) is None,
        },
{
    match &image.family {
        Some(family) => if family.as_str().is_empty() {
            None
        } else {
            Some(family)
        },
        None => None,
    }
}

fn version_of(image: &Image) -> (version: &str)
    ensures
        version@ == image_version(*image),
{
    match &image.version {
        Some(version) => if version.as_str().is_empty() {
            "-"
        } else {
            version.as_str()
        },
        None => "-",
    }
}

fn belongs(image: &Image, family: &str, arch: &str) -> (member: bool)
    ensures
        member == in_group(*image, (family@, arch@)),
{
    match launch_family_of(image) {
        Some(own) => same_text(own.as_str(), family) && same_text(
            text_or(&image.architecture, "-"),
            arch,
        ),
        None => false,
    }
}

/// The family and architecture that a pair of strings holds.
pub open spec fn key_texts(keys: Seq<(String, String)>) -> Seq<(Seq<char>, Seq<char>)> {
    keys.map_values(|key: (String, String)| (key.0@, key.1@))
}

impl Ranked for (String, String) {
    type Rank = (Seq<char>, Seq<char>);

    open spec fn rank(&self) -> (Seq<char>, Seq<char>) {
        (self.0@, self.1@)
    }

    open spec fn order() -> spec_fn((Seq<char>, Seq<char>), (Seq<char>, Seq<char>)) -> bool {
        key_order()
    }

    proof fn order_is_strict() {
        key_order_is_total();
    }

    fn standing(&self, other: &Self) -> (standing: Standing) {
        match text_standing(self.0.as_str(), other.0.as_str()) {
            Standing::Same => text_standing(self.1.as_str(), other.1.as_str()),
            by_family => by_family,
        }
    }
}

/// The groups of the images, in order.
fn keys_of(images: &Vec<Image>) -> (keys: Vec<(String, String)>)
    ensures
        key_texts(keys@) == listing(group_keys(images@), key_order()),
        forall|i: int|
            0 <= i < keys.len() ==> group_keys(images@).contains(#[trigger] key_texts(keys@)[i]),
{
    let mut groups: Vec<Option<(String, String)>> = Vec::new();
    let mut at: usize = 0;
    while at < images.len()
        invariant
            at <= images.len(),
            groups.len() == at,
            forall|i: int, key: (Seq<char>, Seq<char>)|
                0 <= i < at ==> (#[trigger] has_rank(groups@[i], key) <==> in_group(
                    images@[i],
                    key,
                )),
        decreases images.len() - at,
    {
        let image = &images[at];
        match launch_family_of(image) {
            Some(family) => {
                let arch = text_or(&image.architecture, "-");
                groups.push(Some((family.clone(), arch.to_owned())));
            },
            None => {
                groups.push(None);
            },
        }
        at = at + 1;
    }
    proof {
        assert forall|key: (Seq<char>, Seq<char>)| #[trigger]
            group_keys(images@).contains(key) <==> ranks_among(groups@).contains(key) by {
            if group_keys(images@).contains(key) {
                let i = choose|i: int|
                    0 <= i < images@.len() && in_group(#[trigger] images@[i], key);
                assert(has_rank(groups@[i], key));
            }
            if ranks_among(groups@).contains(key) {
                let i = choose|i: int|
                    0 <= i < groups@.len() && has_rank(#[trigger] groups@[i], key);
                assert(in_group(images@[i], key));
            }
        }
        assert(ranks_among(groups@) =~= group_keys(images@));
    }
    let keys = sorted(groups);
    proof {
        assert(key_texts(keys@) =~= ranks(keys@));
        assert forall|i: int| 0 <= i < keys.len() implies group_keys(images@).contains(
            #[trigger] key_texts(keys@)[i],
        ) by {
            assert(key_texts(keys@).contains(key_texts(keys@)[i]));
        }
    }
    keys
}

/// The image with the newest version of a group once image `at` is taken into account
/// besides those before it.
pub open spec fn newest_after(
    images: Seq<Image>,
    key: (Seq<char>, Seq<char>),
    at: int,
    best: Option<int>,
) -> Option<int> {
    if !in_group(images[at], key) {
        best
    } else {
        match best {
            Some(i) => if older(image_version(images[i]), image_version(images[at])) {
                Some(at)
            } else {
                best
            },
            None => Some(at),
        }
    }
}

/// `best` is the image with the newest version of a group among the first `at` images.
pub open spec fn newest_so_far(
    images: Seq<Image>,
    key: (Seq<char>, Seq<char>),
    at: int,
    best: Option<int>,
) -> bool {
    match best {
        Some(i) => newest_in(images.take(at), key, i),
        None => forall|j: int| 0 <= j < at ==> !in_group(#[trigger] images[j], key),
    }
}

proof fn newest_step(
    images: Seq<Image>,
    key: (Seq<char>, Seq<char>),
    at: int,
    best: Option<int>,
)
    requires
        0 <= at < images.len(),
        newest_so_far(images, key, at, best),
    ensures
        newest_so_far(images, key, at + 1, newest_after(images, key, at, best)),
{
    number_order_is_total();
    let by_number = number_order();
    let seen = images.take(at);
    let next = images.take(at + 1);
    let own = version_numbers(image_version(images[at]));
    match newest_after(images, key, at, best) {
        Some(i) => {
            assert forall|j: int| 0 <= j < next.len() && in_group(
                #[trigger] next[j],
                key,
            ) implies !older(image_version(next[i]), image_version(next[j])) by {
                let other = version_numbers(image_version(images[j]));
                assert(!by_number(own, own));
                if j < at {
                    assert(next[j] == images[j] && seen[j] == images[j]);
                    assert(best is Some);
                    let held = version_numbers(image_version(seen[best->0]));
                    if i == at && by_number(own, other) {
                        assert(by_number(held, own));
                        assert(by_number(held, other));
                    }
                }
            }
            assert forall|j: int| 0 <= j < i && in_group(#[trigger] next[j], key) implies older(
                image_version(next[j]),
                image_version(next[i]),
            ) by {
                assert(next[j] == images[j] && seen[j] == images[j]);
                if i == at {
                    assert(best is Some);
                    let held = version_numbers(image_version(seen[best->0]));
                    let other = version_numbers(image_version(seen[j]));
                    assert(by_number(held, own));
                    assert(other == held || numbers_before(other, held) || numbers_before(
                        held,
                        other,
                    ));
                    if other != held {
                        assert(by_number(other, held));
                    }
                }
            }
            assert(newest_in(next, key, i));
        },
        None => {},
    }
}

proof fn newest_among(images: Seq<Image>, key: (Seq<char>, Seq<char>), at: int) -> (best: Option<
    int,
>)
    requires
        0 <= at <= images.len(),
    ensures
        newest_so_far(images, key, at, best),
    decreases at,
{
    if at == 0 {
        None
    } else {
        let best = newest_among(images, key, at - 1);
        newest_step(images, key, at - 1, best);
        newest_after(images, key, at - 1, best)
    }
}

/// Every group has an image that is the first with its newest version.
pub proof fn newest_exists(images: Seq<Image>, key: (Seq<char>, Seq<char>)) -> (newest: int)
    requires
        group_keys(images).contains(key),
    ensures
        newest_in(images, key, newest),
        newest_version(images, key) == image_version(images[newest]),
{
    let best = newest_among(images, key, images.len() as int);
    assert(images.take(images.len() as int) =~= images);
    let newest = best->0;
    newest_unique(images, key, newest, choose|i: int| newest_in(images, key, i));
    newest
}

/// The first image that carries the newest version of a group.
fn newest_of(images: &Vec<Image>, family: &str, arch: &str) -> (newest: usize)
    requires
        group_keys(images@).contains((family@, arch@)),
    ensures
        newest_in(images@, (family@, arch@), newest as int),
{
    let ghost key = (family@, arch@);
    let ghost mut newest: Option<int> = None;
    let mut best: usize = 0;
    let mut best_key: Vec<u64> = Vec::new();
    let mut found: bool = false;
    let mut at: usize = 0;
    while at < images.len()
        invariant
            at <= images.len(),
            key == (family@, arch@),
            newest_so_far(images@, key, at as int, newest),
            newest == if found { Some(best as int) } else { None },
            found ==> best < at && best_key@ == version_numbers(image_version(images@[best as int])),
        decreases images.len() - at,
    {
        proof {
            newest_step(images@, key, at as int, newest);
            newest = newest_after(images@, key, at as int, newest);
        }
        if belongs(&images[at], family, arch) {
            let own_key = version_key(version_of(&images[at]));
            let newer = !found || match numbers_standing(&best_key, &own_key) {
                Standing::Before => true,
                _ => false,
            };
            if newer {
                best = at;
                best_key = own_key;
                found = true;
            }
        }
        at = at + 1;
    }
    assert(images@.take(at as int) =~= images@);
    best
}

/// The regions in which a group is offered, in order.
fn regions_of(images: &Vec<Image>, family: &str, arch: &str) -> (regions: Vec<String>)
    ensures
        texts(regions@) == text_listing(group_regions(images@, (family@, arch@))),
{
    let ghost key = (family@, arch@);
    let mut names: Vec<Option<String>> = Vec::new();
    let mut at: usize = 0;
    while at < images.len()
        invariant
            at <= images.len(),
            key == (family@, arch@),
            names.len() == at,
            forall|i: int|
                0 <= i < at ==> opt_text(#[trigger] names@[i]) == if in_group(images@[i], key) {
                    region_name(images@[i].region)
                } else {
                    None
                },
        decreases images.len() - at,
    {
        let image = &images[at];
        if belongs(image, family, arch) {
            names.push(opt_clone(name_of(&image.region)));
        } else {
            names.push(None);
        }
        at = at + 1;
    }
    proof {
        assert forall|x: Seq<char>| #[trigger]
            group_regions(images@, key).contains(x) implies texts_among(names@).contains(x) by {
            let k = choose|k: int|
                0 <= k < images@.len() && in_group(#[trigger] images@[k], key) && region_name(
                    images@[k].region,
                ) == Some(x);
            assert(opt_text(names@[k]) == Some(x));
        }
        assert(texts_among(names@) =~= group_regions(images@, key));
    }
    sorted_texts(names)
}

/// Group raw `/images` objects (one per id and region) into one `ImageBuild` per
/// (family, arch), keeping the newest version and the sorted, de-duplicated region
/// set. Ordered by (family, arch).
///
/// Images with no family are excluded: they can't be launched via
/// `--image-family` / a family `image` param, so surfacing them here would present
/// an unlaunchable value. `lambda images --all` still lists them (launchable by id).
pub fn group_image_builds(images: Vec<Image>) -> (builds: Vec<ImageBuild>)
    ensures
        build_texts(builds@) == image_builds(images@),
{
    let keys = keys_of(&images);
    let mut builds: Vec<ImageBuild> = Vec::new();
    let mut at: usize = 0;
    while at < keys.len()
        invariant
            at <= keys.len(),
            builds.len() == at,
            forall|i: int|
                0 <= i < keys.len() ==> group_keys(images@).contains(
                    #[trigger] key_texts(keys@)[i],
                ),
            forall|i: int|
                0 <= i < at ==> (#[trigger] builds@[i])@ == group_build(
                    images@,
                    key_texts(keys@)[i],
                ),
        decreases keys.len() - at,
    {
        let family = keys[at].0.as_str();
        let arch = keys[at].1.as_str();
        assert(key_texts(keys@)[at as int] == (family@, arch@));
        let newest = newest_of(&images, family, arch);
        let regions = regions_of(&images, family, arch);
        proof {
            let key = (family@, arch@);
            newest_unique(images@, key, newest as int, choose|i: int| newest_in(images@, key, i));
        }
        let build = ImageBuild {
            family: family.to_owned(),
            arch: arch.to_owned(),
            latest_version: version_of(&images[newest]).to_owned(),
            regions,
        };
        builds.push(build);
        at = at + 1;
    }
    assert(build_texts(builds@) =~= image_builds(images@));
    builds
}

/// How many regions to list inline before collapsing to a count.
pub const REGION_LIST_MAX: usize = 4;

/// The region summary of a build: the full list when there are a few, a count
/// otherwise, `-` when none.
pub open spec fn regions_shown(regions: Seq<Seq<char>>) -> Seq<char> {
    if regions.len() == 0 {
        "-"@
    } else if regions.len() <= REGION_LIST_MAX {
        joined(regions)
    } else {
        decimal(regions.len()) + " regions"@
    }
}

impl ImageBuild {
    /// Human-readable region summary shared by the CLI and MCP grouped views: the
    /// full list when there are a few, a count otherwise, `-` when none.
    pub fn regions_summary(&self) -> (summary: String)
        ensures
            summary@ == regions_shown(self@.regions),
    {
        let n = self.regions.len();
        if n == 0 {
            "-".to_owned()
        } else if n <= REGION_LIST_MAX {
            join_texts(&self.regions)
        } else {
            let mut summary = decimal_text(n as u64);
            summary.append(" regions");
            summary
        }
    }
}

/// The groups of images have a listing.
proof fn groups_are_listed(images: Seq<Image>)
    ensures
        lists(listing(group_keys(images), key_order()), group_keys(images), key_order()),
{
    let keys = images.map_values(|image: Image| (launch_family(image)->0, image_arch(image)));
    assert forall|key: (Seq<char>, Seq<char>)| #[trigger]
        group_keys(images).contains(key) implies keys.contains(key) by {
        let i = choose|i: int| 0 <= i < images.len() && in_group(#[trigger] images[i], key);
        assert(keys[i] == key);
    }
    key_order_is_total();
    let before = key_order();
    assert forall|a: (Seq<char>, Seq<char>), b: (Seq<char>, Seq<char>)|
        a == b || #[trigger] before(a, b) || before(b, a) by {
        assert(a == b || key_before(a, b) || key_before(b, a));
    }
    listing_exists(keys, group_keys(images), before);
}

/// The regions of a group have a listing.
proof fn regions_are_listed(images: Seq<Image>, key: (Seq<char>, Seq<char>))
    ensures
        lists(
            text_listing(group_regions(images, key)),
            group_regions(images, key),
            text_order(),
        ),
{
    let regions = images.map_values(|image: Image| region_name(image.region)->0);
    assert forall|region: Seq<char>| #[trigger]
        group_regions(images, key).contains(region) implies regions.contains(region) by {
        let i = choose|i: int|
            0 <= i < images.len() && in_group(#[trigger] images[i], key) && region_name(
                images[i].region,
            ) == Some(region);
        assert(regions[i] == region);
    }
    texts_are_listed(regions, group_regions(images, key));
}

/// The group that a build stands for.
pub open spec fn build_key(build: BuildText) -> (Seq<char>, Seq<char>) {
    (build.family, build.arch)
}

/// There is exactly one build for every family and architecture of an image that can
/// be launched by family, and no other. They are ordered by family and architecture.
pub proof fn one_build_per_group(images: Seq<Image>)
    ensures
        forall|i: int, j: int|
            0 <= i < j < image_builds(images).len() ==> key_before(
                build_key(#[trigger] image_builds(images)[i]),
                build_key(#[trigger] image_builds(images)[j]),
            ),
        forall|i: int|
            0 <= i < image_builds(images).len() ==> group_keys(images).contains(
                build_key(#[trigger] image_builds(images)[i]),
            ),
        forall|key: (Seq<char>, Seq<char>)| #[trigger]
            group_keys(images).contains(key) ==> exists|i: int|
                0 <= i < image_builds(images).len() && build_key(
                    #[trigger] image_builds(images)[i],
                ) == key,
{
    groups_are_listed(images);
    let keys = listing(group_keys(images), key_order());
    let builds = image_builds(images);
    let before = key_order();
    assert forall|i: int, j: int| 0 <= i < j < builds.len() implies key_before(
        build_key(#[trigger] builds[i]),
        build_key(#[trigger] builds[j]),
    ) by {
        assert(before(keys[i], keys[j]));
    }
    assert forall|i: int| 0 <= i < builds.len() implies group_keys(images).contains(
        build_key(#[trigger] builds[i]),
    ) by {
        assert(keys.contains(keys[i]));
    }
    assert forall|key: (Seq<char>, Seq<char>)| #[trigger]
        group_keys(images).contains(key) implies exists|i: int|
        0 <= i < builds.len() && build_key(#[trigger] builds[i]) == key by {
        assert(keys.contains(key));
        let i = choose|i: int| 0 <= i < keys.len() && keys[i] == key;
        assert(build_key(builds[i]) == key);
    }
}

/// Every build can be launched by its family: it is not empty, and the images that are
/// listed name it.
pub proof fn builds_are_launchable(images: Seq<Image>, i: int)
    requires
        0 <= i < image_builds(images).len(),
    ensures
        image_builds(images)[i].family.len() > 0,
        checked_family(images, image_builds(images)[i].family) is Ok,
{
    one_build_per_group(images);
    let key = build_key(image_builds(images)[i]);
    assert(group_keys(images).contains(key));
    let j = choose|j: int| 0 <= j < images.len() && in_group(#[trigger] images[j], key);
    assert(launch_family(images[j]) == Some(key.0));
    assert(opt_text(images[j].family) == Some(key.0));
}

/// A build carries the version of an image of its group than which none is newer. Its
/// regions are exactly those in which an image of its group is offered, in order and
/// each once.
pub proof fn build_is_newest_everywhere(images: Seq<Image>, i: int)
    requires
        0 <= i < image_builds(images).len(),
    ensures
        ({
            let build = image_builds(images)[i];
            let key = build_key(build);
            &&& exists|j: int|
                0 <= j < images.len() && in_group(#[trigger] images[j], key) && image_version(
                    images[j],
                ) == build.latest_version
            &&& forall|j: int|
                0 <= j < images.len() && in_group(#[trigger] images[j], key) ==> !older(
                    build.latest_version,
                    image_version(images[j]),
                )
            &&& rises(build.regions, text_order())
            &&& forall|region: Seq<char>| #[trigger]
                build.regions.contains(region) <==> group_regions(images, key).contains(region)
        }),
{
    one_build_per_group(images);
    let build = image_builds(images)[i];
    let key = build_key(build);
    assert(group_keys(images).contains(key));
    let newest = newest_exists(images, key);
    assert(in_group(images[newest], key));
    regions_are_listed(images, key);
    assert(build == group_build(images, key));
}

/// Every image that can be launched by family has a build of its family and
/// architecture, which is not older than it and lists its region.
pub proof fn launchable_image_has_build(images: Seq<Image>, j: int)
    requires
        0 <= j < images.len(),
        launch_family(images[j]) is Some,
    ensures
        exists|i: int|
            0 <= i < image_builds(images).len() && in_group(
                images[j],
                build_key(#[trigger] image_builds(images)[i]),
            ) && !older(image_builds(images)[i].latest_version, image_version(images[j])) && (
            region_name(images[j].region) is Some ==> image_builds(images)[i].regions.contains(
                region_name(images[j].region)->0,
            )),
{
    one_build_per_group(images);
    let key = (launch_family(images[j])->0, image_arch(images[j]));
    assert(in_group(images[j], key));
    assert(group_keys(images).contains(key));
    let i = choose|i: int|
        0 <= i < image_builds(images).len() && build_key(#[trigger] image_builds(images)[i])
            == key;
    build_is_newest_everywhere(images, i);
    if region_name(images[j].region) is Some {
        let region = region_name(images[j].region)->0;
        assert(group_regions(images, key).contains(region));
    }
}

/// The order in which the API lists its images, and how often it lists one, change
/// nothing of the builds but how an equally new version is written.
pub proof fn builds_ignore_listing_order(a: Seq<Image>, b: Seq<Image>)
    requires
        forall|image: Image| #[trigger] a.contains(image) <==> b.contains(image),
    ensures
        image_builds(a).len() == image_builds(b).len(),
        forall|i: int|
            0 <= i < image_builds(a).len() ==> {
                let one = #[trigger] image_builds(a)[i];
                let other = image_builds(b)[i];
                &&& build_key(one) == build_key(other)
                &&& one.regions == other.regions
                &&& version_numbers(one.latest_version) == version_numbers(other.latest_version)
            },
{
    assert forall|image: Image| #[trigger] b.contains(image) implies a.contains(image) by {
        assert(a.contains(image) <==> b.contains(image));
    }
    groups_within(a, b);
    groups_within(b, a);
    assert(group_keys(a) =~= group_keys(b));
    let keys = listing(group_keys(a), key_order());
    assert forall|i: int| 0 <= i < image_builds(a).len() implies {
        let one = #[trigger] image_builds(a)[i];
        let other = image_builds(b)[i];
        &&& build_key(one) == build_key(other)
        &&& one.regions == other.regions
        &&& version_numbers(one.latest_version) == version_numbers(other.latest_version)
    } by {
        let key = keys[i];
        groups_are_listed(a);
        assert(keys.contains(key));
        regions_within(a, b, key);
        regions_within(b, a, key);
        assert(group_regions(a, key) =~= group_regions(b, key));
        let m = newest_exists(a, key);
        let n = newest_exists(b, key);
        assert(a.contains(a[m]));
        let m1 = choose|m1: int| 0 <= m1 < b.len() && b[m1] == a[m];
        assert(in_group(b[m1], key));
        assert(b.contains(b[n]));
        let n1 = choose|n1: int| 0 <= n1 < a.len() && a[n1] == b[n];
        assert(in_group(a[n1], key));
        number_order_is_total();
        let one = version_numbers(image_version(a[m]));
        let other = version_numbers(image_version(b[n]));
        assert(one == other || numbers_before(one, other) || numbers_before(other, one));
    }
}

/// Images that cannot be launched by family, and repeats of images that are already
/// listed, change nothing of the builds when they are listed last.
pub proof fn more_of_the_same_changes_nothing(images: Seq<Image>, more: Seq<Image>)
    requires
        forall|i: int|
            0 <= i < more.len() ==> launch_family(#[trigger] more[i]) is None || images.contains(
                more[i],
            ),
    ensures
        image_builds(images + more) == image_builds(images),
{
    let all = images + more;
    assert forall|j: int, key: (Seq<char>, Seq<char>)|
        0 <= j < all.len() && #[trigger] in_group(all[j], key) implies images.contains(all[j]) by {
        if j < images.len() {
            assert(all[j] == images[j]);
        } else {
            assert(all[j] == more[j - images.len()]);
        }
    }
    assert forall|key: (Seq<char>, Seq<char>)| #[trigger]
        group_keys(all).contains(key) <==> group_keys(images).contains(key) by {
        if group_keys(all).contains(key) {
            let i = choose|i: int| 0 <= i < all.len() && in_group(#[trigger] all[i], key);
            let j = choose|j: int| 0 <= j < images.len() && images[j] == all[i];
            assert(in_group(images[j], key));
        }
        if group_keys(images).contains(key) {
            let i = choose|i: int| 0 <= i < images.len() && in_group(#[trigger] images[i], key);
            assert(all[i] == images[i]);
            assert(in_group(all[i], key));
        }
    }
    assert(group_keys(all) =~= group_keys(images));
    groups_are_listed(images);
    let keys = listing(group_keys(images), key_order());
    assert forall|k: int| 0 <= k < keys.len() implies group_build(all, #[trigger] keys[k])
        == group_build(images, keys[k]) by {
        assert(keys.contains(keys[k]));
        group_stays(images, more, keys[k]);
    }
    assert(image_builds(all) =~= image_builds(images));
}

proof fn group_stays(images: Seq<Image>, more: Seq<Image>, key: (Seq<char>, Seq<char>))
    requires
        group_keys(images).contains(key),
        forall|j: int|
            0 <= j < (images + more).len() && #[trigger] in_group((images + more)[j], key)
                ==> images.contains((images + more)[j]),
    ensures
        group_build(images + more, key) == group_build(images, key),
{
    let all = images + more;
    assert forall|x: Seq<char>| #[trigger]
        group_regions(all, key).contains(x) <==> group_regions(images, key).contains(x) by {
        if group_regions(all, key).contains(x) {
            let i = choose|i: int|
                0 <= i < all.len() && in_group(#[trigger] all[i], key) && region_name(
                    all[i].region,
                ) == Some(x);
            let j = choose|j: int| 0 <= j < images.len() && images[j] == all[i];
            assert(in_group(images[j], key));
        }
        if group_regions(images, key).contains(x) {
            let i = choose|i: int|
                0 <= i < images.len() && in_group(#[trigger] images[i], key) && region_name(
                    images[i].region,
                ) == Some(x);
            assert(all[i] == images[i]);
            assert(in_group(all[i], key));
        }
    }
    assert(group_regions(all, key) =~= group_regions(images, key));
    let newest = newest_exists(images, key);
    assert(all[newest] == images[newest]);
    assert forall|j: int| 0 <= j < all.len() && in_group(#[trigger] all[j], key) implies !older(
        image_version(all[newest]),
        image_version(all[j]),
    ) by {
        let k = choose|k: int| 0 <= k < images.len() && images[k] == all[j];
        assert(in_group(images[k], key));
    }
    assert forall|j: int| 0 <= j < newest && in_group(#[trigger] all[j], key) implies older(
        image_version(all[j]),
        image_version(all[newest]),
    ) by {
        assert(all[j] == images[j]);
        assert(in_group(images[j], key));
    }
    assert(newest_in(all, key, newest));
    newest_unique(all, key, newest, choose|i: int| newest_in(all, key, i));
}

proof fn groups_within(a: Seq<Image>, b: Seq<Image>)
    requires
        forall|image: Image| #[trigger] a.contains(image) ==> b.contains(image),
    ensures
        forall|key: (Seq<char>, Seq<char>)| #[trigger]
            group_keys(a).contains(key) ==> group_keys(b).contains(key),
{
    assert forall|key: (Seq<char>, Seq<char>)| #[trigger]
        group_keys(a).contains(key) implies group_keys(b).contains(key) by {
        let i = choose|i: int| 0 <= i < a.len() && in_group(#[trigger] a[i], key);
        assert(a.contains(a[i]));
        let j = choose|j: int| 0 <= j < b.len() && b[j] == a[i];
        assert(in_group(b[j], key));
    }
}

proof fn regions_within(a: Seq<Image>, b: Seq<Image>, key: (Seq<char>, Seq<char>))
    requires
        forall|image: Image| #[trigger] a.contains(image) ==> b.contains(image),
    ensures
        forall|region: Seq<char>| #[trigger]
            group_regions(a, key).contains(region) ==> group_regions(b, key).contains(region),
{
    assert forall|region: Seq<char>| #[trigger]
        group_regions(a, key).contains(region) implies group_regions(b, key).contains(region) by {
        let i = choose|i: int|
            0 <= i < a.len() && in_group(#[trigger] a[i], key) && region_name(a[i].region)
                == Some(region);
        assert(a.contains(a[i]));
        let j = choose|j: int| 0 <= j < b.len() && b[j] == a[i];
        assert(in_group(b[j], key));
    }
}

/// The image is of the given family, which is not empty, and of the given architecture,
/// which is `-` where the API names none.
pub open spec fn made_of(image: Image, family: Seq<char>, arch: Seq<char>) -> bool {
    &&& family.len() > 0
    &&& image.family is Some && image.family->0@ == family
    &&& arch == match image.architecture {
        Some(named) => named@,
        None => "-"@,
    }
}

/// The version that the API gives an image, `-` where it gives none or an empty one.
pub open spec fn version_given(image: Image) -> Seq<char> {
    if image.version is Some && image.version->0@.len() > 0 {
        image.version->0@
    } else {
        "-"@
    }
}

proof fn groups_are_made_of(image: Image, family: Seq<char>, arch: Seq<char>)
    ensures
        in_group(image, (family, arch)) <==> made_of(image, family, arch),
        image_version(image) == version_given(image),
{
}

/// Every build says of its family and architecture what the listed images say: its
/// version is that of the first image than which none of them is newer, and its regions
/// are those that they name, in code point order, each once, and no other.
pub proof fn build_says_what_images_say(images: Seq<Image>, i: int)
    requires
        0 <= i < image_builds(images).len(),
    ensures
        ({
            let build = image_builds(images)[i];
            &&& exists|n: int| #[trigger] first_newest(images, build.family, build.arch, n)
                && build.latest_version == version_given(images[n])
            &&& forall|a: int, b: int|
                0 <= a < b < build.regions.len() ==> text_before(
                    #[trigger] build.regions[a],
                    #[trigger] build.regions[b],
                )
            &&& forall|region: Seq<char>| #[trigger]
                build.regions.contains(region) <==> exists|j: int|
                    0 <= j < images.len() && made_of(#[trigger] images[j], build.family, build.arch)
                        && offered_in(images[j], region)
        }),
{
    one_build_per_group(images);
    build_is_newest_everywhere(images, i);
    let build = image_builds(images)[i];
    let key = build_key(build);
    assert(group_keys(images).contains(key));
    assert forall|j: int| 0 <= j < images.len() implies (in_group(#[trigger] images[j], key)
        <==> made_of(images[j], build.family, build.arch)) && image_version(images[j])
        == version_given(images[j]) by {
        groups_are_made_of(images[j], build.family, build.arch);
    }
    let n = newest_exists(images, key);
    assert(build == group_build(images, key));
    assert(made_of(images[n], build.family, build.arch));
    assert forall|j: int|
        0 <= j < images.len() && made_of(#[trigger] images[j], build.family, build.arch) implies {
        &&& !older(version_given(images[n]), version_given(images[j]))
        &&& j < n ==> older(version_given(images[j]), version_given(images[n]))
    } by {
        assert(in_group(images[j], key));
    }
    assert(first_newest(images, build.family, build.arch, n));
    let before = text_order();
    assert forall|a: int, b: int| 0 <= a < b < build.regions.len() implies text_before(
        #[trigger] build.regions[a],
        #[trigger] build.regions[b],
    ) by {
        assert(before(build.regions[a], build.regions[b]));
    }
    assert forall|region: Seq<char>| #[trigger]
        build.regions.contains(region) <==> exists|j: int|
            0 <= j < images.len() && made_of(#[trigger] images[j], build.family, build.arch)
                && offered_in(images[j], region) by {
        assert(build.regions.contains(region) <==> group_regions(images, key).contains(region));
        if group_regions(images, key).contains(region) {
            let j = choose|j: int|
                0 <= j < images.len() && in_group(#[trigger] images[j], key) && region_name(
                    images[j].region,
                ) == Some(region);
            assert(made_of(images[j], build.family, build.arch) && offered_in(images[j], region));
        }
        if exists|j: int|
            0 <= j < images.len() && made_of(#[trigger] images[j], build.family, build.arch)
                && offered_in(images[j], region) {
            let j = choose|j: int|
                0 <= j < images.len() && made_of(#[trigger] images[j], build.family, build.arch)
                    && offered_in(images[j], region);
            assert(in_group(images[j], key));
        }
    }
}

/// Image `n` is the first with the newest version among the images of a family and
/// architecture: none of them is newer, and all of them that are listed earlier are
/// older.
pub open spec fn first_newest(
    images: Seq<Image>,
    family: Seq<char>,
    arch: Seq<char>,
    n: int,
) -> bool {
    &&& 0 <= n < images.len()
    &&& made_of(images[n], family, arch)
    &&& forall|j: int|
        0 <= j < images.len() && made_of(#[trigger] images[j], family, arch) ==> {
            &&& !older(version_given(images[n]), version_given(images[j]))
            &&& j < n ==> older(version_given(images[j]), version_given(images[n]))
        }
}

/// Some image is of the given family and architecture.
pub open spec fn some_made_of(images: Seq<Image>, family: Seq<char>, arch: Seq<char>) -> bool {
    exists|j: int| 0 <= j < images.len() && made_of(#[trigger] images[j], family, arch)
}

/// The builds are exactly the families and architectures of the images that name a
/// family: each of those has a build and every build is one of them, in the order of
/// families and, within a family, of architectures.
pub proof fn builds_are_those_of_the_images(images: Seq<Image>)
    ensures
        forall|j: int, family: Seq<char>, arch: Seq<char>|
            0 <= j < images.len() && #[trigger] made_of(images[j], family, arch) ==> exists|i: int|
                0 <= i < image_builds(images).len() && (#[trigger] image_builds(images)[i]).family
                    == family && image_builds(images)[i].arch == arch,
        forall|i: int|
            0 <= i < image_builds(images).len() ==> some_made_of(
                images,
                (#[trigger] image_builds(images)[i]).family,
                image_builds(images)[i].arch,
            ),
        forall|a: int, b: int|
            0 <= a < b < image_builds(images).len() ==> {
                let (one, other) = (
                    #[trigger] image_builds(images)[a],
                    #[trigger] image_builds(images)[b],
                );
                text_before(one.family, other.family) || (one.family == other.family
                    && text_before(one.arch, other.arch))
            },
{
    one_build_per_group(images);
    let builds = image_builds(images);
    assert forall|j: int, family: Seq<char>, arch: Seq<char>|
        0 <= j < images.len() && #[trigger] made_of(images[j], family, arch) implies exists|i: int|
        0 <= i < builds.len() && (#[trigger] builds[i]).family == family && builds[i].arch
            == arch by {
        groups_are_made_of(images[j], family, arch);
        assert(in_group(images[j], (family, arch)));
        assert(group_keys(images).contains((family, arch)));
        let i = choose|i: int|
            0 <= i < builds.len() && build_key(#[trigger] builds[i]) == (family, arch);
        assert(builds[i].family == family && builds[i].arch == arch);
    }
    assert forall|i: int| 0 <= i < builds.len() implies some_made_of(
        images,
        (#[trigger] builds[i]).family,
        builds[i].arch,
    ) by {
        let key = build_key(builds[i]);
        assert(group_keys(images).contains(key));
        let j = choose|j: int| 0 <= j < images.len() && in_group(#[trigger] images[j], key);
        groups_are_made_of(images[j], key.0, key.1);
        assert(made_of(images[j], builds[i].family, builds[i].arch));
    }
    assert forall|a: int, b: int| 0 <= a < b < builds.len() implies {
        let (one, other) = (#[trigger] builds[a], #[trigger] builds[b]);
        text_before(one.family, other.family) || (one.family == other.family && text_before(
            one.arch,
            other.arch,
        ))
    } by {
        assert(key_before(build_key(builds[a]), build_key(builds[b])));
    }
}

/// The summary of regions names all of them up to the number of four, counts them beyond
/// it, and is `-` where there is none.
pub proof fn summary_names_or_counts(regions: Seq<Seq<char>>)
    ensures
        regions.len() == 0 ==> regions_shown(regions) == "-"@,
        1 <= regions.len() <= 4 ==> regions_shown(regions) == joined(regions),
        regions.len() >= 5 ==> regions_shown(regions) == decimal(regions.len()) + " regions"@,
{
}

/// What a build shows is what it holds.
pub proof fn build_shows_what_it_holds(build: ImageBuild)
    ensures
        build@.family == build.family@,
        build@.arch == build.arch@,
        build@.latest_version == build.latest_version@,
        build@.regions.len() == build.regions@.len(),
        forall|i: int|
            0 <= i < build.regions@.len() ==> #[trigger] build@.regions[i] == build.regions@[i]@,
{
}

} // verus!
