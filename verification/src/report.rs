//! Listings for people: instance types, instances, filesystems and images.

use crate::builds::{
    build_texts, group_image_builds, image_builds, regions_shown, BuildText, ImageBuild,
};
use crate::image::names_family;
use crate::order::{
    insert_rises, listing, listing_exists, listing_is, lists, number_order,
    number_order_is_total, numbers_before, numbers_standing, rises, strict_order, text_before,
    text_order, text_order_is_total, Standing,
};
use crate::text::{
    decimal, digit_char, join_texts, joined, opt_text, or_text, push_decimal, same_text,
    text_or, text_standing, texts,
};
use crate::types::{
    name_of, region_name, Filesystem, Image, Instance, InstanceTypeData, InstanceTypeInfo,
};
use crate::version::{
    decimal_is_run, older, older_goes_by_numbers, run_digit_by_digit, run_value, version_key,
    version_numbers,
};
use vstd::prelude::*;

verus! {

/// A number below one hundred with two digits.
pub open spec fn two_digits(n: nat) -> Seq<char> {
    seq![digit_char(n / 10), digit_char(n % 10)]
}

/// The size of a number without its sign.
pub open spec fn magnitude(n: int) -> nat {
    if n < 0 {
        (-n) as nat
    } else {
        n as nat
    }
}

/// An amount of cents in whole units, with two decimals.
pub open spec fn price_shown(cents: i32) -> Seq<char> {
    let sign = if cents < 0 {
        "-"@
    } else {
        ""@
    };
    sign + decimal(magnitude(cents as int) / 100) + "."@ + two_digits(magnitude(cents as int) % 100)
}

/// The regions with capacity, or that there is none.
pub open spec fn availability_shown(regions: Seq<Seq<char>>) -> Seq<char> {
    if regions.len() == 0 {
        "No availability"@
    } else {
        joined(regions)
    }
}

/// One instance type in the listing.
pub open spec fn type_shown(t: InstanceTypeData) -> Seq<char> {
    "• "@ + t.name@ + " - "@ + t.description@ + "\n  Price: $"@ + price_shown(
        t.price_cents_per_hour,
    ) + "/hr | vCPUs: "@ + decimal(t.vcpus as nat) + " | RAM: "@ + decimal(t.memory_gib as nat)
        + " GiB | Storage: "@ + decimal(t.storage_gib as nat) + " GiB\n  Regions: "@
        + availability_shown(texts(t.regions_available@)) + "\n\n"@
}

/// The first `n` entries of a listing behind its heading.
pub open spec fn entries_shown<T>(
    heading: Seq<char>,
    items: Seq<T>,
    shown: spec_fn(T) -> Seq<char>,
    n: nat,
) -> Seq<char>
    decreases n,
{
    if n == 0 {
        heading
    } else {
        entries_shown(heading, items, shown, (n - 1) as nat) + shown(items[n - 1])
    }
}

/// A listing: its heading and all its entries.
pub open spec fn listing_shown<T>(
    heading: Seq<char>,
    items: Seq<T>,
    shown: spec_fn(T) -> Seq<char>,
) -> Seq<char> {
    entries_shown(heading, items, shown, items.len())
}

/// The listing of the instance types.
pub open spec fn types_shown(types: Seq<InstanceTypeData>) -> Seq<char> {
    listing_shown(
        "Available GPU Instance Types:\n\n"@,
        types,
        |t: InstanceTypeData| type_shown(t),
    )
}

/// The name of an instance type, where there is one.
pub open spec fn kind_shown(info: Option<InstanceTypeInfo>, fallback: Seq<char>) -> Seq<char> {
    match info {
        Some(info) => or_text(info.name, fallback),
        None => fallback,
    }
}

/// A name of a region, where there is one.
pub open spec fn region_or(region: Option<Seq<char>>, fallback: Seq<char>) -> Seq<char> {
    match region {
        Some(name) => name,
        None => fallback,
    }
}

/// The names of the SSH keys, where they are given.
pub open spec fn keys_shown(keys: Option<Vec<String>>) -> Seq<char> {
    match keys {
        Some(keys) => joined(texts(keys@)),
        None => "N/A"@,
    }
}

/// One instance in the listing.
pub open spec fn instance_shown(instance: Instance) -> Seq<char> {
    "• ID: "@ + or_text(instance.id, "N/A"@) + "\n  Name: "@ + or_text(instance.name, "-"@)
        + " | Type: "@ + kind_shown(instance.instance_type, "N/A"@) + " | Region: "@ + region_or(
        region_name(instance.region),
        "N/A"@,
    ) + "\n  Status: "@ + or_text(instance.status, "unknown"@) + " | IP: "@ + or_text(
        instance.ip,
        "N/A"@,
    ) + "\n  SSH Keys: "@ + keys_shown(instance.ssh_key_names) + "\n\n"@
}

/// The listing of the running instances.
pub open spec fn instances_shown(instances: Seq<Instance>) -> Seq<char> {
    if instances.len() == 0 {
        "No running instances."@
    } else {
        listing_shown(
            "Running Instances:\n\n"@,
            instances,
            |instance: Instance| instance_shown(instance),
        )
    }
}

/// What a number of bytes is divided by when it is shown, where it is divided at
/// all, and the unit that it is then shown in.
pub open spec fn size_unit(bytes: u64) -> (Option<u64>, Seq<char>) {
    if bytes > 1_000_000_000 {
        (Some(1_000_000_000), " GB"@)
    } else if bytes > 1_000_000 {
        (Some(1_000_000), " MB"@)
    } else if bytes > 1_000 {
        (Some(1_000), " KB"@)
    } else {
        (None, " B"@)
    }
}

/// A number of bytes as it is shown, where `quotient` is what dividing it comes to.
pub open spec fn size_shown(bytes: u64, quotient: Seq<char>) -> Seq<char> {
    match size_unit(bytes) {
        (Some(_), unit) => quotient + unit,
        (None, unit) => decimal(bytes as nat) + unit,
    }
}

/// One filesystem in the listing.
pub open spec fn filesystem_shown(filesystem: Filesystem, quotient: Seq<char>) -> Seq<char> {
    "• "@ + filesystem.name@ + " ("@ + filesystem.created@ + ")\n  ID: "@ + filesystem.id@
        + "\n  Mount: "@ + filesystem.mount_point@ + "\n  Region: "@ + filesystem.region.name@
        + "\n  In Use: "@ + (if filesystem.is_in_use {
        "Yes"@
    } else {
        "No"@
    }) + " | Size: "@ + size_shown(filesystem.bytes_used, quotient) + "\n\n"@
}

/// The listing of the filesystems. Each comes with what dividing its size comes to.
pub open spec fn filesystems_shown(
    filesystems: Seq<Filesystem>,
    quotients: Seq<Seq<char>>,
) -> Seq<char> {
    if filesystems.len() == 0 {
        "No filesystems."@
    } else {
        listing_shown(
            "Filesystems:\n\n"@,
            Seq::new(filesystems.len(), |i: int| (filesystems[i], quotients[i])),
            |pair: (Filesystem, Seq<char>)| filesystem_shown(pair.0, pair.1),
        )
    }
}

/// One build in the grouped listing.
pub open spec fn build_shown(build: BuildText) -> Seq<char> {
    "• family: "@ + build.family + " | latest: "@ + build.latest_version + " | arch: "@ + build.arch
        + " | regions: "@ + regions_shown(build.regions) + "\n"@
}

/// The grouped listing of the images.
pub open spec fn builds_shown(builds: Seq<BuildText>) -> Seq<char> {
    if builds.len() == 0 {
        "No images."@
    } else {
        listing_shown(
            "Available base images, grouped by family (launch start_instance with a family — region-agnostic, gets the newest build). Pass `family` to this tool to list the individual per-region image ids for a specific build.\n\n"@,
            builds,
            |build: BuildText| build_shown(build),
        )
    }
}

/// The image belongs to the family.
pub open spec fn of_family(image: Image, family: Seq<char>) -> bool {
    opt_text(image.family) == Some(family)
}

/// The numbers of an image's version. An image without a version has none.
pub open spec fn image_numbers(image: Image) -> Seq<u64> {
    version_numbers(or_text(image.version, ""@))
}

/// No region comes before any region, and regions by their names.
pub open spec fn region_before(a: Option<Seq<char>>, b: Option<Seq<char>>) -> bool {
    match (a, b) {
        (None, Some(_)) => true,
        (Some(a), Some(b)) => text_before(a, b),
        _ => false,
    }
}

/// Image `i` is listed before image `j`: it has the newer version; or the same one
/// and a region that comes first; or both the same and it was answered first.
pub open spec fn image_before(images: Seq<Image>, i: int, j: int) -> bool {
    let a = images[i];
    let b = images[j];
    ||| numbers_before(image_numbers(b), image_numbers(a))
    ||| image_numbers(a) == image_numbers(b) && region_before(
        region_name(a.region),
        region_name(b.region),
    )
    ||| image_numbers(a) == image_numbers(b) && region_name(a.region) == region_name(b.region) && i
        < j
}

/// The order in which the images of a family are listed.
pub open spec fn image_order(images: Seq<Image>) -> spec_fn(int, int) -> bool {
    |i: int, j: int| image_before(images, i, j)
}

/// The places of the images of a family.
pub open spec fn family_members(images: Seq<Image>, family: Seq<char>) -> Set<int> {
    Set::new(|i: int| 0 <= i < images.len() && of_family(images[i], family))
}

/// The images of a family in the order in which they are listed, by their places.
pub open spec fn family_places(images: Seq<Image>, family: Seq<char>) -> Seq<int> {
    listing(family_members(images, family), image_order(images))
}

/// One image in the listing of a family.
pub open spec fn image_shown(image: Image) -> Seq<char> {
    "• id: "@ + image.id@ + " | name: "@ + or_text(image.name, "-"@) + " | version: "@ + or_text(
        image.version,
        "-"@,
    ) + " | arch: "@ + or_text(image.architecture, "-"@) + " | region: "@ + region_or(
        region_name(image.region),
        "-"@,
    ) + "\n"@
}

/// The listing of the images of a family.
pub open spec fn family_shown(images: Seq<Image>, family: Seq<char>) -> Seq<char> {
    if family_places(images, family).len() == 0 {
        "No images in family '"@ + family
            + "'. Call list_images with no family to see available families."@
    } else {
        listing_shown(
            "Images in family '"@ + family
                + "' (launch start_instance with one of these ids for an exact build):\n\n"@,
            family_places(images, family),
            |i: int| image_shown(images[i]),
        )
    }
}

fn push_two_digits(text: &mut String, n: u64)
    requires
        n < 100,
    ensures
        final(text)@ == old(text)@ + two_digits(n as nat),
{
    text.push((48u8 + (n / 10) as u8) as char);
    text.push((48u8 + (n % 10) as u8) as char);
    assert(text@ =~= old(text)@ + two_digits(n as nat));
}

/// An amount of cents in whole units, with two decimals.
pub fn price_text(cents: i32) -> (text: String)
    ensures
        text@ == price_shown(cents),
{
    let wide: i64 = cents as i64;
    let size: u64 = if wide < 0 {
        (-wide) as u64
    } else {
        wide as u64
    };
    let mut text = if cents < 0 {
        "-".to_owned()
    } else {
        "".to_owned()
    };
    push_decimal(&mut text, size / 100);
    text.append(".");
    push_two_digits(&mut text, size % 100);
    text
}

fn type_text(t: &InstanceTypeData) -> (text: String)
    ensures
        text@ == type_shown(*t),
{
    let mut text = "• ".to_owned();
    text.append(t.name.as_str());
    text.append(" - ");
    text.append(t.description.as_str());
    text.append("\n  Price: $");
    text.append(price_text(t.price_cents_per_hour).as_str());
    text.append("/hr | vCPUs: ");
    push_decimal(&mut text, t.vcpus as u64);
    text.append(" | RAM: ");
    push_decimal(&mut text, t.memory_gib as u64);
    text.append(" GiB | Storage: ");
    push_decimal(&mut text, t.storage_gib as u64);
    text.append(" GiB\n  Regions: ");
    if t.regions_available.len() == 0 {
        text.append("No availability");
    } else {
        text.append(join_texts(&t.regions_available).as_str());
    }
    text.append("\n\n");
    text
}

/// The listing of the instance types.
pub fn format_instance_types(types: &[InstanceTypeData]) -> (text: String)
    ensures
        text@ == types_shown(types@),
{
    let ghost heading = "Available GPU Instance Types:\n\n"@;
    let ghost shown = |t: InstanceTypeData| type_shown(t);
    let mut text = "Available GPU Instance Types:\n\n".to_owned();
    let mut at: usize = 0;
    while at < types.len()
        invariant
            at <= types.len(),
            shown == |t: InstanceTypeData| type_shown(t),
            text@ == entries_shown(heading, types@, shown, at as nat),
        decreases types.len() - at,
    {
        text.append(type_text(&types[at]).as_str());
        at = at + 1;
    }
    text
}

fn named_kind<'a>(info: &'a Option<InstanceTypeInfo>, fallback: &'a str) -> (name: &'a str)
    ensures
        name@ == kind_shown(*info, fallback@),
{
    match info {
        Some(info) => text_or(&info.name, fallback),
        None => fallback,
    }
}

fn instance_text(instance: &Instance) -> (text: String)
    ensures
        text@ == instance_shown(*instance),
{
    let mut text = "• ID: ".to_owned();
    text.append(text_or(&instance.id, "N/A"));
    text.append("\n  Name: ");
    text.append(text_or(&instance.name, "-"));
    text.append(" | Type: ");
    text.append(named_kind(&instance.instance_type, "N/A"));
    text.append(" | Region: ");
    match name_of(&instance.region) {
        Some(name) => text.append(name.as_str()),
        None => text.append("N/A"),
    }
    text.append("\n  Status: ");
    text.append(text_or(&instance.status, "unknown"));
    text.append(" | IP: ");
    text.append(text_or(&instance.ip, "N/A"));
    text.append("\n  SSH Keys: ");
    match &instance.ssh_key_names {
        Some(keys) => text.append(join_texts(keys).as_str()),
        None => text.append("N/A"),
    }
    text.append("\n\n");
    text
}

/// The listing of the running instances.
pub fn format_instances(instances: &[Instance]) -> (text: String)
    ensures
        text@ == instances_shown(instances@),
{
    if instances.len() == 0 {
        return "No running instances.".to_owned();
    }
    let ghost heading = "Running Instances:\n\n"@;
    let ghost shown = |instance: Instance| instance_shown(instance);
    let mut text = "Running Instances:\n\n".to_owned();
    let mut at: usize = 0;
    while at < instances.len()
        invariant
            at <= instances.len(),
            shown == |instance: Instance| instance_shown(instance),
            text@ == entries_shown(heading, instances@, shown, at as nat),
        decreases instances.len() - at,
    {
        text.append(instance_text(&instances[at]).as_str());
        at = at + 1;
    }
    text
}

/// What a number of bytes is divided by when it is shown, where it is divided at all.
pub fn size_divisor(bytes: u64) -> (divisor: Option<u64>)
    ensures
        divisor == size_unit(bytes).0,
{
    if bytes > 1_000_000_000 {
        Some(1_000_000_000)
    } else if bytes > 1_000_000 {
        Some(1_000_000)
    } else if bytes > 1_000 {
        Some(1_000)
    } else {
        None
    }
}

fn push_size(text: &mut String, bytes: u64, quotient: &str)
    ensures
        final(text)@ == old(text)@ + size_shown(bytes, quotient@),
{
    let ghost before = text@;
    if bytes > 1_000_000_000 {
        text.append(quotient);
        text.append(" GB");
    } else if bytes > 1_000_000 {
        text.append(quotient);
        text.append(" MB");
    } else if bytes > 1_000 {
        text.append(quotient);
        text.append(" KB");
    } else {
        push_decimal(text, bytes);
        text.append(" B");
    }
    assert(text@ =~= before + size_shown(bytes, quotient@));
}

fn filesystem_text(filesystem: &Filesystem, quotient: &str) -> (text: String)
    ensures
        text@ == filesystem_shown(*filesystem, quotient@),
{
    let mut text = "• ".to_owned();
    text.append(filesystem.name.as_str());
    text.append(" (");
    text.append(filesystem.created.as_str());
    text.append(")\n  ID: ");
    text.append(filesystem.id.as_str());
    text.append("\n  Mount: ");
    text.append(filesystem.mount_point.as_str());
    text.append("\n  Region: ");
    text.append(filesystem.region.name.as_str());
    text.append("\n  In Use: ");
    if filesystem.is_in_use {
        text.append("Yes");
    } else {
        text.append("No");
    }
    text.append(" | Size: ");
    push_size(&mut text, filesystem.bytes_used, quotient);
    text.append("\n\n");
    text
}

/// The listing of the filesystems. `quotients` holds for each filesystem its size
/// divided by `size_divisor`, with two decimals; where nothing divides the size the
/// text is not used.
pub fn format_filesystems(filesystems: &[Filesystem], quotients: &[String]) -> (text: String)
    requires
        quotients@.len() == filesystems@.len(),
    ensures
        text@ == filesystems_shown(filesystems@, texts(quotients@)),
{
    if filesystems.len() == 0 {
        return "No filesystems.".to_owned();
    }
    let ghost heading = "Filesystems:\n\n"@;
    let ghost shown = |pair: (Filesystem, Seq<char>)| filesystem_shown(pair.0, pair.1);
    let ghost pairs = Seq::new(
        filesystems@.len(),
        |i: int| (filesystems@[i], texts(quotients@)[i]),
    );
    let mut text = "Filesystems:\n\n".to_owned();
    let mut at: usize = 0;
    while at < filesystems.len()
        invariant
            at <= filesystems.len(),
            quotients@.len() == filesystems@.len(),
            shown == |pair: (Filesystem, Seq<char>)| filesystem_shown(pair.0, pair.1),
            pairs == Seq::new(
                filesystems@.len(),
                |i: int| (filesystems@[i], texts(quotients@)[i]),
            ),
            text@ == entries_shown(heading, pairs, shown, at as nat),
        decreases filesystems.len() - at,
    {
        text.append(filesystem_text(&filesystems[at], quotients[at].as_str()).as_str());
        at = at + 1;
    }
    text
}

fn build_text(build: &ImageBuild) -> (text: String)
    ensures
        text@ == build_shown(build@),
{
    let mut text = "• family: ".to_owned();
    text.append(build.family.as_str());
    text.append(" | latest: ");
    text.append(build.latest_version.as_str());
    text.append(" | arch: ");
    text.append(build.arch.as_str());
    text.append(" | regions: ");
    text.append(build.regions_summary().as_str());
    text.append("\n");
    text
}

/// Grouped image view (default): one line per family+arch with the newest build
/// and where it's offered. `family` is the value to pass to start_instance
/// (region-agnostic).
pub fn format_image_builds(images: Vec<Image>) -> (text: String)
    ensures
        text@ == builds_shown(image_builds(images@)),
{
    let builds = group_image_builds(images);
    let ghost shown = |build: BuildText| build_shown(build);
    if builds.len() == 0 {
        return "No images.".to_owned();
    }
    let mut text =
        "Available base images, grouped by family (launch start_instance with a family — region-agnostic, gets the newest build). Pass `family` to this tool to list the individual per-region image ids for a specific build.\n\n".to_owned();
    let ghost heading = text@;
    let mut at: usize = 0;
    while at < builds.len()
        invariant
            at <= builds.len(),
            shown == |build: BuildText| build_shown(build),
            text@ == entries_shown(heading, build_texts(builds@), shown, at as nat),
        decreases builds.len() - at,
    {
        text.append(build_text(&builds[at]).as_str());
        at = at + 1;
    }
    text
}

/// Listing images by version, region and place is a strict order that decides
/// between any two of them.
pub proof fn image_order_is_total(images: Seq<Image>)
    ensures
        strict_order(image_order(images)),
        forall|i: int, j: int|
            i == j || #[trigger] image_before(images, i, j) || image_before(images, j, i),
{
    text_order_is_total();
    number_order_is_total();
    let by_text = text_order();
    let by_number = number_order();
    let before = image_order(images);
    assert forall|i: int| !#[trigger] before(i, i) by {
        assert(!by_number(image_numbers(images[i]), image_numbers(images[i])));
        if let Some(name) = region_name(images[i].region) {
            assert(!by_text(name, name));
        }
    }
    assert forall|i: int, j: int, k: int| #[trigger]
        before(i, j) && #[trigger] before(j, k) implies before(i, k) by {
        let a = image_numbers(images[i]);
        let b = image_numbers(images[j]);
        let c = image_numbers(images[k]);
        if by_number(b, a) && by_number(c, b) {
            assert(by_number(c, a));
        }
        let x = region_name(images[i].region);
        let y = region_name(images[j].region);
        let z = region_name(images[k].region);
        if x is Some && y is Some && z is Some && by_text(x->0, y->0) && by_text(y->0, z->0) {
            assert(by_text(x->0, z->0));
        }
    }
    assert forall|i: int, j: int|
        i == j || #[trigger] image_before(images, i, j) || image_before(images, j, i) by {
        let a = image_numbers(images[i]);
        let b = image_numbers(images[j]);
        assert(a == b || numbers_before(a, b) || numbers_before(b, a));
        let x = region_name(images[i].region);
        let y = region_name(images[j].region);
        if x is Some && y is Some {
            assert(x->0 == y->0 || text_before(x->0, y->0) || text_before(y->0, x->0));
        }
    }
}

/// Whether an earlier image is listed before a later one.
fn listed_before(
    images: &[Image],
    earlier: usize,
    earlier_key: &Vec<u64>,
    later: usize,
    later_key: &Vec<u64>,
) -> (first: bool)
    requires
        earlier < later < images@.len(),
        earlier_key@ == image_numbers(images@[earlier as int]),
        later_key@ == image_numbers(images@[later as int]),
    ensures
        first == image_before(images@, earlier as int, later as int),
{
    match numbers_standing(earlier_key, later_key) {
        Standing::After => true,
        Standing::Before => {
            proof {
                number_order_is_total();
                let by_number = number_order();
                assert(!by_number(earlier_key@, earlier_key@));
                if by_number(later_key@, earlier_key@) {
                    assert(by_number(earlier_key@, later_key@));
                }
            }
            false
        },
        Standing::Same => {
            proof {
                number_order_is_total();
                let by_number = number_order();
                assert(!by_number(earlier_key@, earlier_key@));
            }
            match (name_of(&images[earlier].region), name_of(&images[later].region)) {
                (None, _) => true,
                (Some(_), None) => false,
                (Some(a), Some(b)) => match text_standing(a.as_str(), b.as_str()) {
                    Standing::Before => true,
                    Standing::Same => true,
                    Standing::After => {
                        proof {
                            text_order_is_total();
                            let by_text = text_order();
                            assert(!by_text(a@, a@));
                            if by_text(a@, b@) {
                                assert(by_text(b@, a@));
                            }
                        }
                        false
                    },
                },
            }
        },
    }
}

fn keys_of_images(images: &[Image]) -> (keys: Vec<Vec<u64>>)
    ensures
        keys@.len() == images@.len(),
        forall|i: int| 0 <= i < keys@.len() ==> (#[trigger] keys@[i])@ == image_numbers(images@[i]),
{
    let mut keys: Vec<Vec<u64>> = Vec::new();
    let mut at: usize = 0;
    while at < images.len()
        invariant
            at <= images@.len(),
            keys@.len() == at,
            forall|i: int| 0 <= i < at ==> (#[trigger] keys@[i])@ == image_numbers(images@[i]),
        decreases images.len() - at,
    {
        keys.push(version_key(text_or(&images[at].version, "")));
        at = at + 1;
    }
    keys
}

/// Places as integers.
pub open spec fn indices(places: Seq<usize>) -> Seq<int> {
    places.map_values(|i: usize| i as int)
}

/// The images of a family in the order in which they are listed, by their places.
pub fn places_in_family(images: &[Image], family: &str) -> (places: Vec<usize>)
    ensures
        indices(places@) == family_places(images@, family@),
        forall|i: int| 0 <= i < places@.len() ==> (#[trigger] places@[i]) < images@.len(),
{
    let ghost before = image_order(images@);
    let keys = keys_of_images(images);
    let mut places: Vec<usize> = Vec::new();
    let mut at: usize = 0;
    proof {
        image_order_is_total(images@);
        assert(indices(places@) =~= Seq::empty());
    }
    while at < images.len()
        invariant
            at <= images@.len(),
            before == image_order(images@),
            strict_order(before),
            forall|i: int, j: int|
                i == j || #[trigger] image_before(images@, i, j) || image_before(images@, j, i),
            keys@.len() == images@.len(),
            forall|i: int|
                0 <= i < keys@.len() ==> (#[trigger] keys@[i])@ == image_numbers(images@[i]),
            rises(indices(places@), before),
            forall|i: int| 0 <= i < places@.len() ==> (#[trigger] places@[i]) < at,
            forall|i: int| #[trigger]
                indices(places@).contains(i) <==> 0 <= i < at && of_family(images@[i], family@),
        decreases images.len() - at,
    {
        let ghost held = indices(places@);
        let member = match &images[at].family {
            Some(own) => same_text(own.as_str(), family),
            None => false,
        };
        if member {
            let mut place: usize = 0;
            while place < places.len() && listed_before(
                images,
                places[place],
                &keys[places[place]],
                at,
                &keys[at],
            )
                invariant
                    place <= places@.len(),
                    at < images@.len(),
                    before == image_order(images@),
                    held == indices(places@),
                    keys@.len() == images@.len(),
                    forall|i: int|
                        0 <= i < keys@.len() ==> (#[trigger] keys@[i])@ == image_numbers(
                            images@[i],
                        ),
                    forall|i: int| 0 <= i < places@.len() ==> (#[trigger] places@[i]) < at,
                    forall|i: int| 0 <= i < place ==> before(#[trigger] held[i], at as int),
                decreases places.len() - place,
            {
                assert(held[place as int] == places@[place as int] as int);
                place = place + 1;
            }
            proof {
                if place < held.len() {
                    let here = held[place as int];
                    assert(here == places@[place as int] as int);
                    assert(image_before(images@, at as int, here) || image_before(
                        images@,
                        here,
                        at as int,
                    ));
                }
                insert_rises(held, place as int, at as int, before);
            }
            places.insert(place, at);
            assert(indices(places@) =~= held.insert(place as int, at as int));
        }
        proof {
            assert forall|i: int| #[trigger]
                indices(places@).contains(i) <==> 0 <= i < at + 1 && of_family(
                images@[i],
                family@,
            ) by {
                assert(held.contains(i) <==> 0 <= i < at && of_family(images@[i], family@));
            }
        }
        at = at + 1;
    }
    proof {
        listing_is(indices(places@), family_members(images@, family@), before);
    }
    places
}

fn image_text(image: &Image) -> (text: String)
    ensures
        text@ == image_shown(*image),
{
    let mut text = "• id: ".to_owned();
    text.append(image.id.as_str());
    text.append(" | name: ");
    text.append(text_or(&image.name, "-"));
    text.append(" | version: ");
    text.append(text_or(&image.version, "-"));
    text.append(" | arch: ");
    text.append(text_or(&image.architecture, "-"));
    text.append(" | region: ");
    match name_of(&image.region) {
        Some(name) => text.append(name.as_str()),
        None => text.append("-"),
    }
    text.append("\n");
    text
}

/// Drill-down view: every image id/region for one family (the `--all` equivalent,
/// scoped so it stays small). Newest version first, then by region name.
pub fn format_images_in_family(images: &[Image], family: &str) -> (text: String)
    ensures
        text@ == family_shown(images@, family@),
{
    let places = places_in_family(images, family);
    let ghost order = indices(places@);
    let ghost shown = |i: int| image_shown(images@[i]);
    if places.len() == 0 {
        let mut text = "No images in family '".to_owned();
        text.append(family);
        text.append("'. Call list_images with no family to see available families.");
        return text;
    }
    let mut text = "Images in family '".to_owned();
    text.append(family);
    text.append("' (launch start_instance with one of these ids for an exact build):\n\n");
    let ghost heading = text@;
    let mut at: usize = 0;
    while at < places.len()
        invariant
            at <= places@.len(),
            order == indices(places@),
            forall|i: int| 0 <= i < places@.len() ==> (#[trigger] places@[i]) < images@.len(),
            shown == |i: int| image_shown(images@[i]),
            text@ == entries_shown(heading, order, shown, at as nat),
        decreases places.len() - at,
    {
        assert(order[at as int] == places@[at as int] as int);
        text.append(image_text(&images[places[at]]).as_str());
        at = at + 1;
    }
    text
}

/// Every image of a family is listed exactly once, and no image before a newer one.
pub proof fn family_is_listed_newest_first(images: Seq<Image>, family: Seq<char>)
    ensures
        lists(family_places(images, family), family_members(images, family), image_order(images)),
        forall|i: int, j: int|
            0 <= i < j < family_places(images, family).len() ==> !numbers_before(
                image_numbers(images[#[trigger] family_places(images, family)[i]]),
                image_numbers(images[#[trigger] family_places(images, family)[j]]),
            ),
{
    let before = image_order(images);
    let members = family_members(images, family);
    let all = Seq::new(images.len(), |i: int| i);
    image_order_is_total(images);
    assert forall|i: int, j: int| i == j || #[trigger] before(i, j) || before(j, i) by {
        assert(i == j || image_before(images, i, j) || image_before(images, j, i));
    }
    assert forall|i: int| #[trigger] members.contains(i) implies all.contains(i) by {
        assert(all[i] == i);
    }
    listing_exists(all, members, before);
    let places = family_places(images, family);
    number_order_is_total();
    let by_number = number_order();
    assert forall|i: int, j: int| 0 <= i < j < places.len() implies !numbers_before(
        image_numbers(images[#[trigger] places[i]]),
        image_numbers(images[#[trigger] places[j]]),
    ) by {
        assert(before(places[i], places[j]));
        let a = image_numbers(images[places[i]]);
        let b = image_numbers(images[places[j]]);
        assert(!by_number(a, a));
        if by_number(a, b) && by_number(b, a) {
            assert(by_number(a, a));
        }
    }
}

/// A listing is its heading, and every further item adds its entry at the end, whatever
/// the items before it are.
pub proof fn listing_entry_by_entry<T>(
    heading: Seq<char>,
    items: Seq<T>,
    last: T,
    shown: spec_fn(T) -> Seq<char>,
)
    ensures
        listing_shown(heading, Seq::<T>::empty(), shown) == heading,
        listing_shown(heading, items.push(last), shown) == listing_shown(heading, items, shown)
            + shown(last),
{
    entries_ignore_rest(heading, items, items.push(last), shown, items.len());
}

proof fn entries_ignore_rest<T>(
    heading: Seq<char>,
    a: Seq<T>,
    b: Seq<T>,
    shown: spec_fn(T) -> Seq<char>,
    n: nat,
)
    requires
        n <= a.len(),
        n <= b.len(),
        forall|i: int| 0 <= i < n ==> a[i] == b[i],
    ensures
        entries_shown(heading, a, shown, n) == entries_shown(heading, b, shown, n),
    decreases n,
{
    if n > 0 {
        entries_ignore_rest(heading, a, b, shown, (n - 1) as nat);
    }
}

/// The listing of the instance types is its heading, and every further type adds its own
/// entry at the end.
pub proof fn types_entry_by_entry(types: Seq<InstanceTypeData>, last: InstanceTypeData)
    ensures
        types_shown(Seq::empty()) == "Available GPU Instance Types:\n\n"@,
        types_shown(types.push(last)) == types_shown(types) + type_shown(last),
{
    listing_entry_by_entry(
        "Available GPU Instance Types:\n\n"@,
        types,
        last,
        |t: InstanceTypeData| type_shown(t),
    );
}

/// The entry of an instance type gives its name, description, price, processors, memory,
/// storage and all regions with capacity, or that there is none.
pub proof fn type_entry_reads(t: InstanceTypeData)
    ensures
        ({
            let front = "• "@ + t.name@ + " - "@ + t.description@ + "\n  Price: $"@ + price_shown(
                t.price_cents_per_hour,
            ) + "/hr | vCPUs: "@ + decimal(t.vcpus as nat) + " | RAM: "@ + decimal(
                t.memory_gib as nat,
            ) + " GiB | Storage: "@ + decimal(t.storage_gib as nat) + " GiB\n  Regions: "@;
            &&& t.regions_available@.len() == 0 ==> type_shown(t) == front + "No availability"@
                + "\n\n"@
            &&& t.regions_available@.len() > 0 ==> type_shown(t) == front + joined(
                texts(t.regions_available@),
            ) + "\n\n"@
        }),
{
    assert(texts(t.regions_available@).len() == t.regions_available@.len());
}

/// A price is written as a sign where it is negative, whole units, a point and two
/// digits, and reads as the cents that it was made from.
pub proof fn price_reads_back(cents: i32) -> (parts: (Seq<char>, Seq<char>))
    ensures
        ({
            let (units, hundredths) = parts;
            let size: int = if cents < 0 { -cents } else { cents as int };
            &&& price_shown(cents) == (if cents < 0 { seq!['-'] } else { Seq::empty() }) + units
                + seq!['.'] + hundredths
            &&& units == decimal((size / 100) as nat)
            &&& hundredths.len() == 2
            &&& forall|i: int| 0 <= i < 2 ==> '0' <= #[trigger] hundredths[i] <= '9'
            &&& run_value(units) * 100 + run_value(hundredths) == size
        }),
{
    let size: int = if cents < 0 { -cents } else { cents as int };
    let units = decimal((size / 100) as nat);
    let rest = (size % 100) as nat;
    let hundredths = two_digits(rest);
    reveal_strlit("-");
    reveal_strlit("");
    reveal_strlit(".");
    assert("-"@ =~= seq!['-'] && ""@ =~= Seq::<char>::empty() && "."@ =~= seq!['.']);
    decimal_is_run((size / 100) as nat);
    assert('0' as nat == 48);
    assert(hundredths[0] as nat == 48 + rest / 10 && hundredths[1] as nat == 48 + rest % 10);
    let none = Seq::<char>::empty();
    assert(hundredths =~= none.push(hundredths[0]).push(hundredths[1]));
    run_digit_by_digit(none, hundredths[0]);
    run_digit_by_digit(none.push(hundredths[0]), hundredths[1]);
    (units, hundredths)
}

/// The listing of the instances says that there is none, or is its heading, and every
/// further instance adds its own entry at the end.
pub proof fn instances_entry_by_entry(instances: Seq<Instance>, last: Instance)
    ensures
        instances_shown(Seq::empty()) == "No running instances."@,
        instances.len() == 0 ==> instances_shown(instances.push(last))
            == "Running Instances:\n\n"@ + instance_shown(last),
        instances.len() > 0 ==> instances_shown(instances.push(last)) == instances_shown(instances)
            + instance_shown(last),
{
    let heading = "Running Instances:\n\n"@;
    let shown = |instance: Instance| instance_shown(instance);
    listing_entry_by_entry(heading, instances, last, shown);
    if instances.len() == 0 {
        assert(instances =~= Seq::<Instance>::empty());
    }
}

/// The entry of an instance gives every field that the API names, whatever the other
/// fields are, and says so of each that it leaves out.
pub proof fn instance_entry_reads(instance: Instance)
    ensures
        ({
            let id = match instance.id {
                Some(id) => id@,
                None => "N/A"@,
            };
            let name = match instance.name {
                Some(name) => name@,
                None => "-"@,
            };
            let kind = if instance.instance_type is Some && instance.instance_type->0.name is Some {
                instance.instance_type->0.name->0@
            } else {
                "N/A"@
            };
            let region = if instance.region is Some && instance.region->0.name is Some {
                instance.region->0.name->0@
            } else {
                "N/A"@
            };
            let status = match instance.status {
                Some(status) => status@,
                None => "unknown"@,
            };
            let ip = match instance.ip {
                Some(ip) => ip@,
                None => "N/A"@,
            };
            let keys = match instance.ssh_key_names {
                Some(keys) => joined(texts(keys@)),
                None => "N/A"@,
            };
            instance_shown(instance) == "• ID: "@ + id + "\n  Name: "@ + name + " | Type: "@ + kind
                + " | Region: "@ + region + "\n  Status: "@ + status + " | IP: "@ + ip
                + "\n  SSH Keys: "@ + keys + "\n\n"@
        }),
{
}

/// The address of an instance is shown wherever there is one, whatever its status and its
/// other fields are.
pub proof fn address_is_shown(instance: Instance) -> (around: (Seq<char>, Seq<char>))
    requires
        instance.ip is Some,
    ensures
        instance_shown(instance) == around.0 + " | IP: "@ + instance.ip->0@ + "\n"@ + around.1,
{
    instance_entry_reads(instance);
    let front = "• ID: "@ + or_text(instance.id, "N/A"@) + "\n  Name: "@ + or_text(
        instance.name,
        "-"@,
    ) + " | Type: "@ + kind_shown(instance.instance_type, "N/A"@) + " | Region: "@ + region_or(
        region_name(instance.region),
        "N/A"@,
    ) + "\n  Status: "@ + or_text(instance.status, "unknown"@);
    let back = "  SSH Keys: "@ + keys_shown(instance.ssh_key_names) + "\n\n"@;
    let head = front + " | IP: "@ + instance.ip->0@;
    reveal_strlit("\n  SSH Keys: ");
    reveal_strlit("\n");
    reveal_strlit("  SSH Keys: ");
    assert("\n  SSH Keys: "@ =~= "\n"@ + "  SSH Keys: "@);
    assert(head + "\n  SSH Keys: "@ + keys_shown(instance.ssh_key_names) + "\n\n"@ =~= head
        + "\n"@ + back);
    (front, back)
}

/// Two instances that differ in their status alone have entries that differ in the text
/// behind `Status: ` alone.
pub proof fn status_changes_its_own_text(a: Instance, b: Instance) -> (around: (
    Seq<char>,
    Seq<char>,
))
    requires
        a.id == b.id,
        a.name == b.name,
        a.ip == b.ip,
        a.ssh_key_names == b.ssh_key_names,
        a.instance_type == b.instance_type,
        a.region == b.region,
    ensures
        a.status is Some ==> instance_shown(a) == around.0 + "Status: "@ + a.status->0@ + around.1,
        a.status is None ==> instance_shown(a) == around.0 + "Status: "@ + "unknown"@ + around.1,
        b.status is Some ==> instance_shown(b) == around.0 + "Status: "@ + b.status->0@ + around.1,
        b.status is None ==> instance_shown(b) == around.0 + "Status: "@ + "unknown"@ + around.1,
{
    let front = "• ID: "@ + or_text(a.id, "N/A"@) + "\n  Name: "@ + or_text(a.name, "-"@)
        + " | Type: "@ + kind_shown(a.instance_type, "N/A"@) + " | Region: "@ + region_or(
        region_name(a.region),
        "N/A"@,
    );
    let back = " | IP: "@ + or_text(a.ip, "N/A"@) + "\n  SSH Keys: "@ + keys_shown(
        a.ssh_key_names,
    ) + "\n\n"@;
    status_stands_between(a, front, back, or_text(a.status, "unknown"@));
    status_stands_between(b, front, back, or_text(b.status, "unknown"@));
    (front + "\n  "@, back)
}

proof fn status_stands_between(
    instance: Instance,
    front: Seq<char>,
    back: Seq<char>,
    status: Seq<char>,
)
    requires
        instance_shown(instance) == front + "\n  Status: "@ + status + " | IP: "@ + or_text(
            instance.ip,
            "N/A"@,
        ) + "\n  SSH Keys: "@ + keys_shown(instance.ssh_key_names) + "\n\n"@,
        back == " | IP: "@ + or_text(instance.ip, "N/A"@) + "\n  SSH Keys: "@ + keys_shown(
            instance.ssh_key_names,
        ) + "\n\n"@,
    ensures
        instance_shown(instance) == front + "\n  "@ + "Status: "@ + status + back,
{
    reveal_strlit("\n  Status: ");
    reveal_strlit("\n  ");
    reveal_strlit("Status: ");
    assert("\n  Status: "@ =~= "\n  "@ + "Status: "@);
    assert(front + "\n  Status: "@ =~= front + "\n  "@ + "Status: "@);
    let head = front + "\n  "@ + "Status: "@ + status;
    assert(instance_shown(instance) =~= head + back);
}

/// The listing of the filesystems says that there is none, or is its heading, and every
/// further filesystem adds its own entry at the end, with its own quotient.
pub proof fn filesystems_entry_by_entry(
    filesystems: Seq<Filesystem>,
    quotients: Seq<Seq<char>>,
    last: Filesystem,
    quotient: Seq<char>,
)
    requires
        filesystems.len() == quotients.len(),
    ensures
        filesystems_shown(Seq::empty(), Seq::empty()) == "No filesystems."@,
        filesystems.len() == 0 ==> filesystems_shown(
            filesystems.push(last),
            quotients.push(quotient),
        ) == "Filesystems:\n\n"@ + filesystem_shown(last, quotient),
        filesystems.len() > 0 ==> filesystems_shown(
            filesystems.push(last),
            quotients.push(quotient),
        ) == filesystems_shown(filesystems, quotients) + filesystem_shown(last, quotient),
{
    let heading = "Filesystems:\n\n"@;
    let shown = |pair: (Filesystem, Seq<char>)| filesystem_shown(pair.0, pair.1);
    let pairs = Seq::new(filesystems.len(), |i: int| (filesystems[i], quotients[i]));
    let more = filesystems.push(last);
    let all = Seq::new(more.len(), |i: int| (more[i], quotients.push(quotient)[i]));
    assert(all =~= pairs.push((last, quotient)));
    listing_entry_by_entry(heading, pairs, (last, quotient), shown);
    if filesystems.len() == 0 {
        assert(pairs =~= Seq::<(Filesystem, Seq<char>)>::empty());
    }
}

/// The entry of a filesystem gives its name, day of creation, id, mount point, region and
/// use. Its size is its own quotient in GB, MB or KB where it is above a thousand million,
/// a million or a thousand bytes, and its number of bytes otherwise.
pub proof fn filesystem_entry_reads(filesystem: Filesystem, quotient: Seq<char>)
    ensures
        ({
            let bytes = filesystem.bytes_used;
            let used = if filesystem.is_in_use {
                "Yes"@
            } else {
                "No"@
            };
            let front = "• "@ + filesystem.name@ + " ("@ + filesystem.created@ + ")\n  ID: "@
                + filesystem.id@ + "\n  Mount: "@ + filesystem.mount_point@ + "\n  Region: "@
                + filesystem.region.name@ + "\n  In Use: "@ + used + " | Size: "@;
            let size = filesystem_shown(filesystem, quotient);
            &&& bytes > 1_000_000_000 ==> size == front + (quotient + " GB"@) + "\n\n"@
            &&& 1_000_000 < bytes <= 1_000_000_000 ==> size == front + (quotient + " MB"@)
                + "\n\n"@
            &&& 1_000 < bytes <= 1_000_000 ==> size == front + (quotient + " KB"@) + "\n\n"@
            &&& bytes <= 1_000 ==> size == front + (decimal(bytes as nat) + " B"@) + "\n\n"@
        }),
{
}

/// A size is divided by the unit that it is shown in, and by nothing up to a thousand
/// bytes.
pub proof fn size_is_divided_by_its_unit(bytes: u64)
    ensures
        bytes > 1_000_000_000 ==> size_unit(bytes).0 == Some(1_000_000_000u64),
        1_000_000 < bytes <= 1_000_000_000 ==> size_unit(bytes).0 == Some(1_000_000u64),
        1_000 < bytes <= 1_000_000 ==> size_unit(bytes).0 == Some(1_000u64),
        bytes <= 1_000 ==> size_unit(bytes).0 is None,
{
}

/// The grouped listing says that there is none, or is its heading, and every further build
/// adds its own entry at the end.
pub proof fn builds_entry_by_entry(builds: Seq<BuildText>, last: BuildText)
    ensures
        builds_shown(Seq::empty()) == "No images."@,
        builds.len() == 0 ==> builds_shown(builds.push(last))
            == "Available base images, grouped by family (launch start_instance with a family — region-agnostic, gets the newest build). Pass `family` to this tool to list the individual per-region image ids for a specific build.\n\n"@
            + build_shown(last),
        builds.len() > 0 ==> builds_shown(builds.push(last)) == builds_shown(builds) + build_shown(
            last,
        ),
        build_shown(last) == "• family: "@ + last.family + " | latest: "@ + last.latest_version
            + " | arch: "@ + last.arch + " | regions: "@ + regions_shown(last.regions) + "\n"@,
{
    let heading =
        "Available base images, grouped by family (launch start_instance with a family — region-agnostic, gets the newest build). Pass `family` to this tool to list the individual per-region image ids for a specific build.\n\n"@;
    listing_entry_by_entry(heading, builds, last, |build: BuildText| build_shown(build));
    if builds.len() == 0 {
        assert(builds =~= Seq::<BuildText>::empty());
    }
}

/// The version that the API gives an image, empty where it gives none.
pub open spec fn version_text(image: Image) -> Seq<char> {
    match image.version {
        Some(version) => version@,
        None => ""@,
    }
}

/// The listing of a family holds the images that name that very family, each once and no
/// other. No image stands before one with a newer version. Where the versions have the
/// same numbers, one without a region comes first and the others follow by the name of
/// their region; where that is the same too, they keep the order of the answer.
pub proof fn family_listing_is_in_order(images: Seq<Image>, family: Seq<char>)
    ensures
        ({
            let places = family_places(images, family);
            &&& forall|k: int| #[trigger]
                places.contains(k) <==> 0 <= k < images.len() && names_family(images[k], family)
            &&& forall|i: int, j: int|
                0 <= i < j < places.len() ==> {
                    let (a, b) = (images[#[trigger] places[i]], images[#[trigger] places[j]]);
                    &&& places[i] != places[j]
                    &&& !older(version_text(a), version_text(b))
                    &&& version_numbers(version_text(a)) == version_numbers(version_text(b)) ==> {
                        let (x, y) = (region_name(a.region), region_name(b.region));
                        &&& !(x is Some && y is None)
                        &&& x is Some && y is Some ==> !text_before(y->0, x->0)
                        &&& x == y ==> places[i] < places[j]
                    }
                }
        }),
{
    family_is_listed_newest_first(images, family);
    image_order_is_total(images);
    text_order_is_total();
    let places = family_places(images, family);
    let before = image_order(images);
    let by_text = text_order();
    assert forall|k: int| #[trigger]
        places.contains(k) <==> 0 <= k < images.len() && names_family(images[k], family) by {
        assert(places.contains(k) <==> family_members(images, family).contains(k));
    }
    assert forall|i: int, j: int| 0 <= i < j < places.len() implies {
        let (a, b) = (images[#[trigger] places[i]], images[#[trigger] places[j]]);
        &&& places[i] != places[j]
        &&& !older(version_text(a), version_text(b))
        &&& version_numbers(version_text(a)) == version_numbers(version_text(b)) ==> {
            let (x, y) = (region_name(a.region), region_name(b.region));
            &&& !(x is Some && y is None)
            &&& x is Some && y is Some ==> !text_before(y->0, x->0)
            &&& x == y ==> places[i] < places[j]
        }
    } by {
        assert(before(places[i], places[j]));
        assert(!before(places[i], places[i]));
        let (a, b) = (images[places[i]], images[places[j]]);
        older_goes_by_numbers(version_text(a), version_text(a));
        let (x, y) = (region_name(a.region), region_name(b.region));
        if x is Some && y is Some {
            assert(!by_text(x->0, x->0));
            if by_text(x->0, y->0) && by_text(y->0, x->0) {
                assert(by_text(x->0, x->0));
            }
        }
    }
}

/// The text of a family is its heading and the entries of its images, in the order of
/// the listing, or that there is none. An entry gives the image's own id, name, version,
/// architecture and region, with `-` for what the API does not name.
pub proof fn family_text_reads(images: Seq<Image>, family: Seq<char>, image: Image)
    ensures
        ({
            let places = family_places(images, family);
            let heading = "Images in family '"@ + family
                + "' (launch start_instance with one of these ids for an exact build):\n\n"@;
            &&& places.len() == 0 ==> family_shown(images, family) == "No images in family '"@
                + family + "'. Call list_images with no family to see available families."@
            &&& places.len() > 0 ==> family_shown(images, family) == listing_shown(
                heading,
                places.map_values(|i: int| images[i]),
                |own: Image| image_shown(own),
            )
        }),
        ({
            let name = match image.name {
                Some(name) => name@,
                None => "-"@,
            };
            let version = match image.version {
                Some(version) => version@,
                None => "-"@,
            };
            let arch = match image.architecture {
                Some(arch) => arch@,
                None => "-"@,
            };
            let region = if image.region is Some && image.region->0.name is Some {
                image.region->0.name->0@
            } else {
                "-"@
            };
            image_shown(image) == "• id: "@ + image.id@ + " | name: "@ + name + " | version: "@
                + version + " | arch: "@ + arch + " | region: "@ + region + "\n"@
        }),
{
    let places = family_places(images, family);
    let heading = "Images in family '"@ + family
        + "' (launch start_instance with one of these ids for an exact build):\n\n"@;
    entries_by_place(heading, images, places, places.len());
}

proof fn entries_by_place(heading: Seq<char>, images: Seq<Image>, places: Seq<int>, n: nat)
    requires
        n <= places.len(),
    ensures
        entries_shown(heading, places, |i: int| image_shown(images[i]), n) == entries_shown(
            heading,
            places.map_values(|i: int| images[i]),
            |own: Image| image_shown(own),
            n,
        ),
    decreases n,
{
    if n > 0 {
        entries_by_place(heading, images, places, (n - 1) as nat);
    }
}

} // verus!
