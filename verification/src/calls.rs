//! The calls of the client: what each makes of the reply it gets.

use crate::client::LambdaClient;
use crate::error::{ClientError, Document, Failure, LambdaError, LambdaFailure, Operation};
use crate::image::{check_family, checked_family, find_image, resolved_id, resolves};
use crate::order::{
    insert_rises, listing, listing_exists, listing_is, listing_unique, lists, rises,
    strict_order, text_before, text_order, text_order_is_total, Standing,
};
use crate::reply::{acknowledge, meets, receipt_outcome, reply_outcome, settle, Receipt, Reply};
use crate::text::{same_text, text_standing, texts};
use crate::types::{
    region_names, Filesystem, Image, Instance, InstanceTypeData, InstanceTypeResponse, Region,
};
use vstd::prelude::*;

verus! {

/// Entry `i` of the instance types is listed before entry `j`: its name comes first,
/// or they have the same name and it was answered first.
pub open spec fn entry_before(
    entries: Seq<(String, InstanceTypeResponse)>,
    i: int,
    j: int,
) -> bool {
    text_before(entries[i].0@, entries[j].0@) || (entries[i].0@ == entries[j].0@ && i < j)
}

/// The order in which instance types are listed.
pub open spec fn entry_order(entries: Seq<(String, InstanceTypeResponse)>) -> spec_fn(
    int,
    int,
) -> bool {
    |i: int, j: int| entry_before(entries, i, j)
}

/// The places of a sequence.
pub open spec fn places(n: nat) -> Set<int> {
    Set::new(|i: int| 0 <= i < n)
}

/// The entries in the order in which they are listed, by their places.
pub open spec fn entry_places(entries: Seq<(String, InstanceTypeResponse)>) -> Seq<int> {
    listing(places(entries.len()), entry_order(entries))
}

/// The data of an instance type is that of its entry.
pub open spec fn describes(data: InstanceTypeData, entry: (String, InstanceTypeResponse)) -> bool {
    &&& data.name@ == entry.0@
    &&& data.description@ == entry.1.instance_type.description@
    &&& data.price_cents_per_hour == entry.1.instance_type.price_cents_per_hour
    &&& data.vcpus == entry.1.instance_type.specs.vcpus
    &&& data.memory_gib == entry.1.instance_type.specs.memory_gib
    &&& data.storage_gib == entry.1.instance_type.specs.storage_gib
    &&& texts(data.regions_available@) == region_names(
        entry.1.regions_with_capacity_available@,
    )
}

/// The list holds the entries at the given places, one for one.
pub open spec fn describes_all(
    list: Seq<InstanceTypeData>,
    entries: Seq<(String, InstanceTypeResponse)>,
    shown: Seq<int>,
) -> bool {
    &&& list.len() == shown.len()
    &&& forall|i: int| 0 <= i < list.len() ==> describes(#[trigger] list[i], entries[shown[i]])
}

/// The instance type of the given name, where there is one.
pub open spec fn named_type(
    entries: Seq<(String, InstanceTypeResponse)>,
    name: Seq<char>,
) -> Option<InstanceTypeResponse>
    decreases entries.len(),
{
    if entries.len() == 0 {
        None
    } else if entries[0].0@ == name {
        Some(entries[0].1)
    } else {
        named_type(entries.drop_first(), name)
    }
}

/// The regions that have capacity for an instance type, or that there is no such type.
pub open spec fn availability(
    entries: Seq<(String, InstanceTypeResponse)>,
    gpu: Seq<char>,
) -> Result<Seq<Seq<char>>, Failure> {
    match named_type(entries, gpu) {
        Some(found) => Ok(region_names(found.regions_with_capacity_available@)),
        None => Err(Failure::Lambda(LambdaFailure::InstanceTypeNotFound(gpu))),
    }
}

/// What a reply and what is made of its data lead to.
pub open spec fn chained<T, U>(
    reply: Result<T, Failure>,
    made: spec_fn(T) -> Result<U, Failure>,
) -> Result<U, Failure> {
    match reply {
        Ok(data) => made(data),
        Err(failure) => Err(failure),
    }
}

/// Listing by name, then by place, is a strict total order of the entries.
pub proof fn entry_order_is_strict(entries: Seq<(String, InstanceTypeResponse)>)
    ensures
        strict_order(entry_order(entries)),
{
    text_order_is_total();
    let by_text = text_order();
    let before = entry_order(entries);
    assert forall|i: int| !#[trigger] before(i, i) by {
        assert(!by_text(entries[i].0@, entries[i].0@));
    }
    assert forall|i: int, j: int, k: int| #[trigger]
        before(i, j) && #[trigger] before(j, k) implies before(i, k) by {
        if by_text(entries[i].0@, entries[j].0@) && by_text(entries[j].0@, entries[k].0@) {
            assert(by_text(entries[i].0@, entries[k].0@));
        }
    }
}

/// The names of regions.
pub(crate) fn names_of(regions: &Vec<Region>) -> (names: Vec<String>)
    ensures
        texts(names@) == region_names(regions@),
{
    let mut names: Vec<String> = Vec::new();
    let mut at: usize = 0;
    while at < regions.len()
        invariant
            at <= regions.len(),
            names.len() == at,
            forall|i: int| 0 <= i < at ==> (#[trigger] names@[i])@ == regions@[i].name@,
        decreases regions.len() - at,
    {
        names.push(regions[at].name.clone());
        at = at + 1;
    }
    assert(texts(names@) =~= region_names(regions@));
    names
}

fn data_of(entry: &(String, InstanceTypeResponse)) -> (data: InstanceTypeData)
    ensures
        describes(data, *entry),
{
    InstanceTypeData {
        name: entry.0.clone(),
        description: entry.1.instance_type.description.clone(),
        price_cents_per_hour: entry.1.instance_type.price_cents_per_hour,
        vcpus: entry.1.instance_type.specs.vcpus,
        memory_gib: entry.1.instance_type.specs.memory_gib,
        storage_gib: entry.1.instance_type.specs.storage_gib,
        regions_available: names_of(&entry.1.regions_with_capacity_available),
    }
}

/// The instance types as they are listed: sorted by name.
pub fn sorted_types(entries: &Vec<(String, InstanceTypeResponse)>) -> (list: Vec<InstanceTypeData>)
    ensures
        describes_all(list@, entries@, entry_places(entries@)),
{
    let ghost before = entry_order(entries@);
    let ghost mut shown: Seq<int> = Seq::empty();
    let mut list: Vec<InstanceTypeData> = Vec::new();
    let mut at: usize = 0;
    proof {
        entry_order_is_strict(entries@);
    }
    while at < entries.len()
        invariant
            at <= entries.len(),
            before == entry_order(entries@),
            strict_order(before),
            rises(shown, before),
            forall|i: int| #[trigger] shown.contains(i) <==> 0 <= i < at,
            describes_all(list@, entries@, shown),
        decreases entries.len() - at,
    {
        let data = data_of(&entries[at]);
        let mut place: usize = 0;
        while place < list.len()
            invariant_except_break
                forall|i: int| 0 <= i < place ==> before(#[trigger] shown[i], at as int),
            invariant
                place <= list.len(),
                at < entries.len(),
                before == entry_order(entries@),
                describes(data, entries@[at as int]),
                forall|i: int| #[trigger] shown.contains(i) <==> 0 <= i < at,
                describes_all(list@, entries@, shown),
            ensures
                forall|i: int| 0 <= i < place ==> before(#[trigger] shown[i], at as int),
                place < list.len() ==> text_before(
                    entries@[at as int].0@,
                    entries@[shown[place as int]].0@,
                ),
            decreases list.len() - place,
        {
            assert(describes(list@[place as int], entries@[shown[place as int]]));
            assert(shown.contains(shown[place as int]));
            match text_standing(list[place].name.as_str(), data.name.as_str()) {
                Standing::After => {
                    break ;
                },
                _ => {
                    place = place + 1;
                },
            }
        }
        proof {
            insert_rises(shown, place as int, at as int, before);
        }
        let ghost held = list@;
        list.insert(place, data);
        proof {
            let grown = shown.insert(place as int, at as int);
            assert forall|i: int| 0 <= i < list@.len() implies describes(
                #[trigger] list@[i],
                entries@[grown[i]],
            ) by {
                if i < place {
                    assert(list@[i] == held[i]);
                } else if i > place {
                    assert(list@[i] == held[i - 1]);
                    assert(grown[i] == shown[i - 1]);
                }
            }
            shown = grown;
        }
        at = at + 1;
    }
    proof {
        assert forall|i: int| #[trigger] shown.contains(i) <==> places(entries@.len()).contains(
            i,
        ) by {}
        listing_is(shown, places(entries@.len()), before);
    }
    list
}

/// The instance type of the given name, where there is one.
pub fn find_type(entries: Vec<(String, InstanceTypeResponse)>, name: &str) -> (found: Option<
    InstanceTypeResponse,
>)
    ensures
        found == named_type(entries@, name@),
{
    let mut left = entries;
    let mut at: usize = 0;
    assert(entries@.skip(0) =~= entries@);
    while at < left.len()
        invariant
            at <= left.len(),
            left@ == entries@,
            named_type(entries@, name@) == named_type(entries@.skip(at as int), name@),
        decreases left.len() - at,
    {
        let ghost rest = entries@.skip(at as int);
        assert(rest[0] == entries@[at as int]);
        if same_text(left[at].0.as_str(), name) {
            let (_, found) = left.swap_remove(at);
            return Some(found);
        }
        assert(rest.drop_first() =~= entries@.skip(at + 1));
        at = at + 1;
    }
    None
}

/// The calls. Each takes what came of the request it makes.
impl LambdaClient {
    /// Validate the API key by making a test request
    pub fn validate_api_key(receipt: Receipt) -> (result: Result<(), ClientError>)
        ensures
            meets(result, receipt_outcome(Operation::ValidateApiKey, receipt)),
    {
        acknowledge(Operation::ValidateApiKey, receipt)
    }

    /// List all available instance types
    pub fn list_instance_types(reply: Reply<Vec<(String, InstanceTypeResponse)>>) -> (result:
        Result<Vec<InstanceTypeData>, ClientError>)
        ensures
            match (
                result,
                reply_outcome(Operation::ListInstanceTypes, Document::InstanceTypeList, reply),
            ) {
                (Ok(list), Ok(entries)) => describes_all(
                    list@,
                    entries@,
                    entry_places(entries@),
                ),
                (Err(error), Err(failure)) => error@ == failure,
                _ => false,
            },
    {
        match settle(Operation::ListInstanceTypes, Document::InstanceTypeList, reply) {
            Ok(entries) => Ok(sorted_types(&entries)),
            Err(error) => Err(error),
        }
    }

    /// Get instance type details (for checking availability)
    pub fn get_instance_type(
        reply: Reply<Vec<(String, InstanceTypeResponse)>>,
        gpu: &str,
    ) -> (result: Result<Option<InstanceTypeResponse>, ClientError>)
        ensures
            match (
                result,
                reply_outcome(Operation::GetInstanceType, Document::InstanceTypes, reply),
            ) {
                (Ok(found), Ok(entries)) => found == named_type(entries@, gpu@),
                (Err(error), Err(failure)) => error@ == failure,
                _ => false,
            },
    {
        match settle(Operation::GetInstanceType, Document::InstanceTypes, reply) {
            Ok(entries) => Ok(find_type(entries, gpu)),
            Err(error) => Err(error),
        }
    }

    /// Terminate an instance
    pub fn terminate_instance(receipt: Receipt) -> (result: Result<(), ClientError>)
        ensures
            meets(result, receipt_outcome(Operation::Terminate, receipt)),
    {
        acknowledge(Operation::Terminate, receipt)
    }

    /// List all running instances
    pub fn list_running_instances(reply: Reply<Vec<Instance>>) -> (result: Result<
        Vec<Instance>,
        ClientError,
    >)
        ensures
            meets(
                result,
                reply_outcome(Operation::ListRunningInstances, Document::RunningInstances, reply),
            ),
    {
        settle(Operation::ListRunningInstances, Document::RunningInstances, reply)
    }

    /// Get details for a specific instance
    pub fn get_instance(reply: Reply<Instance>) -> (result: Result<Instance, ClientError>)
        ensures
            meets(result, reply_outcome(Operation::GetInstance, Document::InstanceDetails, reply)),
    {
        settle(Operation::GetInstance, Document::InstanceDetails, reply)
    }

    /// Check if a GPU type is available
    pub fn check_availability(
        reply: Reply<Vec<(String, InstanceTypeResponse)>>,
        gpu: &str,
    ) -> (result: Result<Vec<String>, ClientError>)
        ensures
            match (
                result,
                chained(
                    reply_outcome(Operation::GetInstanceType, Document::InstanceTypes, reply),
                    |entries: Vec<(String, InstanceTypeResponse)>|
                        availability(entries@, gpu@),
                ),
            ) {
                (Ok(regions), Ok(wanted)) => texts(regions@) == wanted,
                (Err(error), Err(failure)) => error@ == failure,
                _ => false,
            },
    {
        match Self::get_instance_type(reply, gpu) {
            Ok(found) => match found {
                Some(found) => Ok(names_of(&found.regions_with_capacity_available)),
                None => Err(
                    ClientError::Lambda(LambdaError::InstanceTypeNotFound(gpu.to_owned())),
                ),
            },
            Err(error) => Err(error),
        }
    }

    /// Resolve a pinned image id (accepted in any hyphenation/case) to its canonical
    /// id and the set of regions it is offered in. The region set may be empty if the
    /// API omitted region info for a valid id; only a total absence of the id is an
    /// error.
    pub fn resolve_image_id(reply: Reply<Vec<Image>>, id: &str) -> (result: Result<
        (String, Vec<String>),
        ClientError,
    >)
        ensures
            resolves(
                result,
                chained(
                    reply_outcome(Operation::ListImages, Document::Images, reply),
                    |images: Vec<Image>| resolved_id(images@, id@),
                ),
            ),
    {
        match Self::list_images(reply) {
            Ok(images) => find_image(&images, id),
            Err(error) => Err(error),
        }
    }

    /// Validate that an image family exists, erroring with the available families.
    pub fn validate_image_family(reply: Reply<Vec<Image>>, family: &str) -> (result: Result<
        (),
        ClientError,
    >)
        ensures
            meets(
                result,
                chained(
                    reply_outcome(Operation::ListImages, Document::Images, reply),
                    |images: Vec<Image>| checked_family(images@, family@),
                ),
            ),
    {
        match Self::list_images(reply) {
            Ok(images) => check_family(&images, family),
            Err(error) => Err(error),
        }
    }

    /// List all available base images (GET /images)
    pub fn list_images(reply: Reply<Vec<Image>>) -> (result: Result<Vec<Image>, ClientError>)
        ensures
            meets(result, reply_outcome(Operation::ListImages, Document::Images, reply)),
    {
        settle(Operation::ListImages, Document::Images, reply)
    }

    /// List all filesystems
    pub fn list_filesystems(reply: Reply<Vec<Filesystem>>) -> (result: Result<
        Vec<Filesystem>,
        ClientError,
    >)
        ensures
            meets(result, reply_outcome(Operation::ListFilesystems, Document::Filesystems, reply)),
    {
        settle(Operation::ListFilesystems, Document::Filesystems, reply)
    }

    /// Create a new filesystem
    pub fn create_filesystem(reply: Reply<Filesystem>) -> (result: Result<Filesystem, ClientError>)
        ensures
            meets(
                result,
                reply_outcome(Operation::CreateFilesystem, Document::NewFilesystem, reply),
            ),
    {
        settle(Operation::CreateFilesystem, Document::NewFilesystem, reply)
    }

    /// Delete a filesystem
    pub fn delete_filesystem(receipt: Receipt) -> (result: Result<(), ClientError>)
        ensures
            meets(result, receipt_outcome(Operation::DeleteFilesystem, receipt)),
    {
        acknowledge(Operation::DeleteFilesystem, receipt)
    }
}

/// Every instance type is listed exactly once, and they are sorted by name.
pub proof fn types_are_listed_by_name(entries: Seq<(String, InstanceTypeResponse)>)
    ensures
        lists(entry_places(entries), places(entries.len()), entry_order(entries)),
        forall|i: int, j: int|
            0 <= i < j < entry_places(entries).len() ==> !text_before(
                entries[#[trigger] entry_places(entries)[j]].0@,
                entries[#[trigger] entry_places(entries)[i]].0@,
            ),
{
    let before = entry_order(entries);
    let by_text = text_order();
    let all = Seq::new(entries.len(), |i: int| i);
    entry_order_is_strict(entries);
    text_order_is_total();
    assert forall|i: int, j: int| i == j || #[trigger] before(i, j) || before(j, i) by {
        let (a, b) = (entries[i].0@, entries[j].0@);
        assert(a == b || text_before(a, b) || text_before(b, a));
    }
    assert forall|i: int| #[trigger] places(entries.len()).contains(i) implies all.contains(i) by {
        assert(all[i] == i);
    }
    listing_exists(all, places(entries.len()), before);
    let listed = entry_places(entries);
    assert forall|i: int, j: int| 0 <= i < j < listed.len() implies !text_before(
        entries[#[trigger] listed[j]].0@,
        entries[#[trigger] listed[i]].0@,
    ) by {
        assert(before(listed[i], listed[j]));
        let (a, b) = (entries[listed[i]].0@, entries[listed[j]].0@);
        assert(!by_text(a, a));
        if by_text(b, a) && by_text(a, b) {
            assert(by_text(a, a));
        }
    }
}

/// No two entries have the same name.
pub open spec fn names_differ(entries: Seq<(String, InstanceTypeResponse)>) -> bool {
    forall|i: int, j: int|
        0 <= i < j < entries.len() ==> (#[trigger] entries[i]).0@ != (#[trigger] entries[j]).0@
}

/// The names of entries, in the order in which they are listed.
spec fn listed_names(entries: Seq<(String, InstanceTypeResponse)>) -> Seq<Seq<char>> {
    entry_places(entries).map_values(|i: int| entries[i].0@)
}

/// The names of entries.
spec fn entry_names(entries: Seq<(String, InstanceTypeResponse)>) -> Set<Seq<char>> {
    Set::new(|name: Seq<char>| exists|i: int| 0 <= i < entries.len() && (#[trigger] entries[i]).0@ == name)
}

proof fn distinct_names_are_listed(entries: Seq<(String, InstanceTypeResponse)>)
    requires
        names_differ(entries),
    ensures
        lists(listed_names(entries), entry_names(entries), text_order()),
{
    types_are_listed_by_name(entries);
    let listed = entry_places(entries);
    let names = listed_names(entries);
    let before = entry_order(entries);
    let by_text = text_order();
    assert forall|i: int, j: int| 0 <= i < j < names.len() implies by_text(
        #[trigger] names[i],
        #[trigger] names[j],
    ) by {
        assert(before(listed[i], listed[j]));
        assert(listed.contains(listed[i]) && listed.contains(listed[j]));
        assert(places(entries.len()).contains(listed[i]));
        assert(places(entries.len()).contains(listed[j]));
    }
    assert forall|name: Seq<char>| #[trigger]
        names.contains(name) <==> entry_names(entries).contains(name) by {
        if names.contains(name) {
            let i = choose|i: int| 0 <= i < names.len() && names[i] == name;
            assert(listed.contains(listed[i]));
            assert(places(entries.len()).contains(listed[i]));
            assert(entries[listed[i]].0@ == name);
        }
        if entry_names(entries).contains(name) {
            let i = choose|i: int| 0 <= i < entries.len() && (#[trigger] entries[i]).0@ == name;
            assert(places(entries.len()).contains(i));
            assert(listed.contains(i));
            let k = choose|k: int| 0 <= k < listed.len() && listed[k] == i;
            assert(names[k] == name);
        }
    }
}

proof fn names_within(
    a: Seq<(String, InstanceTypeResponse)>,
    b: Seq<(String, InstanceTypeResponse)>,
)
    requires
        forall|entry: (String, InstanceTypeResponse)| #[trigger]
            a.contains(entry) ==> b.contains(entry),
    ensures
        forall|name: Seq<char>| #[trigger]
            entry_names(a).contains(name) ==> entry_names(b).contains(name),
{
    assert forall|name: Seq<char>| #[trigger] entry_names(a).contains(name) implies entry_names(
        b,
    ).contains(name) by {
        let i = choose|i: int| 0 <= i < a.len() && (#[trigger] a[i]).0@ == name;
        assert(a.contains(a[i]));
        let j = choose|j: int| 0 <= j < b.len() && b[j] == a[i];
        assert(b[j].0@ == name);
    }
}

/// The list of instance types does not depend on the order in which they are
/// answered, as long as no two have the same name.
pub proof fn listing_ignores_answer_order(
    a: Seq<(String, InstanceTypeResponse)>,
    b: Seq<(String, InstanceTypeResponse)>,
)
    requires
        names_differ(a),
        names_differ(b),
        forall|entry: (String, InstanceTypeResponse)| #[trigger]
            a.contains(entry) <==> b.contains(entry),
    ensures
        entry_places(a).len() == entry_places(b).len(),
        forall|i: int|
            0 <= i < entry_places(a).len() ==> a[#[trigger] entry_places(a)[i]]
                == b[entry_places(b)[i]],
{
    assert forall|entry: (String, InstanceTypeResponse)| #[trigger] b.contains(
        entry,
    ) implies a.contains(entry) by {
        assert(a.contains(entry) <==> b.contains(entry));
    }
    names_within(a, b);
    names_within(b, a);
    assert(entry_names(a) =~= entry_names(b));
    distinct_names_are_listed(a);
    distinct_names_are_listed(b);
    text_order_is_total();
    listing_unique(listed_names(a), listed_names(b), entry_names(a), text_order());
    assert(listed_names(a).len() == entry_places(a).len());
    assert(listed_names(b).len() == entry_places(b).len());
    types_are_listed_by_name(a);
    types_are_listed_by_name(b);
    assert forall|i: int| 0 <= i < entry_places(a).len() implies a[#[trigger] entry_places(a)[i]]
        == b[entry_places(b)[i]] by {
        let (m, n) = (entry_places(a)[i], entry_places(b)[i]);
        assert(entry_places(a).contains(m) && entry_places(b).contains(n));
        assert(places(a.len()).contains(m) && places(b.len()).contains(n));
        assert(listed_names(a)[i] == a[m].0@ && listed_names(b)[i] == b[n].0@);
        assert(a.contains(a[m]));
        let j = choose|j: int| 0 <= j < b.len() && b[j] == a[m];
        assert(b[j].0@ == b[n].0@);
        assert(j == n);
    }
}

/// A look-up by name yields the first instance type of exactly that name, and nothing
/// where no type has it.
pub proof fn type_is_found_by_its_name(
    entries: Seq<(String, InstanceTypeResponse)>,
    name: Seq<char>,
)
    ensures
        forall|i: int|
            0 <= i < entries.len() && (#[trigger] entries[i]).0@ == name && (forall|j: int|
                0 <= j < i ==> (#[trigger] entries[j]).0@ != name) ==> named_type(entries, name)
                == Some(entries[i].1),
        (forall|i: int| 0 <= i < entries.len() ==> (#[trigger] entries[i]).0@ != name)
            ==> named_type(entries, name) is None,
    decreases entries.len(),
{
    if entries.len() > 0 && entries[0].0@ != name {
        let rest = entries.drop_first();
        type_is_found_by_its_name(rest, name);
        assert forall|i: int|
            0 <= i < entries.len() && (#[trigger] entries[i]).0@ == name && (forall|j: int|
                0 <= j < i ==> (#[trigger] entries[j]).0@ != name) implies named_type(entries, name)
            == Some(entries[i].1) by {
            assert(rest[i - 1] == entries[i]);
            assert forall|j: int| 0 <= j < i - 1 implies (#[trigger] rest[j]).0@ != name by {
                assert(rest[j] == entries[j + 1]);
            }
        }
        if forall|i: int| 0 <= i < entries.len() ==> (#[trigger] entries[i]).0@ != name {
            assert forall|i: int| 0 <= i < rest.len() implies (#[trigger] rest[i]).0@ != name by {
                assert(rest[i] == entries[i + 1]);
            }
        }
    }
}

/// The regions in which a GPU type is available are those that the first entry of exactly
/// that name lists, in its order. Without such an entry the type is not found.
pub proof fn availability_is_that_of_the_named_type(
    entries: Seq<(String, InstanceTypeResponse)>,
    gpu: Seq<char>,
)
    ensures
        forall|i: int|
            0 <= i < entries.len() && (#[trigger] entries[i]).0@ == gpu && (forall|j: int|
                0 <= j < i ==> (#[trigger] entries[j]).0@ != gpu) ==> {
                let regions = availability(entries, gpu)->Ok_0;
                let listed = entries[i].1.regions_with_capacity_available@;
                &&& availability(entries, gpu) is Ok
                &&& regions.len() == listed.len()
                &&& forall|k: int| 0 <= k < listed.len() ==> #[trigger] regions[k] == listed[k].name@
            },
        (forall|i: int| 0 <= i < entries.len() ==> (#[trigger] entries[i]).0@ != gpu)
            ==> availability(entries, gpu) == Err::<Seq<Seq<char>>, Failure>(
            Failure::Lambda(LambdaFailure::InstanceTypeNotFound(gpu)),
        ),
{
    type_is_found_by_its_name(entries, gpu);
}

/// The data holds what the API says of the instance type of the given name.
pub open spec fn data_says(
    data: InstanceTypeData,
    name: Seq<char>,
    response: InstanceTypeResponse,
) -> bool {
    &&& data.name@ == name
    &&& data.description@ == response.instance_type.description@
    &&& data.price_cents_per_hour == response.instance_type.price_cents_per_hour
    &&& data.vcpus == response.instance_type.specs.vcpus
    &&& data.memory_gib == response.instance_type.specs.memory_gib
    &&& data.storage_gib == response.instance_type.specs.storage_gib
    &&& data.regions_available@.len() == response.regions_with_capacity_available@.len()
    &&& forall|k: int|
        0 <= k < data.regions_available@.len() ==> (#[trigger] data.regions_available@[k])@
            == response.regions_with_capacity_available@[k].name@
}

/// Some entry of the answer says what the data holds.
pub open spec fn was_answered(
    data: InstanceTypeData,
    entries: Seq<(String, InstanceTypeResponse)>,
) -> bool {
    exists|k: int|
        0 <= k < entries.len() && data_says(data, (#[trigger] entries[k]).0@, entries[k].1)
}

/// Some data of the list holds what the entry says.
pub open spec fn is_told(
    entry: (String, InstanceTypeResponse),
    list: Seq<InstanceTypeData>,
) -> bool {
    exists|i: int| 0 <= i < list.len() && data_says(#[trigger] list[i], entry.0@, entry.1)
}

/// A list of instance types that is as expected holds as many as were answered, says of
/// each exactly what the API says of it, leaves none out, and is sorted by name.
pub proof fn listed_types_say_what_was_answered(
    list: Seq<InstanceTypeData>,
    entries: Seq<(String, InstanceTypeResponse)>,
)
    requires
        describes_all(list, entries, entry_places(entries)),
    ensures
        list.len() == entries.len(),
        forall|i: int| 0 <= i < list.len() ==> was_answered(#[trigger] list[i], entries),
        forall|k: int| 0 <= k < entries.len() ==> is_told(#[trigger] entries[k], list),
        forall|i: int, j: int|
            0 <= i < j < list.len() ==> !text_before(
                (#[trigger] list[j]).name@,
                (#[trigger] list[i]).name@,
            ),
{
    types_are_listed_by_name(entries);
    entry_order_is_strict(entries);
    let listed = entry_places(entries);
    places_are_all(entries);
    assert forall|i: int| 0 <= i < list.len() implies 0 <= listed[i] < entries.len() && data_says(
        #[trigger] list[i],
        entries[listed[i]].0@,
        entries[listed[i]].1,
    ) by {
        assert(listed.contains(listed[i]));
        assert(places(entries.len()).contains(listed[i]));
        let entry = entries[listed[i]];
        let data = list[i];
        assert(describes(data, entry));
        let names = texts(data.regions_available@);
        assert(names.len() == data.regions_available@.len());
        assert forall|k: int| 0 <= k < data.regions_available@.len() implies (
        #[trigger] data.regions_available@[k])@
            == entry.1.regions_with_capacity_available@[k].name@ by {
            assert(names[k] == data.regions_available@[k]@);
        }
    }
    assert forall|i: int| 0 <= i < list.len() implies was_answered(#[trigger] list[i], entries) by {
        let k = listed[i];
        assert(data_says(list[i], entries[k].0@, entries[k].1));
    }
    assert forall|k: int| 0 <= k < entries.len() implies is_told(#[trigger] entries[k], list) by {
        assert(places(entries.len()).contains(k));
        assert(listed.contains(k));
        let i = choose|i: int| 0 <= i < listed.len() && listed[i] == k;
        assert(data_says(list[i], entries[k].0@, entries[k].1));
    }
    assert forall|i: int, j: int| 0 <= i < j < list.len() implies !text_before(
        (#[trigger] list[j]).name@,
        (#[trigger] list[i]).name@,
    ) by {
        assert(describes(list[i], entries[listed[i]]) && describes(list[j], entries[listed[j]]));
    }
}

proof fn places_are_all(entries: Seq<(String, InstanceTypeResponse)>)
    ensures
        entry_places(entries).len() == entries.len(),
{
    types_are_listed_by_name(entries);
    entry_order_is_strict(entries);
    let listed = entry_places(entries);
    let before = entry_order(entries);
    assert(listed.no_duplicates()) by {
        assert forall|i: int, j: int|
            0 <= i < listed.len() && 0 <= j < listed.len() && i != j implies listed[i]
            != listed[j] by {
            if i < j {
                assert(before(listed[i], listed[j]));
            } else {
                assert(before(listed[j], listed[i]));
            }
        }
    }
    listed.unique_seq_to_set();
    let all = Seq::new(entries.len(), |i: int| i);
    assert(all.no_duplicates());
    all.unique_seq_to_set();
    assert forall|i: int| #[trigger] listed.to_set().contains(i) <==> all.to_set().contains(i) by {
        assert(listed.contains(i) <==> places(entries.len()).contains(i));
        if 0 <= i < entries.len() {
            assert(all[i] == i);
        }
    }
    assert(listed.to_set() =~= all.to_set());
}

} // verus!
