//! Launching an instance: which requests are made, and in which region.
//!
//! A launch asks for the instance types, for the images where one is requested,
//! and then submits the launch request. Each reply is an event that leads to the
//! next action.

use crate::calls::{availability, chained, named_type};
use crate::client::LambdaClient;
use crate::error::{ClientError, Document, Failure, LambdaError, LambdaFailure, Operation};
use crate::http::{ApiRequest, Method};
use crate::image::{checked_family, resolved_id, ImageRef};
use crate::json::{json_content, json_number, json_object, json_set, json_single, json_text, Json};
use crate::reply::{reply_outcome, settle, Reply};
use crate::request::{asks, asks_at, body_request, instance_types_request, list_images_request};
use crate::text::{contains_text, opt_str, opt_text, texts};
use crate::types::{Image, InstanceTypeResponse, LaunchResponse, LaunchResult};
use vstd::prelude::*;

verus! {

/// What is to be launched.
#[derive(Debug, Clone, Copy)]
pub struct LaunchOrder<'a> {
    pub gpu: &'a str,
    pub ssh_key: &'a str,
    pub name: Option<&'a str>,
    pub region: Option<&'a str>,
    pub image: Option<ImageRef<'a>>,
    pub filesystem: Option<&'a str>,
}

/// How far a launch has come.
#[derive(Debug)]
enum LaunchStage {
    /// The instance types are asked for.
    Types,
    /// The images are asked for. The regions with capacity are known.
    Images(Vec<String>),
    /// The launch in the given region is requested.
    Submitted(String),
    /// The launch is over.
    Over,
}

/// A launch under way.
#[derive(Debug)]
pub struct Launch<'a> {
    order: LaunchOrder<'a>,
    stage: LaunchStage,
}

/// What came of the request that a launch made.
#[derive(Debug)]
pub enum LaunchEvent {
    Types(Reply<Vec<(String, InstanceTypeResponse)>>),
    Images(Reply<Vec<Image>>),
    Launched(Reply<LaunchResponse>),
}

/// What a launch does next.
#[derive(Debug)]
pub enum LaunchAction {
    FetchTypes(ApiRequest),
    FetchImages(ApiRequest),
    Submit(ApiRequest),
    Finish(Result<LaunchResult, ClientError>),
}

/// How far a launch has come, as texts.
pub enum Stage {
    Types,
    Images(Seq<Seq<char>>),
    Submitted(Seq<char>),
    Over,
}

impl View for LaunchStage {
    type V = Stage;

    closed spec fn view(&self) -> Stage {
        match *self {
            LaunchStage::Types => Stage::Types,
            LaunchStage::Images(capacity) => Stage::Images(texts(capacity@)),
            LaunchStage::Submitted(region) => Stage::Submitted(region@),
            LaunchStage::Over => Stage::Over,
        }
    }
}

/// What a launch does next: which document it submits, or which instance it ends
/// with in which region.
pub enum Act {
    FetchTypes,
    FetchImages,
    Submit(Json),
    Finish(Result<(Seq<char>, Seq<char>), Failure>),
}

/// The action is the expected one.
pub open spec fn acts(action: LaunchAction, expected: Act) -> bool {
    match (action, expected) {
        (LaunchAction::FetchTypes(request), Act::FetchTypes) => asks(
            request,
            Method::Get,
            "/instance-types"@,
            None,
        ),
        (LaunchAction::FetchImages(request), Act::FetchImages) => asks(
            request,
            Method::Get,
            "/images"@,
            None,
        ),
        (LaunchAction::Submit(request), Act::Submit(document)) => asks(
            request,
            Method::Post,
            "/instance-operations/launch"@,
            Some(document),
        ),
        (LaunchAction::Finish(result), Act::Finish(wanted)) => match (result, wanted) {
            (Ok(launched), Ok(pair)) => launched.instance_id@ == pair.0 && launched.region@
                == pair.1,
            (Err(error), Err(failure)) => error@ == failure,
            _ => false,
        },
        _ => false,
    }
}

/// The event belongs to the request that the launch made last.
pub open spec fn awaits(stage: Stage, event: LaunchEvent) -> bool {
    match stage {
        Stage::Types => event is Types,
        Stage::Images(_) => event is Images,
        Stage::Submitted(_) => event is Launched,
        Stage::Over => false,
    }
}

/// The first region with capacity in which the image is offered.
pub open spec fn first_shared(capacity: Seq<Seq<char>>, offered: Seq<Seq<char>>) -> Option<
    Seq<char>,
>
    decreases capacity.len(),
{
    if capacity.len() == 0 {
        None
    } else if offered.contains(capacity[0]) {
        Some(capacity[0])
    } else {
        first_shared(capacity.drop_first(), offered)
    }
}

/// The region to launch in. A requested region needs capacity and, where the image
/// is tied to regions, has to be one of those. Without a request it is the first
/// region with capacity that the image allows.
pub open spec fn picked_region(
    gpu: Seq<char>,
    region: Option<Seq<char>>,
    capacity: Seq<Seq<char>>,
    offered: Option<Seq<Seq<char>>>,
) -> Result<Seq<char>, Failure> {
    match region {
        Some(region) => if !capacity.contains(region) {
            Err(Failure::RegionUnavailable { region, gpu, available: capacity })
        } else if offered is Some && !offered->0.contains(region) {
            Err(Failure::RegionWithoutImage { region, offered: offered->0 })
        } else {
            Ok(region)
        },
        None => match offered {
            Some(offered) => match first_shared(capacity, offered) {
                Some(region) => Ok(region),
                None => Err(Failure::NoCapacityForImage { offered, gpu }),
            },
            None => if capacity.len() > 0 {
                Ok(capacity[0])
            } else {
                Err(Failure::Lambda(LambdaFailure::NoRegionsAvailable(gpu)))
            },
        },
    }
}

/// The `image` object of a launch request, and the regions that it ties the launch
/// to. An id is given as the API writes it and ties the launch to the regions in
/// which it is offered, where they are known. A family ties it to none.
pub open spec fn chosen_image(images: Seq<Image>, image: ImageRef) -> Result<
    (Json, Option<Seq<Seq<char>>>),
    Failure,
> {
    match image {
        ImageRef::Id(id) => match resolved_id(images, id@) {
            Ok((own_id, regions)) => Ok(
                (
                    Json::Object(Map::empty().insert("id"@, Json::Text(own_id))),
                    if regions.len() > 0 {
                        Some(regions)
                    } else {
                        None
                    },
                ),
            ),
            Err(failure) => Err(failure),
        },
        ImageRef::Family(family) => match checked_family(images, family@) {
            Ok(_) => Ok(
                (Json::Object(Map::empty().insert("family"@, Json::Text(family@))), None),
            ),
            Err(failure) => Err(failure),
        },
    }
}

/// A member that an object only has where its value is given.
pub open spec fn with_member(
    members: Map<Seq<char>, Json>,
    name: Seq<char>,
    value: Option<Json>,
) -> Map<Seq<char>, Json> {
    match value {
        Some(value) => members.insert(name, value),
        None => members,
    }
}

/// The document that a launch in a region is requested with.
pub open spec fn launch_document(
    order: LaunchOrder,
    region: Seq<char>,
    image: Option<Json>,
) -> Json {
    let required = Map::empty().insert("region_name"@, Json::Text(region)).insert(
        "instance_type_name"@,
        Json::Text(order.gpu@),
    ).insert("ssh_key_names"@, Json::List(seq![Json::Text(order.ssh_key@)])).insert(
        "quantity"@,
        Json::Number(1),
    );
    let name = match order.name {
        Some(name) => Some(Json::Text(name@)),
        None => None,
    };
    let filesystem = match order.filesystem {
        Some(filesystem) => Some(Json::List(seq![Json::Text(filesystem@)])),
        None => None,
    };
    Json::Object(
        with_member(
            with_member(with_member(required, "name"@, name), "image"@, image),
            "file_system_names"@,
            filesystem,
        ),
    )
}

/// What follows once the image is settled: the launch is submitted where a region
/// can be picked.
pub open spec fn submission(
    order: LaunchOrder,
    capacity: Seq<Seq<char>>,
    image: Option<Json>,
    offered: Option<Seq<Seq<char>>>,
) -> (Stage, Act) {
    match picked_region(order.gpu@, opt_str(order.region), capacity, offered) {
        Ok(region) => (
            Stage::Submitted(region),
            Act::Submit(launch_document(order, region, image)),
        ),
        Err(failure) => (Stage::Over, Act::Finish(Err(failure))),
    }
}

/// What a launch does on an event that belongs to its last request.
pub open spec fn next(order: LaunchOrder, stage: Stage, event: LaunchEvent) -> (Stage, Act) {
    match (stage, event) {
        (Stage::Types, LaunchEvent::Types(reply)) => match chained(
            reply_outcome(Operation::GetInstanceType, Document::InstanceTypes, reply),
            |entries: Vec<(String, InstanceTypeResponse)>| availability(entries@, order.gpu@),
        ) {
            Ok(capacity) => match order.image {
                Some(_) => (Stage::Images(capacity), Act::FetchImages),
                None => submission(order, capacity, None, None),
            },
            Err(failure) => (Stage::Over, Act::Finish(Err(failure))),
        },
        (Stage::Images(capacity), LaunchEvent::Images(reply)) => match order.image {
            Some(image) => match chained(
                reply_outcome(Operation::ListImages, Document::Images, reply),
                |images: Vec<Image>| chosen_image(images@, image),
            ) {
                Ok((document, offered)) => submission(order, capacity, Some(document), offered),
                Err(failure) => (Stage::Over, Act::Finish(Err(failure))),
            },
            None => submission(order, capacity, None, None),
        },
        (Stage::Submitted(region), LaunchEvent::Launched(reply)) => (
            Stage::Over,
            Act::Finish(
                match reply_outcome(Operation::Launch, Document::Launch, reply) {
                    Ok(response) => if response.instance_ids@.len() > 0 {
                        Ok((response.instance_ids@[0]@, region))
                    } else {
                        Err(Failure::Lambda(LambdaFailure::NoInstanceIds))
                    },
                    Err(failure) => Err(failure),
                },
            ),
        ),
        _ => arbitrary(),
    }
}

/// The first region with capacity in which the image is offered.
fn first_offered(capacity: &Vec<String>, offered: &Vec<String>) -> (region: Option<String>)
    ensures
        opt_text(region) == first_shared(texts(capacity@), texts(offered@)),
{
    let ghost all = texts(capacity@);
    let mut at: usize = 0;
    assert(all.skip(0) =~= all);
    while at < capacity.len()
        invariant
            at <= capacity.len(),
            all == texts(capacity@),
            first_shared(all, texts(offered@)) == first_shared(
                all.skip(at as int),
                texts(offered@),
            ),
        decreases capacity.len() - at,
    {
        let ghost rest = all.skip(at as int);
        assert(rest[0] == capacity@[at as int]@);
        if contains_text(offered, capacity[at].as_str()) {
            return Some(capacity[at].clone());
        }
        assert(rest.drop_first() =~= all.skip(at + 1));
        at = at + 1;
    }
    None
}

/// The region to launch in.
pub fn pick_region(
    gpu: &str,
    region: Option<&str>,
    capacity: Vec<String>,
    offered: Option<Vec<String>>,
) -> (result: Result<String, ClientError>)
    ensures
        match (
            result,
            picked_region(
                gpu@,
                opt_str(region),
                texts(capacity@),
                match offered {
                    Some(offered) => Some(texts(offered@)),
                    None => None,
                },
            ),
        ) {
            (Ok(picked), Ok(wanted)) => picked@ == wanted,
            (Err(error), Err(failure)) => error@ == failure,
            _ => false,
        },
{
    match region {
        Some(region) => {
            if !contains_text(&capacity, region) {
                return Err(
                    ClientError::RegionUnavailable {
                        region: region.to_owned(),
                        gpu: gpu.to_owned(),
                        available: capacity,
                    },
                );
            }
            if let Some(offered) = offered {
                if !contains_text(&offered, region) {
                    return Err(
                        ClientError::RegionWithoutImage { region: region.to_owned(), offered },
                    );
                }
            }
            Ok(region.to_owned())
        },
        None => match offered {
            Some(offered) => match first_offered(&capacity, &offered) {
                Some(region) => Ok(region),
                None => Err(ClientError::NoCapacityForImage { offered, gpu: gpu.to_owned() }),
            },
            None => {
                if capacity.len() > 0 {
                    assert(texts(capacity@)[0] == capacity@[0]@);
                    Ok(capacity[0].clone())
                } else {
                    Err(ClientError::Lambda(LambdaError::NoRegionsAvailable(gpu.to_owned())))
                }
            },
        },
    }
}

/// The document that a launch in a region is requested with.
pub fn launch_payload(
    order: LaunchOrder<'_>,
    region: &str,
    image: Option<serde_json::Value>,
) -> (payload: serde_json::Value)
    ensures
        json_content(payload) == launch_document(
            order,
            region@,
            match image {
                Some(image) => Some(json_content(image)),
                None => None,
            },
        ),
{
    let mut payload = json_object();
    json_set(&mut payload, "region_name", json_text(region));
    json_set(&mut payload, "instance_type_name", json_text(order.gpu));
    json_set(&mut payload, "ssh_key_names", json_single(order.ssh_key));
    json_set(&mut payload, "quantity", json_number(1));
    if let Some(name) = order.name {
        json_set(&mut payload, "name", json_text(name));
    }
    if let Some(image) = image {
        json_set(&mut payload, "image", image);
    }
    if let Some(filesystem) = order.filesystem {
        json_set(&mut payload, "file_system_names", json_single(filesystem));
    }
    payload
}

/// The `image` object of a launch request, and the regions that it ties the launch to.
pub fn choose_image(reply: Reply<Vec<Image>>, image: ImageRef<'_>) -> (result: Result<
    (serde_json::Value, Option<Vec<String>>),
    ClientError,
>)
    ensures
        match (
            result,
            chained(
                reply_outcome(Operation::ListImages, Document::Images, reply),
                |images: Vec<Image>| chosen_image(images@, image),
            ),
        ) {
            (Ok((value, offered)), Ok((document, wanted))) => json_content(value) == document && (
            match (offered, wanted) {
                (Some(regions), Some(listed)) => texts(regions@) == listed,
                (None, None) => true,
                _ => false,
            }),
            (Err(error), Err(failure)) => error@ == failure,
            _ => false,
        },
{
    match image {
        ImageRef::Id(id) => match LambdaClient::resolve_image_id(reply, id) {
            Ok((own_id, regions)) => {
                let mut object = json_object();
                json_set(&mut object, "id", json_text(own_id.as_str()));
                if regions.len() > 0 {
                    Ok((object, Some(regions)))
                } else {
                    Ok((object, None))
                }
            },
            Err(error) => Err(error),
        },
        ImageRef::Family(family) => match LambdaClient::validate_image_family(reply, family) {
            Ok(_) => {
                let mut object = json_object();
                json_set(&mut object, "family", json_text(family));
                Ok((object, None))
            },
            Err(error) => Err(error),
        },
    }
}

impl LambdaClient {
    /// Launch a new instance
    pub fn launch_instance<'a>(
        gpu: &'a str,
        ssh_key: &'a str,
        name: Option<&'a str>,
        region: Option<&'a str>,
    ) -> (started: (Launch<'a>, LaunchAction))
        ensures
            started.0.order() == (LaunchOrder {
                gpu,
                ssh_key,
                name,
                region,
                image: None,
                filesystem: None,
            }),
            started.0.stage() == Stage::Types,
            acts(started.1, Act::FetchTypes),
    {
        Self::launch_instance_with_filesystem(gpu, ssh_key, name, region, None, None)
    }

    /// Launch a new instance with optional filesystem attachment
    pub fn launch_instance_with_filesystem<'a>(
        gpu: &'a str,
        ssh_key: &'a str,
        name: Option<&'a str>,
        region: Option<&'a str>,
        image: Option<ImageRef<'a>>,
        filesystem: Option<&'a str>,
    ) -> (started: (Launch<'a>, LaunchAction))
        ensures
            started.0.order() == (LaunchOrder { gpu, ssh_key, name, region, image, filesystem }),
            started.0.stage() == Stage::Types,
            acts(started.1, Act::FetchTypes),
    {
        let order = LaunchOrder { gpu, ssh_key, name, region, image, filesystem };
        (
            Launch { order, stage: LaunchStage::Types },
            LaunchAction::FetchTypes(instance_types_request()),
        )
    }
}

impl<'a> Launch<'a> {
    /// What is to be launched.
    pub closed spec fn order(self) -> LaunchOrder<'a> {
        self.order
    }

    /// How far the launch has come.
    pub closed spec fn stage(self) -> Stage {
        self.stage@
    }

    /// What the launch does once it knows what came of its last request.
    pub fn step(self, event: LaunchEvent) -> (next_step: (Launch<'a>, LaunchAction))
        requires
            awaits(self.stage(), event),
        ensures
            next_step.0.order() == self.order(),
            next_step.0.stage() == next(self.order(), self.stage(), event).0,
            acts(next_step.1, next(self.order(), self.stage(), event).1),
    {
        let order = self.order;
        match (self.stage, event) {
            (LaunchStage::Types, LaunchEvent::Types(reply)) => {
                match LambdaClient::check_availability(reply, order.gpu) {
                    Ok(capacity) => match order.image {
                        Some(_) => (
                            Launch { order, stage: LaunchStage::Images(capacity) },
                            LaunchAction::FetchImages(list_images_request()),
                        ),
                        None => Self::submit(order, capacity, None, None),
                    },
                    Err(error) => Self::finish(order, Err(error)),
                }
            },
            (LaunchStage::Images(capacity), LaunchEvent::Images(reply)) => {
                match order.image {
                    Some(image) => match choose_image(reply, image) {
                        Ok((object, offered)) => Self::submit(
                            order,
                            capacity,
                            Some(object),
                            offered,
                        ),
                        Err(error) => Self::finish(order, Err(error)),
                    },
                    None => Self::submit(order, capacity, None, None),
                }
            },
            (LaunchStage::Submitted(region), LaunchEvent::Launched(reply)) => {
                let result = match settle(Operation::Launch, Document::Launch, reply) {
                    Ok(response) => {
                        if response.instance_ids.len() > 0 {
                            Ok(
                                LaunchResult {
                                    instance_id: response.instance_ids[0].clone(),
                                    region,
                                },
                            )
                        } else {
                            Err(ClientError::Lambda(LambdaError::NoInstanceIds))
                        }
                    },
                    Err(error) => Err(error),
                };
                Self::finish(order, result)
            },
            _ => {
                assert(false);
                Self::finish(order, Err(ClientError::Lambda(LambdaError::NoInstanceIds)))
            },
        }
    }

    fn finish(order: LaunchOrder<'a>, result: Result<LaunchResult, ClientError>) -> (end: (
        Launch<'a>,
        LaunchAction,
    ))
        ensures
            end.0.order() == order,
            end.0.stage() == Stage::Over,
            end.1 == LaunchAction::Finish(result),
    {
        (Launch { order, stage: LaunchStage::Over }, LaunchAction::Finish(result))
    }

    fn submit(
        order: LaunchOrder<'a>,
        capacity: Vec<String>,
        image: Option<serde_json::Value>,
        offered: Option<Vec<String>>,
    ) -> (next_step: (Launch<'a>, LaunchAction))
        ensures
            next_step.0.order() == order,
            ({
                let expected = submission(
                    order,
                    texts(capacity@),
                    match image {
                        Some(image) => Some(json_content(image)),
                        None => None,
                    },
                    match offered {
                        Some(offered) => Some(texts(offered@)),
                        None => None,
                    },
                );
                next_step.0.stage() == expected.0 && acts(next_step.1, expected.1)
            }),
    {
        match pick_region(order.gpu, order.region, capacity, offered) {
            Ok(region) => {
                let payload = launch_payload(order, region.as_str(), image);
                let request = body_request(Method::Post, "/instance-operations/launch", payload);
                (
                    Launch { order, stage: LaunchStage::Submitted(region) },
                    LaunchAction::Submit(request),
                )
            },
            Err(error) => Self::finish(order, Err(error)),
        }
    }
}

/// What is submitted and what comes of a whole launch, given what comes of each
/// request that it may make.
pub open spec fn launch_run(
    order: LaunchOrder,
    types: Reply<Vec<(String, InstanceTypeResponse)>>,
    images: Reply<Vec<Image>>,
    launched: Reply<LaunchResponse>,
) -> (Option<Json>, Result<(Seq<char>, Seq<char>), Failure>) {
    let (first_stage, first_act) = next(order, Stage::Types, LaunchEvent::Types(types));
    let (stage, act) = if first_act is FetchImages {
        next(order, first_stage, LaunchEvent::Images(images))
    } else {
        (first_stage, first_act)
    };
    match act {
        Act::Submit(document) => (
            Some(document),
            next(order, stage, LaunchEvent::Launched(launched)).1->Finish_0,
        ),
        Act::Finish(result) => (None, result),
        _ => arbitrary(),
    }
}

/// A launch makes at most three requests, each of which awaits the reply that it
/// gets, and then ends.
pub proof fn launch_ends(
    order: LaunchOrder,
    types: Reply<Vec<(String, InstanceTypeResponse)>>,
    images: Reply<Vec<Image>>,
    launched: Reply<LaunchResponse>,
)
    ensures
        ({
            let (first_stage, first_act) = next(order, Stage::Types, LaunchEvent::Types(types));
            let (stage, act) = if first_act is FetchImages {
                next(order, first_stage, LaunchEvent::Images(images))
            } else {
                (first_stage, first_act)
            };
            let (end, last_act) = next(order, stage, LaunchEvent::Launched(launched));
            &&& first_act is FetchImages ==> order.image is Some && awaits(
                first_stage,
                LaunchEvent::Images(images),
            )
            &&& act is Finish || act is Submit
            &&& act is Finish ==> stage is Over
            &&& act is Submit ==> awaits(stage, LaunchEvent::Launched(launched))
                && last_act is Finish && end is Over
        }),
{
}

/// A launch that succeeds has submitted a request for the region that it reports,
/// and reports the first instance that the API launched.
pub proof fn launched_as_submitted(
    order: LaunchOrder,
    types: Reply<Vec<(String, InstanceTypeResponse)>>,
    images: Reply<Vec<Image>>,
    launched: Reply<LaunchResponse>,
)
    requires
        launch_run(order, types, images, launched).1 is Ok,
    ensures
        ({
            let (submitted, result) = launch_run(order, types, images, launched);
            let (instance_id, region) = result->Ok_0;
            let members = submitted->0->Object_0;
            &&& submitted is Some && submitted->0 is Object
            &&& members["region_name"@] == Json::Text(region)
            &&& members["instance_type_name"@] == Json::Text(order.gpu@)
            &&& members["ssh_key_names"@] == Json::List(seq![Json::Text(order.ssh_key@)])
            &&& members["quantity"@] == Json::Number(1)
            &&& launched is Answered
            &&& launched->Answered_0.data.instance_ids@.len() > 0
            &&& instance_id == launched->Answered_0.data.instance_ids@[0]@
        }),
{
    member_names_differ();
}

/// The optional members of a launch request are there exactly where they are given.
pub proof fn optional_members(order: LaunchOrder, region: Seq<char>, image: Option<Json>)
    ensures
        ({
            let members = launch_document(order, region, image)->Object_0;
            &&& members.contains_key("name"@) == order.name is Some
            &&& order.name is Some ==> members["name"@] == Json::Text(order.name->0@)
            &&& members.contains_key("image"@) == image is Some
            &&& image is Some ==> members["image"@] == image->0
            &&& members.contains_key("file_system_names"@) == order.filesystem is Some
            &&& order.filesystem is Some ==> members["file_system_names"@] == Json::List(
                seq![Json::Text(order.filesystem->0@)],
            )
        }),
{
    member_names_differ();
}

proof fn member_names_differ()
    ensures
        "region_name"@ != "instance_type_name"@,
        "region_name"@ != "ssh_key_names"@,
        "region_name"@ != "quantity"@,
        "region_name"@ != "name"@,
        "region_name"@ != "image"@,
        "region_name"@ != "file_system_names"@,
        "instance_type_name"@ != "ssh_key_names"@,
        "instance_type_name"@ != "quantity"@,
        "instance_type_name"@ != "name"@,
        "instance_type_name"@ != "image"@,
        "instance_type_name"@ != "file_system_names"@,
        "ssh_key_names"@ != "quantity"@,
        "ssh_key_names"@ != "name"@,
        "ssh_key_names"@ != "image"@,
        "ssh_key_names"@ != "file_system_names"@,
        "quantity"@ != "name"@,
        "quantity"@ != "image"@,
        "quantity"@ != "file_system_names"@,
        "name"@ != "image"@,
        "name"@ != "file_system_names"@,
        "image"@ != "file_system_names"@,
{
    reveal_strlit("region_name");
    reveal_strlit("instance_type_name");
    reveal_strlit("ssh_key_names");
    reveal_strlit("quantity");
    reveal_strlit("name");
    reveal_strlit("image");
    reveal_strlit("file_system_names");
    assert("region_name"@.len() == 11 && "instance_type_name"@.len() == 18);
    assert("ssh_key_names"@.len() == 13 && "quantity"@.len() == 8 && "name"@.len() == 4);
    assert("image"@.len() == 5 && "file_system_names"@.len() == 17);
}

/// The region that is picked has capacity, is the requested one where one is
/// requested, and offers the image where the image is tied to regions.
pub proof fn picked_region_fits(
    gpu: Seq<char>,
    region: Option<Seq<char>>,
    capacity: Seq<Seq<char>>,
    offered: Option<Seq<Seq<char>>>,
)
    requires
        picked_region(gpu, region, capacity, offered) is Ok,
    ensures
        ({
            let picked = picked_region(gpu, region, capacity, offered)->Ok_0;
            &&& capacity.contains(picked)
            &&& region is Some ==> picked == region->0
            &&& offered is Some ==> offered->0.contains(picked)
        }),
{
    if region is None && offered is Some {
        first_shared_is_shared(capacity, offered->0);
    }
}

/// A region is picked whenever one fits.
pub proof fn fitting_region_is_picked(
    gpu: Seq<char>,
    region: Option<Seq<char>>,
    capacity: Seq<Seq<char>>,
    offered: Option<Seq<Seq<char>>>,
    fitting: Seq<char>,
)
    requires
        capacity.contains(fitting),
        region is Some ==> region->0 == fitting,
        offered is Some ==> offered->0.contains(fitting),
    ensures
        picked_region(gpu, region, capacity, offered) is Ok,
{
    if region is None && offered is Some {
        shared_is_found(capacity, offered->0, fitting);
    }
}

proof fn first_shared_is_shared(capacity: Seq<Seq<char>>, offered: Seq<Seq<char>>)
    ensures
        first_shared(capacity, offered) is Some ==> capacity.contains(
            first_shared(capacity, offered)->0,
        ) && offered.contains(first_shared(capacity, offered)->0),
    decreases capacity.len(),
{
    if capacity.len() > 0 {
        let rest = capacity.drop_first();
        first_shared_is_shared(rest, offered);
        if offered.contains(capacity[0]) {
            assert(capacity.contains(capacity[0]));
        } else if first_shared(rest, offered) is Some {
            let i = choose|i: int|
                0 <= i < rest.len() && rest[i] == first_shared(rest, offered)->0;
            assert(capacity[i + 1] == rest[i]);
        }
    }
}

proof fn shared_is_found(capacity: Seq<Seq<char>>, offered: Seq<Seq<char>>, region: Seq<char>)
    requires
        capacity.contains(region),
        offered.contains(region),
    ensures
        first_shared(capacity, offered) is Some,
    decreases capacity.len(),
{
    let i = choose|i: int| 0 <= i < capacity.len() && capacity[i] == region;
    if !offered.contains(capacity[0]) {
        assert(capacity.drop_first()[i - 1] == region);
        shared_is_found(capacity.drop_first(), offered, region);
    }
}

/// The same order without an image.
pub open spec fn without_image(order: LaunchOrder) -> LaunchOrder {
    LaunchOrder { image: None, ..order }
}

/// A family is region-agnostic: once it is known to exist, the launch goes to the
/// region in which it would go without any image, and comes to the same result. What
/// is submitted differs by the member `image` alone, which names the family.
pub proof fn family_is_region_agnostic(
    order: LaunchOrder,
    family: &str,
    types: Reply<Vec<(String, InstanceTypeResponse)>>,
    images: Reply<Vec<Image>>,
    launched: Reply<LaunchResponse>,
)
    requires
        order.image == Some(ImageRef::Family(family)),
        images is Answered,
        checked_family(images->Answered_0.data@, family@) is Ok,
    ensures
        ({
            let (document, result) = launch_run(order, types, images, launched);
            let (plain, plain_result) = launch_run(
                without_image(order),
                types,
                images,
                launched,
            );
            &&& result == plain_result
            &&& document is Some <==> plain is Some
            &&& document is Some ==> {
                &&& document->0 is Object && plain->0 is Object
                &&& !plain->0->Object_0.contains_key("image"@)
                &&& document->0->Object_0 == plain->0->Object_0.insert(
                    "image"@,
                    Json::Object(Map::empty().insert("family"@, Json::Text(family@))),
                )
            }
        }),
{
    member_names_differ();
    let image = Json::Object(Map::empty().insert("family"@, Json::Text(family@)));
    let bare = without_image(order);
    let capacity = availability(types->Answered_0.data@, order.gpu@);
    if types is Answered && capacity is Ok {
        let picked = picked_region(order.gpu@, opt_str(order.region), capacity->Ok_0, None);
        assert(submission(order, capacity->Ok_0, Some(image), None).0 == submission(
            bare,
            capacity->Ok_0,
            None,
            None,
        ).0);
        if picked is Ok {
            image_is_one_more_member(order, picked->Ok_0, image);
        }
    }
}

proof fn image_is_one_more_member(order: LaunchOrder, region: Seq<char>, image: Json)
    ensures
        ({
            let plain = launch_document(without_image(order), region, None)->Object_0;
            &&& !plain.contains_key("image"@)
            &&& launch_document(order, region, Some(image))->Object_0 == plain.insert(
                "image"@,
                image,
            )
        }),
{
    member_names_differ();
    let plain = launch_document(without_image(order), region, None)->Object_0;
    assert(launch_document(order, region, Some(image))->Object_0 =~= plain.insert(
        "image"@,
        image,
    ));
}

/// A launch that pins an image id goes to a region in which that image is offered,
/// where the API says in which it is.
pub proof fn pinned_image_ties_region(
    order: LaunchOrder,
    id: &str,
    types: Reply<Vec<(String, InstanceTypeResponse)>>,
    images: Reply<Vec<Image>>,
    launched: Reply<LaunchResponse>,
)
    requires
        order.image == Some(ImageRef::Id(id)),
        launch_run(order, types, images, launched).1 is Ok,
    ensures
        images is Answered,
        resolved_id(images->Answered_0.data@, id@) is Ok,
        ({
            let region = launch_run(order, types, images, launched).1->Ok_0.1;
            let regions = resolved_id(images->Answered_0.data@, id@)->Ok_0.1;
            regions.len() > 0 ==> regions.contains(region)
        }),
{
    let entries = types->Answered_0.data@;
    let capacity = availability(entries, order.gpu@)->Ok_0;
    let offered = chosen_image(images->Answered_0.data@, ImageRef::Id(id))->Ok_0.1;
    picked_region_fits(order.gpu@, opt_str(order.region), capacity, offered);
}

/// A launch is only submitted for an instance type that exists, in a region that has
/// capacity for it and that is the requested one where one is requested.
pub proof fn submitted_where_capacity_is(
    order: LaunchOrder,
    types: Reply<Vec<(String, InstanceTypeResponse)>>,
    images: Reply<Vec<Image>>,
    launched: Reply<LaunchResponse>,
)
    requires
        launch_run(order, types, images, launched).0 is Some,
    ensures
        types is Answered,
        availability(types->Answered_0.data@, order.gpu@) is Ok,
        ({
            let document = launch_run(order, types, images, launched).0->0;
            let capacity = availability(types->Answered_0.data@, order.gpu@)->Ok_0;
            exists|region: Seq<char>| #[trigger]
                capacity.contains(region) && document->Object_0["region_name"@] == Json::Text(
                    region,
                ) && (order.region is Some ==> region == order.region->0@)
        }),
{
    member_names_differ();
    let capacity = availability(types->Answered_0.data@, order.gpu@)->Ok_0;
    let wanted = opt_str(order.region);
    let offered = match order.image {
        Some(image) => chosen_image(images->Answered_0.data@, image)->Ok_0.1,
        None => None,
    };
    picked_region_fits(order.gpu@, wanted, capacity, offered);
    let region = picked_region(order.gpu@, wanted, capacity, offered)->Ok_0;
    assert(capacity.contains(region));
}

/// A launch of an instance type that there is not fails with that, and nothing is
/// submitted.
pub proof fn unknown_type_is_not_launched(
    order: LaunchOrder,
    types: Reply<Vec<(String, InstanceTypeResponse)>>,
    images: Reply<Vec<Image>>,
    launched: Reply<LaunchResponse>,
)
    requires
        types is Answered,
        named_type(types->Answered_0.data@, order.gpu@) is None,
    ensures
        launch_run(order, types, images, launched) == (
            None::<Json>,
            Err::<(Seq<char>, Seq<char>), Failure>(
                Failure::Lambda(LambdaFailure::InstanceTypeNotFound(order.gpu@)),
            ),
        ),
{
}

/// Without a requested region and without an image, a launch fails for want of
/// capacity exactly where no region has any.
pub proof fn launch_needs_capacity(
    order: LaunchOrder,
    types: Reply<Vec<(String, InstanceTypeResponse)>>,
    images: Reply<Vec<Image>>,
    launched: Reply<LaunchResponse>,
)
    requires
        types is Answered,
        availability(types->Answered_0.data@, order.gpu@) is Ok,
        order.region is None,
        order.image is None,
    ensures
        ({
            let capacity = availability(types->Answered_0.data@, order.gpu@)->Ok_0;
            let (submitted, result) = launch_run(order, types, images, launched);
            &&& submitted is None <==> capacity.len() == 0
            &&& capacity.len() == 0 ==> result == Err::<(Seq<char>, Seq<char>), Failure>(
                Failure::Lambda(LambdaFailure::NoRegionsAvailable(order.gpu@)),
            )
        }),
{
}

/// A launch that pins an image id submits that image, whatever region, name and
/// filesystem are requested: the document has a member `image`, whose only member `id` is
/// the id that the requested one resolves to among the listed images.
pub proof fn pinned_image_is_submitted(
    order: LaunchOrder,
    id: &str,
    types: Reply<Vec<(String, InstanceTypeResponse)>>,
    images: Reply<Vec<Image>>,
    launched: Reply<LaunchResponse>,
)
    requires
        order.image == Some(ImageRef::Id(id)),
        launch_run(order, types, images, launched).0 is Some,
    ensures
        images is Answered,
        resolved_id(images->Answered_0.data@, id@) is Ok,
        ({
            let document = launch_run(order, types, images, launched).0->0;
            let own_id = resolved_id(images->Answered_0.data@, id@)->Ok_0.0;
            &&& document is Object
            &&& document->Object_0.contains_key("image"@)
            &&& document->Object_0["image"@] == Json::Object(
                Map::empty().insert("id"@, Json::Text(own_id)),
            )
        }),
{
    member_names_differ();
}

/// A submitted document says what was ordered and nothing else: one instance of the type
/// with the SSH key, and a name, an image and a filesystem exactly where they are ordered.
pub proof fn submitted_document_says_what_was_ordered(
    order: LaunchOrder,
    types: Reply<Vec<(String, InstanceTypeResponse)>>,
    images: Reply<Vec<Image>>,
    launched: Reply<LaunchResponse>,
)
    requires
        launch_run(order, types, images, launched).0 is Some,
    ensures
        ({
            let document = launch_run(order, types, images, launched).0->0;
            let members = document->Object_0;
            &&& document is Object
            &&& forall|key: Seq<char>| #[trigger]
                members.contains_key(key) <==> {
                    ||| key == "region_name"@
                    ||| key == "instance_type_name"@
                    ||| key == "ssh_key_names"@
                    ||| key == "quantity"@
                    ||| key == "name"@ && order.name is Some
                    ||| key == "image"@ && order.image is Some
                    ||| key == "file_system_names"@ && order.filesystem is Some
                }
            &&& members["instance_type_name"@] == Json::Text(order.gpu@)
            &&& members["ssh_key_names"@] == Json::List(seq![Json::Text(order.ssh_key@)])
            &&& members["quantity"@] == Json::Number(1)
            &&& order.name is Some ==> members["name"@] == Json::Text(order.name->0@)
            &&& order.filesystem is Some ==> members["file_system_names"@] == Json::List(
                seq![Json::Text(order.filesystem->0@)],
            )
            &&& order.image matches Some(ImageRef::Family(family)) ==> members["image"@]
                == Json::Object(Map::empty().insert("family"@, Json::Text(family@)))
        }),
{
    member_names_differ();
}

/// The regions that an order is tied to: those in which its pinned image is offered,
/// where the API names any.
pub open spec fn tied_to(order: LaunchOrder, images: Seq<Image>) -> Option<Seq<Seq<char>>> {
    match order.image {
        Some(ImageRef::Id(id)) => {
            let regions = resolved_id(images, id@)->Ok_0.1;
            if regions.len() > 0 {
                Some(regions)
            } else {
                None
            }
        },
        _ => None,
    }
}

/// The region is the right one: the requested one, or else the first with capacity that
/// the order is not kept from by its image.
pub open spec fn right_region(
    requested: Option<&str>,
    capacity: Seq<Seq<char>>,
    tied: Option<Seq<Seq<char>>>,
    region: Seq<char>,
) -> bool {
    &&& capacity.contains(region)
    &&& tied is Some ==> tied->0.contains(region)
    &&& match requested {
        Some(requested) => region == requested@,
        None => exists|i: int|
            0 <= i < capacity.len() && #[trigger] capacity[i] == region && forall|j: int|
                0 <= j < i ==> tied is Some && !tied->0.contains(#[trigger] capacity[j]),
    }
}

/// A launch is submitted for the right region, given the regions with capacity for its
/// type, and what comes of it is what the API answers: the first instance it names, in
/// that region.
pub proof fn launch_goes_to_the_right_region(
    order: LaunchOrder,
    types: Reply<Vec<(String, InstanceTypeResponse)>>,
    images: Reply<Vec<Image>>,
    launched: Reply<LaunchResponse>,
) -> (region: Seq<char>)
    requires
        launch_run(order, types, images, launched).0 is Some,
    ensures
        types is Answered,
        availability(types->Answered_0.data@, order.gpu@) is Ok,
        right_region(
            order.region,
            availability(types->Answered_0.data@, order.gpu@)->Ok_0,
            tied_to(order, images->Answered_0.data@),
            region,
        ),
        ({
            let (document, result) = launch_run(order, types, images, launched);
            &&& document->0->Object_0["region_name"@] == Json::Text(region)
            &&& launched matches Reply::Answered(response) ==> {
                &&& response.data.instance_ids@.len() > 0 ==> result == Ok::<
                    (Seq<char>, Seq<char>),
                    Failure,
                >((response.data.instance_ids@[0]@, region))
                &&& response.data.instance_ids@.len() == 0 ==> result == Err::<
                    (Seq<char>, Seq<char>),
                    Failure,
                >(Failure::Lambda(LambdaFailure::NoInstanceIds))
            }
            &&& !(launched is Answered) ==> result == Err::<(Seq<char>, Seq<char>), Failure>(
                reply_outcome(Operation::Launch, Document::Launch, launched)->Err_0,
            )
        }),
{
    member_names_differ();
    let capacity = availability(types->Answered_0.data@, order.gpu@)->Ok_0;
    let wanted = opt_str(order.region);
    let tied = tied_to(order, images->Answered_0.data@);
    picked_region_fits(order.gpu@, wanted, capacity, tied);
    let region = picked_region(order.gpu@, wanted, capacity, tied)->Ok_0;
    if order.region is None {
        match tied {
            Some(offered) => {
                let i = first_shared_place(capacity, offered);
                assert(capacity[i] == region);
            },
            None => {
                assert(capacity[0] == region);
            },
        }
    }
    region
}

proof fn first_shared_place(capacity: Seq<Seq<char>>, offered: Seq<Seq<char>>) -> (i: int)
    requires
        first_shared(capacity, offered) is Some,
    ensures
        0 <= i < capacity.len(),
        capacity[i] == first_shared(capacity, offered)->0,
        forall|j: int| 0 <= j < i ==> !offered.contains(#[trigger] capacity[j]),
    decreases capacity.len(),
{
    if offered.contains(capacity[0]) {
        0
    } else {
        let rest = capacity.drop_first();
        let k = first_shared_place(rest, offered);
        assert forall|j: int| 0 <= j < k + 1 implies !offered.contains(#[trigger] capacity[j]) by {
            if j > 0 {
                assert(rest[j - 1] == capacity[j]);
            }
        }
        k + 1
    }
}

/// The launch ends with the failure, and nothing was submitted.
pub open spec fn ends_with(
    run: (Option<Json>, Result<(Seq<char>, Seq<char>), Failure>),
    failure: Failure,
) -> bool {
    run.0 is None && run.1 == Err::<(Seq<char>, Seq<char>), Failure>(failure)
}

/// The image of the order is known to the API, or none is ordered.
pub open spec fn image_is_known(order: LaunchOrder, images: Reply<Vec<Image>>) -> bool {
    match order.image {
        Some(ImageRef::Id(id)) => images is Answered && resolved_id(
            images->Answered_0.data@,
            id@,
        ) is Ok,
        Some(ImageRef::Family(family)) => images is Answered && checked_family(
            images->Answered_0.data@,
            family@,
        ) is Ok,
        None => true,
    }
}

/// What keeps a launch from being submitted, and what it then ends with: requests that
/// fail, a type or an image that there is not, and regions that do not fit. Where nothing
/// of this holds it is submitted.
pub proof fn launch_fails_for_its_reason(
    order: LaunchOrder,
    types: Reply<Vec<(String, InstanceTypeResponse)>>,
    images: Reply<Vec<Image>>,
    launched: Reply<LaunchResponse>,
)
    ensures
        ({
            let run = launch_run(order, types, images, launched);
            let known = availability(types->Answered_0.data@, order.gpu@);
            let listed = images->Answered_0.data@;
            let capacity = known->Ok_0;
            let tied = tied_to(order, listed);
            &&& !(types is Answered) ==> ends_with(
                run,
                reply_outcome(
                    Operation::GetInstanceType,
                    Document::InstanceTypes,
                    types,
                )->Err_0,
            )
            &&& types is Answered && known is Err ==> ends_with(run, known->Err_0)
            &&& types is Answered && known is Ok && order.image is Some && !(images is Answered)
                ==> ends_with(
                run,
                reply_outcome(Operation::ListImages, Document::Images, images)->Err_0,
            )
            &&& types is Answered && known is Ok && images is Answered ==> (
            order.image matches Some(ImageRef::Id(id)) ==> (resolved_id(listed, id@) is Err
                ==> ends_with(run, resolved_id(listed, id@)->Err_0)))
            &&& types is Answered && known is Ok && images is Answered ==> (
            order.image matches Some(ImageRef::Family(family)) ==> (checked_family(
                listed,
                family@,
            ) is Err ==> ends_with(run, checked_family(listed, family@)->Err_0)))
            &&& types is Answered && known is Ok && image_is_known(order, images) ==> {
                &&& order.region matches Some(region) ==> {
                    &&& !capacity.contains(region@) ==> ends_with(
                        run,
                        Failure::RegionUnavailable {
                            region: region@,
                            gpu: order.gpu@,
                            available: capacity,
                        },
                    )
                    &&& capacity.contains(region@) && tied is Some && !tied->0.contains(region@)
                        ==> ends_with(
                        run,
                        Failure::RegionWithoutImage { region: region@, offered: tied->0 },
                    )
                    &&& capacity.contains(region@) && (tied is Some ==> tied->0.contains(region@))
                        ==> run.0 is Some
                }
                &&& order.region is None && tied is Some ==> {
                    let shared = exists|i: int|
                        0 <= i < capacity.len() && tied->0.contains(#[trigger] capacity[i]);
                    &&& !shared ==> ends_with(
                        run,
                        Failure::NoCapacityForImage { offered: tied->0, gpu: order.gpu@ },
                    )
                    &&& shared ==> run.0 is Some
                }
                &&& order.region is None && tied is None ==> {
                    &&& capacity.len() == 0 ==> ends_with(
                        run,
                        Failure::Lambda(LambdaFailure::NoRegionsAvailable(order.gpu@)),
                    )
                    &&& capacity.len() > 0 ==> run.0 is Some
                }
            }
        }),
{
    let known = availability(types->Answered_0.data@, order.gpu@);
    let tied = tied_to(order, images->Answered_0.data@);
    if types is Answered && known is Ok && tied is Some {
        let capacity = known->Ok_0;
        if exists|i: int| 0 <= i < capacity.len() && tied->0.contains(#[trigger] capacity[i]) {
            let i = choose|i: int|
                0 <= i < capacity.len() && tied->0.contains(#[trigger] capacity[i]);
            assert(capacity.contains(capacity[i]));
            shared_is_found(capacity, tied->0, capacity[i]);
        } else {
            first_shared_is_shared(capacity, tied->0);
        }
    }
}

/// An action is what it is expected to be: a request to the right address with the right
/// document, or the end with the right instance and region or the right failure.
pub proof fn action_is_as_expected(action: LaunchAction, expected: Act)
    requires
        acts(action, expected),
    ensures
        match expected {
            Act::FetchTypes => action is FetchTypes && asks_at(
                action->FetchTypes_0,
                Method::Get,
                "/instance-types"@,
            ) && action->FetchTypes_0.body is None,
            Act::FetchImages => action is FetchImages && asks_at(
                action->FetchImages_0,
                Method::Get,
                "/images"@,
            ) && action->FetchImages_0.body is None,
            Act::Submit(document) => action is Submit && asks_at(
                action->Submit_0,
                Method::Post,
                "/instance-operations/launch"@,
            ) && action->Submit_0.body is Some && json_content(action->Submit_0.body->0)
                == document,
            Act::Finish(Ok(launched)) => action is Finish && action->Finish_0 is Ok
                && action->Finish_0->Ok_0.instance_id@ == launched.0
                && action->Finish_0->Ok_0.region@ == launched.1,
            Act::Finish(Err(failure)) => action is Finish && action->Finish_0 is Err
                && action->Finish_0->Err_0@ == failure,
        },
{
}

} // verus!
