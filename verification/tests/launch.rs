use lambda_cli::client::LambdaClient;
use lambda_cli::error::{ClientError, LambdaError};
use lambda_cli::http::{HttpStatus, Method};
use lambda_cli::image::ImageRef;
use lambda_cli::launch::{pick_region, Launch, LaunchAction, LaunchEvent, LaunchOrder};
use lambda_cli::reply::Reply;
use lambda_cli::types::{
    ApiResponse, Image, InstanceSpecs, InstanceType, InstanceTypeResponse, LaunchResponse,
    LaunchResult, Region, RegionInfo,
};

const ID: &str = "f9ba07bd-c60b-4e08-ab29-5d9be6bd62d0";

fn strings(items: &[&str]) -> Vec<String> {
    items.iter().map(|s| s.to_string()).collect()
}

fn answered<T>(data: T) -> Reply<T> {
    Reply::Answered(ApiResponse { data })
}

fn refused<T>() -> Reply<T> {
    Reply::Refused { status: HttpStatus::from_code(500).unwrap(), detail: None }
}

fn types(regions: &[&str]) -> Reply<Vec<(String, InstanceTypeResponse)>> {
    answered(vec![(
        "gpu_1x_a10".to_string(),
        InstanceTypeResponse {
            instance_type: InstanceType {
                description: String::new(),
                price_cents_per_hour: 60,
                specs: InstanceSpecs { vcpus: 1, memory_gib: 1, storage_gib: 1 },
            },
            regions_with_capacity_available: regions
                .iter()
                .map(|r| Region { name: r.to_string(), description: String::new() })
                .collect(),
        },
    )])
}

fn images(regions: &[&str]) -> Reply<Vec<Image>> {
    answered(
        regions
            .iter()
            .map(|r| Image {
                id: ID.to_string(),
                name: None,
                family: Some("ubuntu".to_string()),
                version: None,
                architecture: None,
                description: None,
                region: if r.is_empty() {
                    None
                } else {
                    Some(RegionInfo { name: Some(r.to_string()) })
                },
            })
            .collect(),
    )
}

fn launched(ids: &[&str]) -> Reply<LaunchResponse> {
    answered(LaunchResponse { instance_ids: strings(ids) })
}

fn order<'a>(region: Option<&'a str>, image: Option<ImageRef<'a>>) -> LaunchOrder<'a> {
    LaunchOrder { gpu: "gpu_1x_a10", ssh_key: "macbook", name: None, region, image, filesystem: None }
}

/// Runs a launch to its end: the document that it submits, if any, and its result.
fn run(
    order: LaunchOrder<'_>,
    types: Reply<Vec<(String, InstanceTypeResponse)>>,
    images: Reply<Vec<Image>>,
    outcome: Reply<LaunchResponse>,
) -> (Option<serde_json::Value>, Result<LaunchResult, ClientError>) {
    let (launch, first) = LambdaClient::launch_instance_with_filesystem(
        order.gpu,
        order.ssh_key,
        order.name,
        order.region,
        order.image,
        order.filesystem,
    );
    match first {
        LaunchAction::FetchTypes(request) => {
            assert_eq!(request.method, Method::Get);
            assert_eq!(request.url, "https://cloud.lambdalabs.com/api/v1/instance-types");
        }
        other => panic!("{:?}", other),
    }
    let (mut launch, mut action): (Launch<'_>, LaunchAction) =
        launch.step(LaunchEvent::Types(types));
    if let LaunchAction::FetchImages(request) = &action {
        assert_eq!(request.method, Method::Get);
        assert_eq!(request.url, "https://cloud.lambdalabs.com/api/v1/images");
        let stepped = launch.step(LaunchEvent::Images(images));
        launch = stepped.0;
        action = stepped.1;
    }
    match action {
        LaunchAction::Submit(request) => {
            assert_eq!(request.method, Method::Post);
            assert_eq!(
                request.url,
                "https://cloud.lambdalabs.com/api/v1/instance-operations/launch"
            );
            match launch.step(LaunchEvent::Launched(outcome)).1 {
                LaunchAction::Finish(result) => (request.body, result),
                other => panic!("{:?}", other),
            }
        }
        LaunchAction::Finish(result) => (None, result),
        other => panic!("{:?}", other),
    }
}

fn failure(run: (Option<serde_json::Value>, Result<LaunchResult, ClientError>)) -> String {
    assert!(run.0.is_none(), "nothing should be submitted");
    match run.1 {
        Ok(launched) => panic!("{:?}", launched),
        Err(error) => error.to_string(),
    }
}

fn region_of(run: (Option<serde_json::Value>, Result<LaunchResult, ClientError>)) -> String {
    let region = run.1.unwrap().region;
    assert_eq!(run.0.unwrap()["region_name"], region.as_str());
    region
}

#[test]
fn plain_launch_takes_the_first_region_with_capacity() {
    let (body, result) = run(
        order(None, None),
        types(&["us-west-1", "us-east-1"]),
        Reply::Unsent,
        launched(&["i-1", "i-2"]),
    );
    let expected: serde_json::Value = serde_json::from_str(
        r#"{"region_name": "us-west-1", "instance_type_name": "gpu_1x_a10",
            "ssh_key_names": ["macbook"], "quantity": 1}"#,
    )
    .unwrap();
    assert_eq!(body, Some(expected));
    let result = result.unwrap();
    assert_eq!((result.instance_id.as_str(), result.region.as_str()), ("i-1", "us-west-1"));
}

#[test]
fn optional_members_are_sent_where_given() {
    let mut full = order(Some("us-east-1"), Some(ImageRef::Family("ubuntu")));
    full.name = Some("dev-box");
    full.filesystem = Some("data");
    let (body, result) =
        run(full, types(&["us-west-1", "us-east-1"]), images(&["eu-1"]), launched(&["i-1"]));
    let expected: serde_json::Value = serde_json::from_str(
        r#"{"region_name": "us-east-1", "instance_type_name": "gpu_1x_a10",
            "ssh_key_names": ["macbook"], "quantity": 1, "name": "dev-box",
            "image": {"family": "ubuntu"}, "file_system_names": ["data"]}"#,
    )
    .unwrap();
    assert_eq!(body, Some(expected));
    assert_eq!(result.unwrap().region, "us-east-1");
}

#[test]
fn short_form_launches_without_image_and_filesystem() {
    let (launch, first) = LambdaClient::launch_instance("gpu_1x_a10", "k", Some("n"), Some("r2"));
    assert!(matches!(first, LaunchAction::FetchTypes(_)));
    let body = match launch.step(LaunchEvent::Types(types(&["r1", "r2"]))).1 {
        LaunchAction::Submit(request) => request.body.unwrap(),
        other => panic!("{:?}", other),
    };
    let expected: serde_json::Value = serde_json::from_str(
        r#"{"region_name": "r2", "instance_type_name": "gpu_1x_a10",
            "ssh_key_names": ["k"], "quantity": 1, "name": "n"}"#,
    )
    .unwrap();
    assert_eq!(body, expected);
}

#[test]
fn pinned_image_is_sent_as_the_api_writes_it() {
    let (body, _) = run(
        order(None, Some(ImageRef::Id("F9BA07BDC60B4E08AB295D9BE6BD62D0"))),
        types(&["us-west-1"]),
        images(&["us-west-1"]),
        launched(&["i-1"]),
    );
    let expected: serde_json::Value =
        serde_json::from_str(&format!(r#"{{"id": "{}"}}"#, ID)).unwrap();
    assert_eq!(body.unwrap()["image"], expected);
}

#[test]
fn pinned_image_ties_the_launch_to_its_regions() {
    let pinned = |region| order(region, Some(ImageRef::Id(ID)));
    let capacity = || types(&["us-west-1", "us-east-1", "eu-1"]);
    assert_eq!(
        region_of(run(pinned(None), capacity(), images(&["eu-1", "us-east-1"]), launched(&["i"]))),
        "us-east-1"
    );
    assert_eq!(
        failure(run(pinned(None), capacity(), images(&["b", "a", "b"]), launched(&["i"]))),
        "The requested image is available in [a, b], but none of those regions currently have gpu_1x_a10 capacity."
    );
    assert_eq!(
        failure(run(pinned(Some("eu-1")), capacity(), images(&["b", "a"]), launched(&["i"]))),
        "Region 'eu-1' does not offer the requested image (available in: a, b)"
    );
    assert_eq!(
        region_of(run(pinned(Some("eu-1")), capacity(), images(&["eu-1"]), launched(&["i"]))),
        "eu-1"
    );
}

#[test]
fn pinned_image_without_regions_ties_to_none() {
    assert_eq!(
        region_of(run(
            order(None, Some(ImageRef::Id(ID))),
            types(&["us-west-1"]),
            images(&[""]),
            launched(&["i"])
        )),
        "us-west-1"
    );
}

#[test]
fn family_is_region_agnostic() {
    assert_eq!(
        region_of(run(
            order(None, Some(ImageRef::Family("ubuntu"))),
            types(&["us-west-1"]),
            images(&["eu-1"]),
            launched(&["i"])
        )),
        "us-west-1"
    );
}

#[test]
fn family_adds_one_member_and_nothing_else() {
    let capacity = || types(&["us-west-1", "us-east-1"]);
    let (with_family, result) = run(
        order(None, Some(ImageRef::Family("ubuntu"))),
        capacity(),
        images(&["eu-1"]),
        launched(&["i-1"]),
    );
    let (plain, plain_result) = run(order(None, None), capacity(), Reply::Unsent, launched(&["i-1"]));
    let mut expected = plain.unwrap();
    expected["image"] = serde_json::from_str(r#"{"family": "ubuntu"}"#).unwrap();
    assert_eq!(with_family, Some(expected));
    assert_eq!(result.unwrap().region, plain_result.unwrap().region);
}

#[test]
fn launch_without_capacity_is_refused() {
    assert_eq!(
        failure(run(order(None, None), types(&[]), Reply::Unsent, launched(&["i"]))),
        "No regions available for instance type 'gpu_1x_a10'"
    );
    assert_eq!(
        failure(run(order(Some("x"), None), types(&["a", "b"]), Reply::Unsent, launched(&["i"]))),
        "Region 'x' is not available for instance type 'gpu_1x_a10'. Available regions: a, b"
    );
}

#[test]
fn unknown_type_is_not_launched() {
    let mut unknown = order(None, Some(ImageRef::Family("ubuntu")));
    unknown.gpu = "gpu_9x";
    assert_eq!(
        failure(run(unknown, types(&["a"]), images(&["a"]), launched(&["i"]))),
        "Instance type 'gpu_9x' not found"
    );
}

#[test]
fn failed_requests_end_the_launch() {
    assert_eq!(
        failure(run(order(None, None), Reply::Unsent, Reply::Unsent, launched(&["i"]))),
        "Failed to fetch instance types"
    );
    assert_eq!(
        failure(run(
            order(None, Some(ImageRef::Id(ID))),
            types(&["a"]),
            refused(),
            launched(&["i"])
        )),
        "Failed to list images: Unknown error"
    );
    assert_eq!(
        failure(run(
            order(None, Some(ImageRef::Family("debian"))),
            types(&["a"]),
            images(&["a"]),
            launched(&["i"])
        )),
        "Image family 'debian' not found. Available families: ubuntu"
    );
}

#[test]
fn submitted_launch_can_still_fail() {
    let outcome = |reply| {
        let (body, result) = run(order(None, None), types(&["a"]), Reply::Unsent, reply);
        assert!(body.is_some());
        result.unwrap_err().to_string()
    };
    assert_eq!(outcome(launched(&[])), "No instance IDs returned from launch request");
    assert_eq!(outcome(refused()), "Failed to launch instance: Unknown error");
    assert_eq!(outcome(Reply::Unsent), "Failed to send launch request");
    assert_eq!(outcome(Reply::Unreadable), "Failed to parse launch response");
    assert_eq!(
        outcome(Reply::NoKey(ClientError::Lambda(LambdaError::ApiKeyCommandFailed(
            "x".to_string()
        )))),
        "Failed to execute API key command: x"
    );
}

#[test]
fn region_is_picked_whenever_one_fits() {
    let capacity = strings(&["a", "b", "c"]);
    assert_eq!(pick_region("g", None, capacity.clone(), None).unwrap(), "a");
    let offered = Some(strings(&["c", "b"]));
    assert_eq!(pick_region("g", None, capacity.clone(), offered.clone()).unwrap(), "b");
    assert_eq!(pick_region("g", Some("c"), capacity.clone(), offered.clone()).unwrap(), "c");
    assert!(pick_region("g", Some("a"), capacity, offered).is_err());
}
