use lambda_cli::calls::sorted_types;
use lambda_cli::client::LambdaClient;
use lambda_cli::error::{ClientError, LambdaError};
use lambda_cli::http::{ApiRequest, HttpStatus, Method};
use lambda_cli::reply::{Receipt, Reply};
use lambda_cli::request::{
    create_filesystem_request, delete_filesystem_request, get_instance_request,
    instance_types_request, list_filesystems_request, list_images_request,
    list_running_instances_request, terminate_instance_request, validate_api_key_request,
};
use lambda_cli::types::{
    ApiErrorDetail, ApiErrorResponse, ApiResponse, Filesystem, FilesystemRegion, Image, Instance,
    InstanceSpecs, InstanceType, InstanceTypeResponse, Region,
};

fn status(code: u16) -> HttpStatus {
    HttpStatus::from_code(code).unwrap()
}

fn detail(message: &str) -> Option<ApiErrorResponse> {
    Some(ApiErrorResponse { error: ApiErrorDetail { message: message.to_string() } })
}

fn answered<T>(data: T) -> Reply<T> {
    Reply::from_answer(status(200), Some(ApiResponse { data }), None)
}

fn refused<T>(code: u16) -> Reply<T> {
    Reply::from_answer(status(code), None, detail("no"))
}

fn no_key() -> ClientError {
    ClientError::Lambda(LambdaError::ApiKeyNotSet)
}

fn entry(name: &str, cents: i32, regions: &[&str]) -> (String, InstanceTypeResponse) {
    (
        name.to_string(),
        InstanceTypeResponse {
            instance_type: InstanceType {
                description: format!("{} description", name),
                price_cents_per_hour: cents,
                specs: InstanceSpecs { vcpus: 30, memory_gib: 200, storage_gib: 1400 },
            },
            regions_with_capacity_available: regions
                .iter()
                .map(|r| Region { name: r.to_string(), description: String::new() })
                .collect(),
        },
    )
}

fn instance(id: &str) -> Instance {
    Instance {
        id: Some(id.to_string()),
        name: None,
        status: None,
        ip: None,
        ssh_key_names: None,
        instance_type: None,
        region: None,
    }
}

fn filesystem(name: &str) -> Filesystem {
    Filesystem {
        id: "fs-1".to_string(),
        name: name.to_string(),
        mount_point: "/lambda/nfs/data".to_string(),
        created: "2024-01-01".to_string(),
        region: FilesystemRegion { name: "us-east-1".to_string(), description: String::new() },
        is_in_use: false,
        bytes_used: 0,
    }
}

fn image(id: &str, family: &str) -> Image {
    Image {
        id: id.to_string(),
        name: None,
        family: Some(family.to_string()),
        version: None,
        architecture: None,
        description: None,
        region: None,
    }
}

fn words<T>(result: Result<T, ClientError>) -> String {
    match result {
        Ok(_) => panic!("the call should fail"),
        Err(error) => error.to_string(),
    }
}

fn goes_to(request: &ApiRequest, method: Method, path: &str) {
    assert_eq!(request.method, method);
    assert_eq!(request.url, format!("https://cloud.lambdalabs.com/api/v1{}", path));
}

#[test]
fn plain_requests_go_to_their_paths() {
    for (request, method, path) in [
        (validate_api_key_request(), Method::Get, "/instances"),
        (instance_types_request(), Method::Get, "/instance-types"),
        (list_running_instances_request(), Method::Get, "/instances"),
        (get_instance_request("i-1"), Method::Get, "/instances/i-1"),
        (list_images_request(), Method::Get, "/images"),
        (list_filesystems_request(), Method::Get, "/file-systems"),
        (delete_filesystem_request("fs-1"), Method::Delete, "/file-systems/fs-1"),
    ] {
        goes_to(&request, method, path);
        assert!(request.body.is_none());
    }
}

#[test]
fn terminate_request_names_the_instance() {
    let request = terminate_instance_request("i-\"1\"");
    goes_to(&request, Method::Post, "/instance-operations/terminate");
    let expected: serde_json::Value =
        serde_json::from_str(r#"{"instance_ids": ["i-\"1\""]}"#).unwrap();
    assert_eq!(request.body, Some(expected));
}

#[test]
fn create_request_describes_the_filesystem() {
    let request = create_filesystem_request("data", "us-east-1");
    goes_to(&request, Method::Post, "/file-systems");
    let expected: serde_json::Value =
        serde_json::from_str(r#"{"name": "data", "region_name": "us-east-1"}"#).unwrap();
    assert_eq!(request.body, Some(expected));
}

#[test]
fn status_has_three_digits() {
    assert!(HttpStatus::from_code(99).is_none());
    assert!(HttpStatus::from_code(1000).is_none());
    assert_eq!(status(404).text(), "404 Not Found");
    assert_eq!(status(100).text(), "100 Continue");
    assert_eq!(status(999).text(), "999 <unknown status code>");
    for code in 100..=999 {
        let expected = reqwest::StatusCode::from_u16(code).unwrap();
        assert_eq!(status(code).is_success(), expected.is_success());
        assert_eq!(status(code).text(), expected.to_string());
    }
}

#[test]
fn successful_answers_are_read() {
    let reply: Reply<u8> = Reply::from_answer(status(204), Some(ApiResponse { data: 7 }), None);
    assert!(matches!(reply, Reply::Answered(ApiResponse { data: 7 })));
    let reply: Reply<u8> = Reply::from_answer(status(200), None, detail("x"));
    assert!(matches!(reply, Reply::Unreadable));
    assert!(matches!(Receipt::from_answer(status(200), None), Receipt::Accepted));
}

#[test]
fn other_answers_are_refusals() {
    for code in [199, 300, 404, 500] {
        let reply: Reply<u8> =
            Reply::from_answer(status(code), Some(ApiResponse { data: 7 }), detail("x"));
        assert!(matches!(reply, Reply::Refused { .. }));
        assert!(matches!(Receipt::from_answer(status(code), None), Receipt::Refused { .. }));
    }
}

#[test]
fn unreadable_refusal_is_an_unknown_error() {
    let receipt = Receipt::from_answer(status(500), None);
    assert_eq!(
        words(LambdaClient::terminate_instance(receipt)),
        "Failed to terminate instance: Unknown error"
    );
}

#[test]
fn key_validation_reports_the_status() {
    assert!(LambdaClient::validate_api_key(Receipt::Accepted).is_ok());
    assert_eq!(
        words(LambdaClient::validate_api_key(Receipt::from_answer(status(401), detail("bad key")))),
        "API key validation failed (401 Unauthorized): bad key"
    );
    assert_eq!(
        words(LambdaClient::validate_api_key(Receipt::Unsent)),
        "Failed to connect to Lambda API"
    );
    assert_eq!(
        words(LambdaClient::validate_api_key(Receipt::NoKey(no_key()))),
        "API key not set. Set LAMBDA_API_KEY or LAMBDA_API_KEY_COMMAND environment variable"
    );
}

#[test]
fn instance_types_are_sorted_by_name() {
    let list = LambdaClient::list_instance_types(answered(vec![
        entry("gpu_8x_a100", 1200, &[]),
        entry("gpu_1x_h100", 249, &["us-west-1", "us-east-1"]),
        entry("gpu_1x_a10", 60, &["us-east-1"]),
    ]))
    .unwrap();
    let names: Vec<&str> = list.iter().map(|t| t.name.as_str()).collect();
    assert_eq!(names, vec!["gpu_1x_a10", "gpu_1x_h100", "gpu_8x_a100"]);
    assert_eq!(list[1].description, "gpu_1x_h100 description");
    assert_eq!(list[1].price_cents_per_hour, 249);
    assert_eq!((list[1].vcpus, list[1].memory_gib, list[1].storage_gib), (30, 200, 1400));
    assert_eq!(list[1].regions_available, vec!["us-west-1", "us-east-1"]);
    assert!(list[2].regions_available.is_empty());
}

#[test]
fn type_list_does_not_depend_on_answer_order() {
    let forth = vec![entry("a", 1, &[]), entry("b", 2, &[]), entry("c", 3, &[])];
    let back: Vec<(String, InstanceTypeResponse)> = forth.iter().rev().cloned().collect();
    let prices = |entries: &Vec<(String, InstanceTypeResponse)>| -> Vec<i32> {
        sorted_types(entries).iter().map(|t| t.price_cents_per_hour).collect()
    };
    assert_eq!(prices(&forth), vec![1, 2, 3]);
    assert_eq!(prices(&back), vec![1, 2, 3]);
}

#[test]
fn listing_types_fails_in_its_own_words() {
    assert_eq!(
        words(LambdaClient::list_instance_types(refused(403))),
        "Failed to list instances: no"
    );
    assert_eq!(
        words(LambdaClient::list_instance_types(Reply::Unsent)),
        "Failed to fetch instance types"
    );
    assert_eq!(
        words(LambdaClient::list_instance_types(Reply::Unreadable)),
        "Failed to parse instance types response"
    );
}

#[test]
fn instance_type_is_looked_up_by_name() {
    let types = vec![entry("a", 1, &["r1"]), entry("b", 2, &["r2"])];
    let found = LambdaClient::get_instance_type(answered(types.clone()), "b").unwrap().unwrap();
    assert_eq!(found.instance_type.price_cents_per_hour, 2);
    assert!(LambdaClient::get_instance_type(answered(types), "B").unwrap().is_none());
    assert_eq!(
        words(LambdaClient::get_instance_type(refused(500), "a")),
        "Failed to get instance types: no"
    );
    assert_eq!(
        words(LambdaClient::get_instance_type(Reply::Unreadable, "a")),
        "Failed to parse instance types"
    );
}

#[test]
fn availability_names_the_regions() {
    let types = vec![entry("a", 1, &["r2", "r1"]), entry("b", 2, &[])];
    assert_eq!(
        LambdaClient::check_availability(answered(types.clone()), "a").unwrap(),
        vec!["r2", "r1"]
    );
    assert!(LambdaClient::check_availability(answered(types.clone()), "b").unwrap().is_empty());
    assert_eq!(
        words(LambdaClient::check_availability(answered(types), "c")),
        "Instance type 'c' not found"
    );
}

#[test]
fn instances_are_handed_on() {
    let list = LambdaClient::list_running_instances(answered(vec![instance("i-1")])).unwrap();
    assert_eq!(list[0].id.as_deref(), Some("i-1"));
    let one = LambdaClient::get_instance(answered(instance("i-2"))).unwrap();
    assert_eq!(one.id.as_deref(), Some("i-2"));
}

#[test]
fn instance_calls_fail_in_their_own_words() {
    assert_eq!(
        words(LambdaClient::list_running_instances(refused(500))),
        "Failed to list running instances: no"
    );
    assert_eq!(
        words(LambdaClient::list_running_instances(Reply::Unsent)),
        "Failed to fetch running instances"
    );
    assert_eq!(
        words(LambdaClient::list_running_instances(Reply::Unreadable)),
        "Failed to parse running instances response"
    );
    assert_eq!(
        words(LambdaClient::get_instance(refused(404))),
        "Failed to get instance details (404 Not Found): no"
    );
    assert_eq!(
        words(LambdaClient::get_instance(Reply::Unsent)),
        "Failed to fetch instance details"
    );
    assert_eq!(
        words(LambdaClient::get_instance(Reply::Unreadable)),
        "Failed to parse instance details"
    );
    assert_eq!(
        words(LambdaClient::terminate_instance(Receipt::Unsent)),
        "Failed to send terminate request"
    );
    assert!(LambdaClient::terminate_instance(Receipt::Accepted).is_ok());
}

#[test]
fn filesystem_calls_fail_in_their_own_words() {
    assert_eq!(
        words(LambdaClient::list_filesystems(refused(500))),
        "Failed to list filesystems: no"
    );
    assert_eq!(
        words(LambdaClient::list_filesystems(Reply::Unsent)),
        "Failed to fetch filesystems"
    );
    assert_eq!(
        words(LambdaClient::list_filesystems(Reply::Unreadable)),
        "Failed to parse filesystems response"
    );
    assert_eq!(
        words(LambdaClient::create_filesystem(refused(409))),
        "Failed to create filesystem: no"
    );
    assert_eq!(
        words(LambdaClient::create_filesystem(Reply::Unsent)),
        "Failed to create filesystem"
    );
    assert_eq!(
        words(LambdaClient::create_filesystem(Reply::Unreadable)),
        "Failed to parse create filesystem response"
    );
    assert_eq!(
        words(LambdaClient::delete_filesystem(Receipt::Unsent)),
        "Failed to delete filesystem"
    );
    assert_eq!(
        words(LambdaClient::delete_filesystem(Receipt::from_answer(status(400), detail("in use")))),
        "Failed to delete filesystem: in use"
    );
}

#[test]
fn filesystems_are_handed_on() {
    let list = LambdaClient::list_filesystems(answered(vec![filesystem("data")])).unwrap();
    assert_eq!(list[0].name, "data");
    let made = LambdaClient::create_filesystem(answered(filesystem("more"))).unwrap();
    assert_eq!(made.name, "more");
    assert!(LambdaClient::delete_filesystem(Receipt::Accepted).is_ok());
}

#[test]
fn image_calls_work_on_the_listed_images() {
    let images = || answered(vec![image("ab-cd", "ubuntu")]);
    assert_eq!(LambdaClient::list_images(images()).unwrap()[0].id, "ab-cd");
    assert_eq!(LambdaClient::resolve_image_id(images(), "ABCD").unwrap().0, "ab-cd");
    assert!(LambdaClient::validate_image_family(images(), "ubuntu").is_ok());
    assert_eq!(
        words(LambdaClient::validate_image_family(images(), "debian")),
        "Image family 'debian' not found. Available families: ubuntu"
    );
    assert_eq!(
        words(LambdaClient::resolve_image_id(refused(500), "ABCD")),
        "Failed to list images: no"
    );
    assert_eq!(words(LambdaClient::list_images(Reply::Unsent)), "Failed to fetch images");
    assert_eq!(
        words(LambdaClient::validate_image_family(Reply::Unreadable, "x")),
        "Failed to parse images response"
    );
}

#[test]
fn every_error_has_its_words() {
    let text = || "x".to_string();
    let pairs = [
        (LambdaError::ApiKeyCommandFailed(text()), "Failed to execute API key command: x"),
        (LambdaError::NoRegionsAvailable(text()), "No regions available for instance type 'x'"),
        (LambdaError::NoInstanceIds, "No instance IDs returned from launch request"),
        (LambdaError::ApiError(text()), "API request failed: x"),
        (LambdaError::SshKeyRequired, "SSH key is required for this operation"),
    ];
    for (error, expected) in pairs {
        assert_eq!(error.to_string(), expected);
    }
    assert_eq!(
        ClientError::Locked("poisoned".to_string()).to_string(),
        "Failed to acquire lock: poisoned"
    );
}
