//! The requests that the calls are made with.

use crate::http::{API_BASE_URL, ApiRequest, Method};
use crate::json::{json_content, json_object, json_set, json_single, json_text, Json};
use vstd::prelude::*;

verus! {

/// The request goes to the given path below the API's address, with the given
/// JSON document.
pub open spec fn asks(
    request: ApiRequest,
    method: Method,
    path: Seq<char>,
    body: Option<Json>,
) -> bool {
    &&& request.method == method
    &&& request.url@ == API_BASE_URL@ + path
    &&& match (request.body, body) {
        (Some(value), Some(content)) => json_content(value) == content,
        (None, None) => true,
        _ => false,
    }
}

/// The value of the `Authorization` header.
pub open spec fn bearer(api_key: Seq<char>) -> Seq<char> {
    "Bearer "@ + api_key
}

/// The value of the `Authorization` header.
pub fn authorization(api_key: &str) -> (header: String)
    ensures
        header@ == bearer(api_key@),
{
    let mut header = "Bearer ".to_owned();
    header.append(api_key);
    header
}

/// A request without a document.
pub(crate) fn plain_request(method: Method, path: &str) -> (request: ApiRequest)
    ensures
        asks(request, method, path@, None),
{
    let mut url = API_BASE_URL.to_owned();
    url.append(path);
    ApiRequest { method, url, body: None }
}

/// A request with a document.
pub(crate) fn body_request(method: Method, path: &str, body: serde_json::Value) -> (request:
    ApiRequest)
    ensures
        asks(request, method, path@, Some(json_content(body))),
{
    let mut url = API_BASE_URL.to_owned();
    url.append(path);
    ApiRequest { method, url, body: Some(body) }
}

/// Validating the key asks for the running instances.
pub fn validate_api_key_request() -> (request: ApiRequest)
    ensures
        asks(request, Method::Get, "/instances"@, None),
{
    plain_request(Method::Get, "/instances")
}

/// Listing and looking up instance types ask for all of them.
pub fn instance_types_request() -> (request: ApiRequest)
    ensures
        asks(request, Method::Get, "/instance-types"@, None),
{
    plain_request(Method::Get, "/instance-types")
}

/// The document that names one instance to terminate.
pub open spec fn terminate_document(instance_id: Seq<char>) -> Json {
    Json::Object(Map::empty().insert("instance_ids"@, Json::List(seq![Json::Text(instance_id)])))
}

/// Terminating an instance posts its id.
pub fn terminate_instance_request(instance_id: &str) -> (request: ApiRequest)
    ensures
        asks(
            request,
            Method::Post,
            "/instance-operations/terminate"@,
            Some(terminate_document(instance_id@)),
        ),
{
    let mut body = json_object();
    json_set(&mut body, "instance_ids", json_single(instance_id));
    body_request(Method::Post, "/instance-operations/terminate", body)
}

/// Listing the running instances.
pub fn list_running_instances_request() -> (request: ApiRequest)
    ensures
        asks(request, Method::Get, "/instances"@, None),
{
    plain_request(Method::Get, "/instances")
}

/// Where one instance is found below the API's address.
pub open spec fn instance_path(instance_id: Seq<char>) -> Seq<char> {
    "/instances/"@ + instance_id
}

/// Asking for one instance.
pub fn get_instance_request(instance_id: &str) -> (request: ApiRequest)
    ensures
        asks(request, Method::Get, instance_path(instance_id@), None),
{
    let mut path = "/instances/".to_owned();
    path.append(instance_id);
    plain_request(Method::Get, path.as_str())
}

/// Listing the images.
pub fn list_images_request() -> (request: ApiRequest)
    ensures
        asks(request, Method::Get, "/images"@, None),
{
    plain_request(Method::Get, "/images")
}

/// Listing the filesystems.
pub fn list_filesystems_request() -> (request: ApiRequest)
    ensures
        asks(request, Method::Get, "/file-systems"@, None),
{
    plain_request(Method::Get, "/file-systems")
}

/// The document that describes a filesystem to create.
pub open spec fn create_filesystem_document(name: Seq<char>, region: Seq<char>) -> Json {
    Json::Object(
        Map::empty().insert("name"@, Json::Text(name)).insert("region_name"@, Json::Text(region)),
    )
}

/// Creating a filesystem posts its description.
pub fn create_filesystem_request(name: &str, region: &str) -> (request: ApiRequest)
    ensures
        asks(
            request,
            Method::Post,
            "/file-systems"@,
            Some(create_filesystem_document(name@, region@)),
        ),
{
    let mut body = json_object();
    json_set(&mut body, "name", json_text(name));
    json_set(&mut body, "region_name", json_text(region));
    body_request(Method::Post, "/file-systems", body)
}

/// Where one filesystem is found below the API's address.
pub open spec fn filesystem_path(filesystem_id: Seq<char>) -> Seq<char> {
    "/file-systems/"@ + filesystem_id
}

/// Deleting a filesystem.
pub fn delete_filesystem_request(filesystem_id: &str) -> (request: ApiRequest)
    ensures
        asks(request, Method::Delete, filesystem_path(filesystem_id@), None),
{
    let mut path = "/file-systems/".to_owned();
    path.append(filesystem_id);
    plain_request(Method::Delete, path.as_str())
}

/// The request has the given method and goes to the given path below the API's address.
pub open spec fn asks_at(request: ApiRequest, method: Method, path: Seq<char>) -> bool {
    request.method == method && request.url@ == API_BASE_URL@ + path
}

/// A request that is as expected goes to the right address, and carries a document exactly
/// where one is expected, which is that one.
pub proof fn request_is_as_expected(
    request: ApiRequest,
    method: Method,
    path: Seq<char>,
    body: Option<Json>,
)
    requires
        asks(request, method, path, body),
    ensures
        asks_at(request, method, path),
        request.body is Some <==> body is Some,
        body is Some ==> json_content(request.body->0) == body->0,
{
}

/// What is terminated is the one instance: the document has one member, a list of that id
/// alone.
pub proof fn one_instance_is_terminated(instance_id: Seq<char>)
    ensures
        ({
            let document = terminate_document(instance_id);
            &&& document is Object
            &&& forall|key: Seq<char>| #[trigger]
                document->Object_0.contains_key(key) <==> key == "instance_ids"@
            &&& document->Object_0["instance_ids"@] is List
            &&& document->Object_0["instance_ids"@]->List_0.len() == 1
            &&& document->Object_0["instance_ids"@]->List_0[0] == Json::Text(instance_id)
        }),
{
}

/// A filesystem is created with its own name in its own region, and nothing else is said.
pub proof fn filesystem_is_created_as_named(name: Seq<char>, region: Seq<char>)
    ensures
        ({
            let document = create_filesystem_document(name, region);
            &&& document is Object
            &&& forall|key: Seq<char>| #[trigger]
                document->Object_0.contains_key(key) <==> key == "name"@ || key == "region_name"@
            &&& document->Object_0["name"@] == Json::Text(name)
            &&& document->Object_0["region_name"@] == Json::Text(region)
        }),
{
    reveal_strlit("name");
    reveal_strlit("region_name");
    assert("name"@.len() == 4 && "region_name"@.len() == 11);
}

/// The key itself, and the id of what is asked for or deleted itself, stand at the end of
/// the header and of the addresses.
pub proof fn key_and_ids_are_sent_as_given(text: Seq<char>)
    ensures
        bearer(text) == "Bearer "@ + text,
        instance_path(text) == "/instances/"@ + text,
        filesystem_path(text) == "/file-systems/"@ + text,
{
}

} // verus!
