//! The data that the API exchanges.

use vstd::prelude::*;

verus! {

/// The envelope of every successful answer.
#[derive(Debug)]
pub struct ApiResponse<T> {
    pub data: T,
}

/// The body of a refusal.
#[derive(Debug)]
pub struct ApiErrorResponse {
    pub error: ApiErrorDetail,
}

#[derive(Debug)]
pub struct ApiErrorDetail {
    pub message: String,
}

/// A launched instance. The API may leave any field out.
#[derive(Debug, Clone)]
pub struct Instance {
    pub id: Option<String>,
    pub name: Option<String>,
    pub status: Option<String>,
    pub ip: Option<String>,
    pub ssh_key_names: Option<Vec<String>>,
    pub instance_type: Option<InstanceTypeInfo>,
    pub region: Option<RegionInfo>,
}

#[derive(Debug, Clone)]
pub struct InstanceTypeInfo {
    pub name: Option<String>,
}

#[derive(Debug, Clone)]
pub struct RegionInfo {
    pub name: Option<String>,
}

/// Filesystem (persistent storage) information
#[derive(Debug, Clone)]
pub struct Filesystem {
    pub id: String,
    pub name: String,
    pub mount_point: String,
    pub created: String,
    pub region: FilesystemRegion,
    pub is_in_use: bool,
    pub bytes_used: u64,
}

#[derive(Debug, Clone)]
pub struct FilesystemRegion {
    pub name: String,
    pub description: String,
}

/// The answer to a launch request.
#[derive(Debug)]
pub struct LaunchResponse {
    pub instance_ids: Vec<String>,
}

/// An instance type as it is listed, with the regions that have capacity for it.
#[derive(Debug, Clone)]
pub struct InstanceTypeData {
    pub name: String,
    pub description: String,
    pub price_cents_per_hour: i32,
    pub vcpus: u32,
    pub memory_gib: u32,
    pub storage_gib: u32,
    pub regions_available: Vec<String>,
}

/// What the API says of one instance type.
#[derive(Debug, Clone)]
pub struct InstanceTypeResponse {
    pub instance_type: InstanceType,
    pub regions_with_capacity_available: Vec<Region>,
}

#[derive(Debug, Clone)]
pub struct InstanceType {
    pub description: String,
    pub price_cents_per_hour: i32,
    pub specs: InstanceSpecs,
}

#[derive(Debug, Clone)]
pub struct InstanceSpecs {
    pub vcpus: u32,
    pub memory_gib: u32,
    pub storage_gib: u32,
}

#[derive(Debug, Clone)]
pub struct Region {
    pub name: String,
    pub description: String,
}

/// A base image returned by `GET /images`. Every field except `id` is optional so
/// a null or omitted value in the response doesn't fail the whole list. `region`
/// reuses `RegionInfo` (name-only, lenient), ignoring the region's `description`.
#[derive(Debug, Clone)]
pub struct Image {
    pub id: String,
    pub name: Option<String>,
    pub family: Option<String>,
    pub version: Option<String>,
    pub architecture: Option<String>,
    pub description: Option<String>,
    pub region: Option<RegionInfo>,
}

/// A launched instance and the region it was launched in.
#[derive(Debug, Clone)]
pub struct LaunchResult {
    pub instance_id: String,
    pub region: String,
}

/// The name of a region, where there is one.
pub open spec fn region_name(region: Option<RegionInfo>) -> Option<Seq<char>> {
    match region {
        Some(region) => match region.name {
            Some(name) => Some(name@),
            None => None,
        },
        None => None,
    }
}

/// The names of regions.
pub open spec fn region_names(regions: Seq<Region>) -> Seq<Seq<char>> {
    regions.map_values(|r: Region| r.name@)
}

/// The name of a region, where there is one.
pub(crate) fn name_of(region: &Option<RegionInfo>) -> (name: Option<&String>)
    ensures
        match name {
            Some(name) => region_name(*region) == Some(name@),
            None => region_name(*region) is None,
        },
{
    match region {
        Some(region) => match &region.name {
            Some(name) => Some(name),
            None => None,
        },
        None => None,
    }
}

} // verus!
