use lambda_cli::error::LambdaError;
use lambda_cli::http::API_BASE_URL;
use lambda_cli::builds::group_image_builds;
use lambda_cli::image::ImageRef;
use lambda_cli::types::{Image, RegionInfo};
use lambda_cli::version::version_key;

#[test]
fn test_lambda_error_messages() {
    assert_eq!(
        LambdaError::ApiKeyNotSet.to_string(),
        "API key not set. Set LAMBDA_API_KEY or LAMBDA_API_KEY_COMMAND environment variable"
    );
    assert_eq!(
        LambdaError::InstanceTypeNotFound("gpu_1x_a100".to_string()).to_string(),
        "Instance type 'gpu_1x_a100' not found"
    );
}

#[test]
fn test_api_base_url() {
    assert_eq!(API_BASE_URL, "https://cloud.lambdalabs.com/api/v1");
}

#[test]
fn test_image_ref_smart_detects_id_vs_family() {
    // Real ids are UUIDs (hyphenated) or bare 32-hex; families are slugs.
    for id in [
        "f9ba07bd-c60b-4e08-ab29-5d9be6bd62d0",
        "f525e0fb0d234f37b765c6aa55bc459a",
    ] {
        assert!(
            matches!(ImageRef::smart(id), ImageRef::Id(_)),
            "{id} should be an id"
        );
    }
    for family in [
        "lambda-stack-24-04",
        "gpu-base-22-04",
        "ubuntu-24-04",
        "lambda-stack-legacy-22-04",
    ] {
        assert!(
            matches!(ImageRef::smart(family), ImageRef::Family(_)),
            "{family} should be a family"
        );
    }
}

#[test]
fn test_version_key_orders_numerically() {
    // Purely numeric ordering, so 24.4.10 is newer than 24.4.9 (lexical sort
    // would get this wrong) and build suffixes are compared as numbers.
    assert!(version_key("24.4.10-2141") > version_key("24.4.9-9999"));
    assert!(version_key("24.4.4-2141") > version_key("24.4.3-1722"));
    assert!(version_key("22.4.5-20250702") > version_key("22.4.5-20250626"));
    // Non-numeric / empty inputs are handled without panicking.
    assert_eq!(version_key("-"), Vec::<u64>::new());
    assert!(version_key("1.0") > version_key("-"));
}

#[test]
fn test_group_image_builds_dedups_by_family_arch() {
    let img = |id: &str, family: Option<&str>, version: &str, arch: &str, region: &str| Image {
        id: id.to_string(),
        name: None,
        family: family.map(String::from),
        version: Some(version.to_string()),
        architecture: Some(arch.to_string()),
        description: None,
        region: Some(RegionInfo {
            name: Some(region.to_string()),
        }),
    };
    let images = vec![
        // Regions deliberately out of order and duplicated across the two x86_64
        // rows; the newest version is the 3rd row, not the last inserted.
        img("a", Some("ls-24"), "24.4.4-2141", "x86_64", "us-west-1"),
        img("b", Some("ls-24"), "24.4.3-1722", "x86_64", "us-east-1"),
        img("c", Some("ls-24"), "24.4.4-2141", "x86_64", "us-west-1"),
        img("d", Some("ls-24"), "24.4.4-2141", "arm64", "us-east-3"),
        // A null-family image buckets under "-" and must not merge with ls-24.
        img("e", None, "1.0", "x86_64", "eu-west-1"),
    ];
    let builds = group_image_builds(images);
    // (ls-24, x86_64) and (ls-24, arm64) => two builds; the family-less image
    // is excluded (not launchable via a family).
    assert_eq!(builds.len(), 2);

    let x86 = builds
        .iter()
        .find(|b| b.family == "ls-24" && b.arch == "x86_64")
        .unwrap();
    assert_eq!(x86.latest_version, "24.4.4-2141");
    // Sorted and de-duplicated despite out-of-order, duplicated inputs.
    assert_eq!(x86.regions, vec!["us-east-1", "us-west-1"]);
    assert_eq!(x86.regions_summary(), "us-east-1, us-west-1");

    // A family-less image is never presented as a launchable "-" family.
    assert!(builds.iter().all(|b| b.family != "-"));
}
