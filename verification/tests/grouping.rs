use lambda_cli::builds::{group_image_builds, ImageBuild};
use lambda_cli::error::ClientError;
use lambda_cli::image::{canonical_id, check_family, find_image, looks_like_image_id, ImageRef};
use lambda_cli::types::{Image, RegionInfo};

fn image(
    id: &str,
    family: Option<&str>,
    version: Option<&str>,
    arch: Option<&str>,
    region: Option<&str>,
) -> Image {
    Image {
        id: id.to_string(),
        name: None,
        family: family.map(String::from),
        version: version.map(String::from),
        architecture: arch.map(String::from),
        description: None,
        region: region.map(|name| RegionInfo { name: Some(name.to_string()) }),
    }
}

fn shape(builds: &[ImageBuild]) -> Vec<(String, String, String, Vec<String>)> {
    builds
        .iter()
        .map(|b| {
            (
                b.family.clone(),
                b.arch.clone(),
                b.latest_version.clone(),
                b.regions.clone(),
            )
        })
        .collect()
}

fn build_in(regions: &[&str]) -> ImageBuild {
    ImageBuild {
        family: "f".to_string(),
        arch: "-".to_string(),
        latest_version: "1".to_string(),
        regions: regions.iter().map(|r| r.to_string()).collect(),
    }
}

#[test]
fn builds_are_ordered_by_family_and_arch() {
    let builds = group_image_builds(vec![
        image("1", Some("b"), Some("1"), Some("x86_64"), None),
        image("2", Some("a"), Some("1"), Some("x86_64"), None),
        image("3", Some("b"), Some("1"), Some("arm64"), None),
        image("4", Some("a"), Some("1"), None, None),
    ]);
    let keys: Vec<(&str, &str)> =
        builds.iter().map(|b| (b.family.as_str(), b.arch.as_str())).collect();
    assert_eq!(keys, vec![("a", "-"), ("a", "x86_64"), ("b", "arm64"), ("b", "x86_64")]);
    assert!(builds.iter().all(|b| b.regions.is_empty()));
}

#[test]
fn newest_version_wins_numerically() {
    let builds = group_image_builds(vec![
        image("1", Some("a"), Some("24.4.9-9999"), None, Some("r2")),
        image("2", Some("a"), Some("24.4.10-1"), None, Some("r1")),
        image("3", Some("a"), None, None, Some("r2")),
        image("4", Some("a"), Some(""), None, Some("r3")),
    ]);
    assert_eq!(builds.len(), 1);
    assert_eq!(builds[0].latest_version, "24.4.10-1");
    assert_eq!(builds[0].regions, vec!["r1", "r2", "r3"]);
}

#[test]
fn first_of_equally_new_versions_is_kept() {
    let builds = group_image_builds(vec![
        image("1", Some("a"), Some("1.0-b"), None, None),
        image("2", Some("a"), Some("1.0-a"), None, None),
    ]);
    assert_eq!(builds[0].latest_version, "1.0-b");
    let versionless = group_image_builds(vec![image("1", Some("a"), Some(""), None, None)]);
    assert_eq!(versionless[0].latest_version, "-");
}

#[test]
fn images_without_family_have_no_build() {
    let builds = group_image_builds(vec![
        image("1", None, Some("1"), None, None),
        image("2", Some(""), Some("1"), None, None),
    ]);
    assert!(builds.is_empty());
    assert!(group_image_builds(Vec::new()).is_empty());
}

#[test]
fn build_order_does_not_depend_on_image_order() {
    let images = vec![
        image("1", Some("b"), Some("1.2"), Some("x"), Some("r3")),
        image("2", Some("a"), Some("7"), Some("x"), Some("r1")),
        image("3", Some("b"), Some("1.10"), Some("x"), Some("r2")),
        image("3", Some("b"), Some("1.10"), Some("x"), Some("r2")),
    ];
    let mut turned = images.clone();
    turned.reverse();
    turned.push(images[1].clone());
    assert_eq!(shape(&group_image_builds(images)), shape(&group_image_builds(turned)));
}

#[test]
fn repeats_and_familyless_images_change_no_build() {
    let images = vec![
        image("1", Some("b"), Some("1.0-x"), Some("x"), Some("r3")),
        image("2", Some("a"), Some("7"), Some("x"), Some("r1")),
        image("3", Some("b"), Some("1.0-y"), Some("x"), Some("r2")),
    ];
    let mut more = images.clone();
    more.push(images[2].clone());
    more.push(image("4", None, Some("99"), Some("x"), Some("r9")));
    more.push(image("5", Some(""), Some("99"), Some("x"), Some("r9")));
    more.push(images[0].clone());
    assert_eq!(shape(&group_image_builds(images)), shape(&group_image_builds(more)));
}

#[test]
fn canonical_form_is_taken_piece_by_piece() {
    for (a, b) in [("", "AB"), ("A-", "-b"), ("ÄF9", "\u{130}-C")] {
        let both = format!("{}{}", a, b);
        assert_eq!(canonical_id(&both), format!("{}{}", canonical_id(a), canonical_id(b)));
    }
}

#[test]
fn regions_are_summarized() {
    assert_eq!(build_in(&[]).regions_summary(), "-");
    assert_eq!(build_in(&["a"]).regions_summary(), "a");
    assert_eq!(build_in(&["a", "b", "c", "d"]).regions_summary(), "a, b, c, d");
    assert_eq!(build_in(&["a", "b", "c", "d", "e"]).regions_summary(), "5 regions");
}

#[test]
fn image_ids_have_32_hex_digits() {
    assert!(looks_like_image_id("F525E0FB0D234F37B765C6AA55BC459A"));
    assert!(looks_like_image_id("-f525e0fb0d234f37b765c6aa55bc459a-"));
    assert!(!looks_like_image_id("f525e0fb0d234f37b765c6aa55bc459"));
    assert!(!looks_like_image_id("f525e0fb0d234f37b765c6aa55bc459a0"));
    assert!(!looks_like_image_id("g525e0fb0d234f37b765c6aa55bc459a"));
    assert!(!looks_like_image_id(""));
    assert!(matches!(ImageRef::smart(""), ImageRef::Family("")));
}

#[test]
fn canonical_form_drops_hyphens_and_case() {
    assert_eq!(
        canonical_id("F9BA07BD-c60b-4E08-ab29-5d9be6bd62d0"),
        "f9ba07bdc60b4e08ab295d9be6bd62d0"
    );
    assert_eq!(canonical_id("-"), "");
    for c in '\0'..='\u{7f}' {
        if c != '-' {
            assert_eq!(canonical_id(&c.to_string()), c.to_lowercase().collect::<String>());
        }
    }
}

#[test]
fn canonical_form_lowers_unicode_letters() {
    assert_eq!(canonical_id("ÄB"), "äb");
    assert_eq!(canonical_id("\u{130}"), "i\u{307}");
    assert_eq!(canonical_id("ß"), "ß");
}

#[test]
fn canonical_form_keeps_the_form_of_an_id() {
    for id in ["F9BA07BD-c60b-4E08-ab29-5d9be6bd62d0", "f525e0fb0d234f37b765c6aa55bc459a"] {
        let form = canonical_id(id);
        assert!(looks_like_image_id(&form));
        assert_eq!(form.len(), 32);
        assert!(form.chars().all(|c| matches!(c, '0'..='9' | 'a'..='f')));
    }
    for text in ["", "-", "lambda-stack-24-04", "F9BA07BD", "G525E0FB0D234F37B765C6AA55BC459A"] {
        assert!(!looks_like_image_id(&canonical_id(text)));
    }
}

#[test]
fn id_is_found_in_any_form() {
    let images = vec![
        image("0000", None, None, None, Some("elsewhere")),
        image("ab-CD", None, None, None, Some("us-west-1")),
        image("ABCD", None, None, None, Some("us-east-1")),
        image("abcd", None, None, None, Some("us-west-1")),
        image("a-b-c-d", None, None, None, None),
    ];
    for id in ["abcd", "AB-CD", "a-bcd"] {
        let (own_id, regions) = find_image(&images, id).unwrap();
        assert_eq!(own_id, "ab-CD");
        assert_eq!(regions, vec!["us-east-1", "us-west-1"]);
    }
}

#[test]
fn id_without_regions_is_found() {
    let mut bare = image("abcd", None, None, None, None);
    bare.region = Some(RegionInfo { name: None });
    let (own_id, regions) = find_image(&vec![bare], "ABCD").unwrap();
    assert_eq!(own_id, "abcd");
    assert!(regions.is_empty());
}

#[test]
fn unknown_id_is_named() {
    let error = find_image(&vec![image("abcd", None, None, None, None)], "Ab-ce").unwrap_err();
    assert!(matches!(&error, ClientError::ImageIdNotFound(id) if id == "Ab-ce"));
    assert_eq!(
        error.to_string(),
        "Image id 'Ab-ce' not found. Run `lambda images` to see valid ids."
    );
}

#[test]
fn unknown_family_lists_the_known_ones() {
    let images = vec![
        image("1", Some("ubuntu"), None, None, None),
        image("2", Some("lambda-stack"), None, None, None),
        image("3", None, None, None, None),
        image("4", Some("ubuntu"), None, None, None),
    ];
    assert!(check_family(&images, "ubuntu").is_ok());
    assert_eq!(
        check_family(&images, "Ubuntu").unwrap_err().to_string(),
        "Image family 'Ubuntu' not found. Available families: lambda-stack, ubuntu"
    );
}

#[test]
fn every_build_family_is_valid() {
    let images = vec![
        image("1", Some("ubuntu"), None, None, None),
        image("2", Some(""), None, None, None),
        image("3", Some("lambda-stack"), None, None, None),
    ];
    for build in group_image_builds(images.clone()) {
        assert!(check_family(&images, &build.family).is_ok());
    }
}
