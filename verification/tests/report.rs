use lambda_cli::report::{
    format_filesystems, format_image_builds, format_images_in_family, format_instance_types,
    format_instances, places_in_family, price_text, size_divisor,
};
use lambda_cli::types::{
    Filesystem, FilesystemRegion, Image, Instance, InstanceTypeData, InstanceTypeInfo, RegionInfo,
};

fn image(id: &str, family: &str, version: Option<&str>, region: Option<&str>) -> Image {
    Image {
        id: id.to_string(),
        name: None,
        family: Some(family.to_string()),
        version: version.map(String::from),
        architecture: None,
        description: None,
        region: region.map(|name| RegionInfo { name: Some(name.to_string()) }),
    }
}

fn filesystem(bytes_used: u64, is_in_use: bool) -> Filesystem {
    Filesystem {
        id: "fs-1".to_string(),
        name: "data".to_string(),
        mount_point: "/lambda/nfs/data".to_string(),
        created: "2024-01-01".to_string(),
        region: FilesystemRegion {
            name: "us-east-1".to_string(),
            description: "Virginia".to_string(),
        },
        is_in_use,
        bytes_used,
    }
}

fn quotient(bytes: u64) -> String {
    match size_divisor(bytes) {
        Some(divisor) => format!("{:.2}", bytes as f64 / divisor as f64),
        None => String::new(),
    }
}

#[test]
fn prices_have_two_decimals() {
    for cents in [0, 1, 9, 10, 60, 99, 100, 249, 1005, -1, -5, -100, -12345, i32::MAX, i32::MIN] {
        assert_eq!(price_text(cents), format!("{:.2}", cents as f64 / 100.0));
    }
    for cents in -20000..20000 {
        assert_eq!(price_text(cents), format!("{:.2}", cents as f64 / 100.0));
    }
}

#[test]
fn instance_types_are_shown() {
    let types = [
        InstanceTypeData {
            name: "gpu_1x_a10".to_string(),
            description: "1x A10 (24 GB PCIe)".to_string(),
            price_cents_per_hour: 75,
            vcpus: 30,
            memory_gib: 200,
            storage_gib: 1400,
            regions_available: vec!["us-west-1".to_string(), "us-east-1".to_string()],
        },
        InstanceTypeData {
            name: "gpu_8x_h100".to_string(),
            description: "8x H100".to_string(),
            price_cents_per_hour: 2392,
            vcpus: 208,
            memory_gib: 1800,
            storage_gib: 22528,
            regions_available: Vec::new(),
        },
    ];
    assert_eq!(
        format_instance_types(&types),
        "Available GPU Instance Types:\n\n\
         • gpu_1x_a10 - 1x A10 (24 GB PCIe)\n  Price: $0.75/hr | vCPUs: 30 | RAM: 200 GiB | Storage: 1400 GiB\n  Regions: us-west-1, us-east-1\n\n\
         • gpu_8x_h100 - 8x H100\n  Price: $23.92/hr | vCPUs: 208 | RAM: 1800 GiB | Storage: 22528 GiB\n  Regions: No availability\n\n"
    );
    assert_eq!(format_instance_types(&[]), "Available GPU Instance Types:\n\n");
}

#[test]
fn instances_are_shown() {
    let full = Instance {
        id: Some("i-1".to_string()),
        name: Some("dev".to_string()),
        status: Some("active".to_string()),
        ip: Some("10.0.0.1".to_string()),
        ssh_key_names: Some(vec!["a".to_string(), "b".to_string()]),
        instance_type: Some(InstanceTypeInfo { name: Some("gpu_1x_a10".to_string()) }),
        region: Some(RegionInfo { name: Some("us-west-1".to_string()) }),
    };
    let bare = Instance {
        id: None,
        name: None,
        status: None,
        ip: None,
        ssh_key_names: None,
        instance_type: Some(InstanceTypeInfo { name: None }),
        region: None,
    };
    assert_eq!(
        format_instances(&[full, bare]),
        "Running Instances:\n\n\
         • ID: i-1\n  Name: dev | Type: gpu_1x_a10 | Region: us-west-1\n  Status: active | IP: 10.0.0.1\n  SSH Keys: a, b\n\n\
         • ID: N/A\n  Name: - | Type: N/A | Region: N/A\n  Status: unknown | IP: N/A\n  SSH Keys: N/A\n\n"
    );
    assert_eq!(format_instances(&[]), "No running instances.");
}

#[test]
fn size_units_start_above_their_size() {
    assert_eq!(size_divisor(0), None);
    assert_eq!(size_divisor(1_000), None);
    assert_eq!(size_divisor(1_001), Some(1_000));
    assert_eq!(size_divisor(1_000_000), Some(1_000));
    assert_eq!(size_divisor(1_000_001), Some(1_000_000));
    assert_eq!(size_divisor(1_000_000_000), Some(1_000_000));
    assert_eq!(size_divisor(1_000_000_001), Some(1_000_000_000));
    assert_eq!(size_divisor(u64::MAX), Some(1_000_000_000));
}

#[test]
fn filesystems_are_shown() {
    let sizes: [(u64, &str); 6] = [
        (0, "0 B"),
        (1_000, "1000 B"),
        (1_500, "1.50 KB"),
        (1_000_000, "1000.00 KB"),
        (2_345_678, "2.35 MB"),
        (12_300_000_000, "12.30 GB"),
    ];
    for (bytes, size) in sizes {
        let expected = format!(
            "Filesystems:\n\n• data (2024-01-01)\n  ID: fs-1\n  Mount: /lambda/nfs/data\n  Region: us-east-1\n  In Use: Yes | Size: {}\n\n",
            size
        );
        assert_eq!(format_filesystems(&[filesystem(bytes, true)], &[quotient(bytes)]), expected);
    }
    let shown = format_filesystems(&[filesystem(7, false)], &[String::new()]);
    assert!(shown.ends_with("In Use: No | Size: 7 B\n\n"));
    assert_eq!(format_filesystems(&[], &[]), "No filesystems.");
}

#[test]
fn builds_are_shown() {
    let images = vec![
        image("1", "ubuntu", Some("24.4.9"), Some("r1")),
        image("2", "ubuntu", Some("24.4.10"), Some("r2")),
    ];
    assert_eq!(
        format_image_builds(images),
        "Available base images, grouped by family (launch start_instance with a family — region-agnostic, gets the newest build). Pass `family` to this tool to list the individual per-region image ids for a specific build.\n\n\
         • family: ubuntu | latest: 24.4.10 | arch: - | regions: r1, r2\n"
    );
    assert_eq!(format_image_builds(Vec::new()), "No images.");
}

#[test]
fn family_is_shown_newest_first() {
    let mut named = image("1", "ubuntu", Some("24.4.9"), Some("r1"));
    named.name = Some("Ubuntu".to_string());
    named.architecture = Some("arm64".to_string());
    let images = [
        named,
        image("2", "debian", Some("99"), Some("r1")),
        image("3", "ubuntu", Some("24.4.10"), Some("r2")),
        image("4", "ubuntu", Some("24.4.10"), Some("r1")),
        image("5", "ubuntu", Some("24.4.10"), None),
        image("6", "ubuntu", None, Some("r1")),
        image("7", "ubuntu", Some("24-4-10"), Some("r1")),
    ];
    assert_eq!(places_in_family(&images, "ubuntu"), vec![4, 3, 6, 2, 0, 5]);
    assert_eq!(
        format_images_in_family(&images, "ubuntu"),
        "Images in family 'ubuntu' (launch start_instance with one of these ids for an exact build):\n\n\
         • id: 5 | name: - | version: 24.4.10 | arch: - | region: -\n\
         • id: 4 | name: - | version: 24.4.10 | arch: - | region: r1\n\
         • id: 7 | name: - | version: 24-4-10 | arch: - | region: r1\n\
         • id: 3 | name: - | version: 24.4.10 | arch: - | region: r2\n\
         • id: 1 | name: Ubuntu | version: 24.4.9 | arch: arm64 | region: r1\n\
         • id: 6 | name: - | version: - | arch: - | region: r1\n"
    );
}

#[test]
fn unknown_family_has_no_images() {
    assert_eq!(
        format_images_in_family(&[image("1", "ubuntu", None, None)], "debian"),
        "No images in family 'debian'. Call list_images with no family to see available families."
    );
}
