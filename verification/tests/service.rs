use lambda_cli::error::{ClientError, Operation};
use lambda_cli::image::ImageRef;
use lambda_cli::poll::{PollAction, PollEvent, PollStep, Watch};
use lambda_cli::report::{format_image_builds, format_images_in_family};
use lambda_cli::service::{
    channels_notice, check_availability_text, create_filesystem_text, delete_filesystem_text,
    list_images_text, loads_lazily, requested_image, start_instance_text, stop_instance_text,
    watch_after_launch,
};
use lambda_cli::types::{
    Filesystem, FilesystemRegion, Image, Instance, LaunchResult,
};

fn strings(items: &[&str]) -> Vec<String> {
    items.iter().map(|s| s.to_string()).collect()
}

fn watch() -> Watch {
    Watch {
        instance_id: "i-1".to_string(),
        instance_name: Some("dev".to_string()),
        gpu_type: "gpu_1x_a10".to_string(),
        region: "us-west-1".to_string(),
    }
}

fn instance(status: Option<&str>, ip: Option<&str>) -> Instance {
    Instance {
        id: None,
        name: None,
        status: status.map(String::from),
        ip: ip.map(String::from),
        ssh_key_names: None,
        instance_type: None,
        region: None,
    }
}

fn checked(status: Option<&str>, ip: Option<&str>) -> PollStep {
    watch().step(PollEvent::Checked(Ok(instance(status, ip))))
}

fn images() -> Vec<Image> {
    vec![Image {
        id: "1".to_string(),
        name: None,
        family: Some("ubuntu".to_string()),
        version: Some("24.4".to_string()),
        architecture: None,
        description: None,
        region: None,
    }]
}

#[test]
fn image_parameter_is_classified() {
    assert!(requested_image(None).is_none());
    assert!(requested_image(Some("")).is_none());
    assert!(requested_image(Some(" \n")).is_none());
    assert!(matches!(requested_image(Some(" ubuntu ")), Some(ImageRef::Family("ubuntu"))));
    assert!(matches!(
        requested_image(Some("\tf525e0fb0d234f37b765c6aa55bc459a")),
        Some(ImageRef::Id("f525e0fb0d234f37b765c6aa55bc459a"))
    ));
}

#[test]
fn launch_is_answered() {
    let launched = LaunchResult { instance_id: "i-1".to_string(), region: "r1".to_string() };
    let note = "\n\nNote: Instance may take a few minutes to become active. Use 'list_running_instances' to check status.";
    assert_eq!(
        start_instance_text(&launched, None, &None),
        format!("Instance launched successfully!\n\nInstance ID: i-1\nRegion: r1{}", note)
    );
    assert_eq!(
        start_instance_text(&launched, Some("data"), &Some(strings(&["Slack", "Discord"]))),
        format!(
            "Instance launched successfully!\n\nInstance ID: i-1\nRegion: r1\nFilesystem: data (mounted at /lambda/nfs/data){}\n\nNotifications enabled for: Slack, Discord. You will be notified when the instance is SSH-able.",
            note
        )
    );
}

#[test]
fn launch_is_watched_where_channels_are_configured() {
    let launched = LaunchResult { instance_id: "i-1".to_string(), region: "r1".to_string() };
    assert!(watch_after_launch(&launched, Some("dev"), "gpu_1x_a10", &None).is_none());
    let channels = Some(strings(&["Slack"]));
    let named = watch_after_launch(&launched, Some("dev"), "gpu_1x_a10", &channels).unwrap();
    assert_eq!(named.instance_id, "i-1");
    assert_eq!(named.instance_name.as_deref(), Some("dev"));
    assert_eq!(named.gpu_type, "gpu_1x_a10");
    assert_eq!(named.region, "r1");
    let unnamed = watch_after_launch(&launched, None, "gpu_1x_a10", &channels).unwrap();
    assert!(unnamed.instance_name.is_none());
}

#[test]
fn whole_wait_notifies_once() {
    let watch = watch();
    let checks = [
        Err(ClientError::Unsent(Operation::GetInstance)),
        Ok(instance(Some("booting"), None)),
        Ok(instance(Some("booting"), Some("10.0.0.1"))),
        Ok(instance(Some("active"), Some("10.0.0.1"))),
    ];
    let mut left = checks.into_iter();
    let mut sent: usize = 0;
    let mut event = PollEvent::Elapsed { secs: 0, nanos: 0 };
    loop {
        event = match watch.step(event).action {
            PollAction::SleepAndCheck(_) => PollEvent::Checked(left.next().unwrap()),
            PollAction::StartOver => PollEvent::Elapsed { secs: 10, nanos: 0 },
            PollAction::Notify(_) => {
                sent += 1;
                PollEvent::Notified(vec![("Slack".to_string(), None)])
            }
            PollAction::Stop => break,
        };
    }
    assert_eq!(sent, 1);
    assert_eq!(left.count(), 1);
}

#[test]
fn whole_wait_checks_at_most_61_times() {
    let watch = watch();
    let mut checks: u64 = 0;
    let mut events: u64 = 1;
    let mut event = PollEvent::Elapsed { secs: 0, nanos: 0 };
    loop {
        event = match watch.step(event).action {
            PollAction::SleepAndCheck(_) => {
                checks += 1;
                PollEvent::Checked(Ok(instance(Some("booting"), None)))
            }
            PollAction::StartOver => PollEvent::Elapsed { secs: 10 * checks, nanos: 0 },
            PollAction::Notify(_) => panic!("there is no address"),
            PollAction::Stop => break,
        };
        events += 1;
    }
    assert_eq!((checks, events), (61, 123));
}

#[test]
fn termination_and_deletion_are_answered() {
    assert_eq!(stop_instance_text("i-1"), "Instance i-1 terminated successfully.");
    assert_eq!(delete_filesystem_text("fs-1"), "Filesystem fs-1 deleted successfully.");
}

#[test]
fn availability_is_answered() {
    assert_eq!(
        check_availability_text("g", &strings(&[])),
        "GPU type 'g' is currently NOT available in any region."
    );
    assert_eq!(
        check_availability_text("g", &strings(&["a", "b"])),
        "GPU type 'g' is available in: a, b"
    );
}

#[test]
fn images_are_answered_grouped_or_by_family() {
    let grouped = format_image_builds(images());
    for family in [None, Some(""), Some("  ")] {
        assert_eq!(list_images_text(images(), family), grouped);
    }
    for family in ["ubuntu", " ubuntu\n"] {
        assert_eq!(
            list_images_text(images(), Some(family)),
            format_images_in_family(&images(), "ubuntu")
        );
    }
}

#[test]
fn new_filesystem_is_answered() {
    let made = Filesystem {
        id: "fs-1".to_string(),
        name: "data".to_string(),
        mount_point: "/lambda/nfs/data".to_string(),
        created: String::new(),
        region: FilesystemRegion { name: "r1".to_string(), description: String::new() },
        is_in_use: false,
        bytes_used: 0,
    };
    assert_eq!(
        create_filesystem_text(&made),
        "Filesystem created successfully!\n\nName: data\nID: fs-1\nRegion: r1\nMount point: /lambda/nfs/data"
    );
}

#[test]
fn eager_flag_turns_lazy_loading_off() {
    assert!(loads_lazily(&strings(&[])));
    assert!(loads_lazily(&strings(&["lambda-mcp", "--eagerly"])));
    assert!(!loads_lazily(&strings(&["lambda-mcp", "--eager"])));
}

#[test]
fn channels_are_announced() {
    assert_eq!(channels_notice(&None), "[lambda-mcp] No notification channels configured");
    assert_eq!(
        channels_notice(&Some(strings(&["Slack", "Telegram"]))),
        "[lambda-mcp] Notifications configured for: Slack, Telegram"
    );
}

#[test]
fn wait_ends_after_ten_minutes() {
    for (secs, nanos) in [(0, 0), (599, 999_999_999), (600, 0)] {
        let step = watch().step(PollEvent::Elapsed { secs, nanos });
        assert!(matches!(step.action, PollAction::SleepAndCheck(10)));
        assert!(step.log.is_empty());
    }
    for (secs, nanos) in [(600, 1), (601, 0), (u64::MAX, 0)] {
        let step = watch().step(PollEvent::Elapsed { secs, nanos });
        assert!(matches!(step.action, PollAction::Stop));
        assert_eq!(step.log, vec!["[notify] Timeout waiting for instance i-1 to become active"]);
    }
}

#[test]
fn lost_instance_ends_the_wait() {
    for status in ["terminated", "unhealthy"] {
        let step = checked(Some(status), Some("10.0.0.1"));
        assert!(matches!(step.action, PollAction::Stop));
        assert_eq!(
            step.log,
            vec![format!("[notify] Instance i-1 entered {} state, stopping notifications", status)]
        );
    }
}

#[test]
fn address_is_notified_whatever_the_status() {
    for status in [None, Some("booting"), Some("active")] {
        match checked(status, Some("10.0.0.1")).action {
            PollAction::Notify(message) => {
                assert_eq!(message.instance_id, "i-1");
                assert_eq!(message.instance_name.as_deref(), Some("dev"));
                assert_eq!(message.ip, "10.0.0.1");
                assert_eq!(message.gpu_type, "gpu_1x_a10");
                assert_eq!(message.region, "us-west-1");
            }
            other => panic!("{:?}", other),
        }
        assert!(matches!(checked(status, None).action, PollAction::StartOver));
    }
}

#[test]
fn failed_check_does_not_end_the_wait() {
    let error = ClientError::Unsent(Operation::GetInstance);
    let step = watch().step(PollEvent::Checked(Err(error)));
    assert!(matches!(step.action, PollAction::StartOver));
    assert_eq!(
        step.log,
        vec!["[notify] Error checking instance i-1: Failed to fetch instance details"]
    );
}

#[test]
fn notifications_are_reported_and_end_the_wait() {
    let step = watch().step(PollEvent::Notified(vec![
        ("Slack".to_string(), None),
        ("Discord".to_string(), Some("404".to_string())),
    ]));
    assert!(matches!(step.action, PollAction::Stop));
    assert_eq!(
        step.log,
        vec![
            "[notify] Slack notification sent for i-1",
            "[notify] Discord notification failed: 404",
        ]
    );
}
