//! The tools of the MCP server: what they make of their parameters, and what they
//! answer.

use crate::builds::{builds_are_launchable, image_builds};
use crate::image::{image_id_form, ImageRef};
use crate::launch::chosen_image;
use crate::poll::Watch;
use crate::report::{builds_shown, family_shown, format_image_builds, format_images_in_family};
use crate::text::{
    given, given_text, join_texts, joined, opt_str, opt_text, same_text, texts, trimmed,
    trimming_strips_white_space, white_space,
};
use crate::types::{Filesystem, Image, LaunchResult};
use vstd::prelude::*;

verus! {

/// What the server tells its clients about itself.
pub const INSTRUCTIONS: &'static str =
    "Lambda GPU instance management. Use these tools to list available GPU types, launch instances, check running instances, terminate instances, and manage persistent filesystems. Filesystems can be attached to instances at launch time for persistent storage. Requires LAMBDA_API_KEY environment variable to be set.";

/// The image that is requested: an id or a family, by its form.
pub open spec fn image_requested(image: Option<ImageRef>, text: Option<Seq<char>>) -> bool {
    match (image, text) {
        (Some(ImageRef::Id(id)), Some(text)) => id@ == text && image_id_form(text),
        (Some(ImageRef::Family(family)), Some(text)) => family@ == text && !image_id_form(text),
        (None, None) => true,
        _ => false,
    }
}

/// The image that a launch is requested with. The value is trimmed, and an empty
/// one counts as absent: agents often send "" or a value with stray spaces for an
/// optional field.
pub fn requested_image<'a>(image: Option<&'a str>) -> (requested: Option<ImageRef<'a>>)
    ensures
        image_requested(requested, given(opt_str(image))),
{
    match given_text(image) {
        Some(value) => Some(ImageRef::smart(value)),
        None => None,
    }
}

/// Where an attached filesystem is mounted.
pub open spec fn filesystem_note(filesystem: Option<Seq<char>>) -> Seq<char> {
    match filesystem {
        Some(name) => "\nFilesystem: "@ + name + " (mounted at /lambda/nfs/"@ + name + ")"@,
        None => ""@,
    }
}

/// Which channels will be notified, where any is configured.
pub open spec fn notification_note(channels: Option<Seq<Seq<char>>>) -> Seq<char> {
    match channels {
        Some(channels) => "\n\nNotifications enabled for: "@ + joined(channels)
            + ". You will be notified when the instance is SSH-able."@,
        None => ""@,
    }
}

/// The texts of optional strings.
pub open spec fn opt_texts(strings: Option<Vec<String>>) -> Option<Seq<Seq<char>>> {
    match strings {
        Some(strings) => Some(texts(strings@)),
        None => None,
    }
}

/// The answer to a successful launch.
pub open spec fn launch_answer(
    instance_id: Seq<char>,
    region: Seq<char>,
    filesystem: Option<Seq<char>>,
    channels: Option<Seq<Seq<char>>>,
) -> Seq<char> {
    "Instance launched successfully!\n\nInstance ID: "@ + instance_id + "\nRegion: "@ + region
        + filesystem_note(filesystem)
        + "\n\nNote: Instance may take a few minutes to become active. Use 'list_running_instances' to check status."@
        + notification_note(channels)
}

/// The answer to a successful launch.
pub fn start_instance_text(
    launched: &LaunchResult,
    filesystem: Option<&str>,
    channels: &Option<Vec<String>>,
) -> (text: String)
    ensures
        text@ == launch_answer(
            launched.instance_id@,
            launched.region@,
            opt_str(filesystem),
            opt_texts(*channels),
        ),
{
    let note = match filesystem {
        Some(name) => {
            let mut note = "\nFilesystem: ".to_owned();
            note.append(name);
            note.append(" (mounted at /lambda/nfs/");
            note.append(name);
            note.append(")");
            note
        },
        None => "".to_owned(),
    };
    let notified = match channels {
        Some(channels) => {
            let mut notified = "\n\nNotifications enabled for: ".to_owned();
            notified.append(join_texts(channels).as_str());
            notified.append(". You will be notified when the instance is SSH-able.");
            notified
        },
        None => "".to_owned(),
    };
    let mut text = "Instance launched successfully!\n\nInstance ID: ".to_owned();
    text.append(launched.instance_id.as_str());
    text.append("\nRegion: ");
    text.append(launched.region.as_str());
    text.append(note.as_str());
    text.append(
        "\n\nNote: Instance may take a few minutes to become active. Use 'list_running_instances' to check status.",
    );
    text.append(notified.as_str());
    text
}

/// The wait is for the launched instance, of the given name and GPU type.
pub open spec fn watches(
    watch: Watch,
    launched: LaunchResult,
    name: Option<&str>,
    gpu: &str,
) -> bool {
    &&& watch.instance_id@ == launched.instance_id@
    &&& opt_text(watch.instance_name) == opt_str(name)
    &&& watch.gpu_type@ == gpu@
    &&& watch.region@ == launched.region@
}

/// The wait that a successful launch is followed by: for the launched instance where
/// any notification channel is configured, and none otherwise.
pub fn watch_after_launch(
    launched: &LaunchResult,
    name: Option<&str>,
    gpu: &str,
    channels: &Option<Vec<String>>,
) -> (watch: Option<Watch>)
    ensures
        watch is Some <==> *channels is Some,
        watch is Some ==> watches(watch->0, *launched, name, gpu),
{
    match channels {
        Some(_) => {
            let instance_name = match name {
                Some(name) => Some(name.to_owned()),
                None => None,
            };
            Some(
                Watch {
                    instance_id: launched.instance_id.clone(),
                    instance_name,
                    gpu_type: gpu.to_owned(),
                    region: launched.region.clone(),
                },
            )
        },
        None => None,
    }
}

/// The answer to a successful termination.
pub open spec fn termination_answer(instance_id: Seq<char>) -> Seq<char> {
    "Instance "@ + instance_id + " terminated successfully."@
}

/// The answer to a successful termination.
pub fn stop_instance_text(instance_id: &str) -> (text: String)
    ensures
        text@ == termination_answer(instance_id@),
{
    let mut text = "Instance ".to_owned();
    text.append(instance_id);
    text.append(" terminated successfully.");
    text
}

/// In which regions a GPU type is available.
pub open spec fn availability_answer(gpu: Seq<char>, regions: Seq<Seq<char>>) -> Seq<char> {
    if regions.len() == 0 {
        "GPU type '"@ + gpu + "' is currently NOT available in any region."@
    } else {
        "GPU type '"@ + gpu + "' is available in: "@ + joined(regions)
    }
}

/// The answer to an availability check.
pub fn check_availability_text(gpu: &str, regions: &Vec<String>) -> (text: String)
    ensures
        text@ == availability_answer(gpu@, texts(regions@)),
{
    let mut text = "GPU type '".to_owned();
    text.append(gpu);
    if regions.len() == 0 {
        text.append("' is currently NOT available in any region.");
    } else {
        text.append("' is available in: ");
        text.append(join_texts(regions).as_str());
    }
    text
}

/// The answer to a request for images: those of a family where one is given, the
/// grouped view otherwise.
pub open spec fn images_answer(images: Seq<Image>, family: Option<Seq<char>>) -> Seq<char> {
    match given(family) {
        Some(family) => family_shown(images, family),
        None => builds_shown(image_builds(images)),
    }
}

/// The answer to a request for images. An empty/whitespace family counts as absent:
/// agents commonly fill an optional string field with "" and expect the default
/// (grouped) view.
pub fn list_images_text(images: Vec<Image>, family: Option<&str>) -> (text: String)
    ensures
        text@ == images_answer(images@, opt_str(family)),
{
    match given_text(family) {
        Some(family) => format_images_in_family(images.as_slice(), family),
        None => format_image_builds(images),
    }
}

/// The answer to the creation of a filesystem.
pub open spec fn creation_answer(filesystem: Filesystem) -> Seq<char> {
    "Filesystem created successfully!\n\nName: "@ + filesystem.name@ + "\nID: "@ + filesystem.id@
        + "\nRegion: "@ + filesystem.region.name@ + "\nMount point: "@ + filesystem.mount_point@
}

/// The answer to the creation of a filesystem.
pub fn create_filesystem_text(filesystem: &Filesystem) -> (text: String)
    ensures
        text@ == creation_answer(*filesystem),
{
    let mut text = "Filesystem created successfully!\n\nName: ".to_owned();
    text.append(filesystem.name.as_str());
    text.append("\nID: ");
    text.append(filesystem.id.as_str());
    text.append("\nRegion: ");
    text.append(filesystem.region.name.as_str());
    text.append("\nMount point: ");
    text.append(filesystem.mount_point.as_str());
    text
}

/// The answer to the deletion of a filesystem.
pub open spec fn deletion_answer(filesystem_id: Seq<char>) -> Seq<char> {
    "Filesystem "@ + filesystem_id + " deleted successfully."@
}

/// The answer to the deletion of a filesystem.
pub fn delete_filesystem_text(filesystem_id: &str) -> (text: String)
    ensures
        text@ == deletion_answer(filesystem_id@),
{
    let mut text = "Filesystem ".to_owned();
    text.append(filesystem_id);
    text.append(" deleted successfully.");
    text
}

/// The arguments do not ask for the API key to be loaded at startup.
pub open spec fn asks_for_laziness(args: Seq<Seq<char>>) -> bool {
    !args.contains("--eager"@)
}

/// Lazy loading is the default for MCP servers; `--eager` loads the API key at startup.
pub fn loads_lazily(args: &Vec<String>) -> (lazy: bool)
    ensures
        lazy == asks_for_laziness(texts(args@)),
{
    let mut at: usize = 0;
    while at < args.len()
        invariant
            at <= args.len(),
            forall|i: int| 0 <= i < at ==> texts(args@)[i] != "--eager"@,
        decreases args.len() - at,
    {
        if same_text(args[at].as_str(), "--eager") {
            assert(texts(args@)[at as int] == "--eager"@);
            return false;
        }
        at = at + 1;
    }
    true
}

/// What the server reports about its notification channels when it starts.
pub open spec fn notice(channels: Option<Seq<Seq<char>>>) -> Seq<char> {
    match channels {
        Some(channels) => "[lambda-mcp] Notifications configured for: "@ + joined(channels),
        None => "[lambda-mcp] No notification channels configured"@,
    }
}

/// What the server reports about its notification channels when it starts.
pub fn channels_notice(channels: &Option<Vec<String>>) -> (line: String)
    ensures
        line@ == notice(opt_texts(*channels)),
{
    match channels {
        Some(channels) => {
            let mut line = "[lambda-mcp] Notifications configured for: ".to_owned();
            line.append(join_texts(channels).as_str());
            line
        },
        None => "[lambda-mcp] No notification channels configured".to_owned(),
    }
}

/// A family or image that is empty or only white space counts as absent: the grouped
/// view is shown, and the launch is requested without an image.
pub proof fn blank_counts_as_absent(images: Seq<Image>, blank: Seq<char>)
    requires
        forall|i: int| 0 <= i < blank.len() ==> white_space(#[trigger] blank[i]),
    ensures
        given(Some(blank)) is None,
        images_answer(images, Some(blank)) == images_answer(images, None),
        forall|image: Option<ImageRef>| #[trigger]
            image_requested(image, given(Some(blank))) ==> image is None,
{
    trimming_strips_white_space(blank, Seq::empty(), Seq::empty());
    assert(blank + Seq::<char>::empty() + Seq::<char>::empty() =~= blank);
}

/// White space around a family or image makes no difference.
pub proof fn stray_space_is_ignored(
    images: Seq<Image>,
    before: Seq<char>,
    text: Seq<char>,
    after: Seq<char>,
)
    requires
        forall|i: int| 0 <= i < before.len() ==> white_space(#[trigger] before[i]),
        forall|i: int| 0 <= i < after.len() ==> white_space(#[trigger] after[i]),
        text.len() > 0,
        !white_space(text[0]),
        !white_space(text.last()),
    ensures
        given(Some(before + text + after)) == Some(text),
        given(Some(text)) == Some(text),
        images_answer(images, Some(before + text + after)) == images_answer(images, Some(text)),
{
    trimming_strips_white_space(before, text, after);
    trimming_strips_white_space(Seq::empty(), text, Seq::empty());
    assert(Seq::<char>::empty() + text + Seq::<char>::empty() =~= text);
}

/// A family that the grouped view shows can be requested by that name and launched,
/// unless it has white space around it or the form of an image id.
pub proof fn shown_family_can_be_launched(images: Seq<Image>, i: int, image: Option<ImageRef>)
    requires
        0 <= i < image_builds(images).len(),
        trimmed(image_builds(images)[i].family) == image_builds(images)[i].family,
        !image_id_form(image_builds(images)[i].family),
        image_requested(image, given(Some(image_builds(images)[i].family))),
    ensures
        image matches Some(ImageRef::Family(family)) && family@ == image_builds(images)[i].family,
        chosen_image(images, image->0) is Ok,
{
    builds_are_launchable(images, i);
}

/// The image parameter is taken for what its form says, with its own text: for an id where
/// that has the form of one, for a family otherwise, and for no image where nothing is
/// given.
pub proof fn image_is_requested_by_its_form(image: Option<ImageRef>, text: Option<Seq<char>>)
    requires
        image_requested(image, text),
    ensures
        text is None <==> image is None,
        text is Some && image_id_form(text->0) ==> (image matches Some(ImageRef::Id(id)) && id@
            == text->0),
        text is Some && !image_id_form(text->0) ==> (image matches Some(ImageRef::Family(family))
            && family@ == text->0),
{
}

/// A launch is answered with where its filesystem is mounted, where one was attached, and
/// with the channels that will be notified, where any is configured.
pub proof fn launch_notes_read(name: Seq<char>, channels: Vec<String>)
    ensures
        filesystem_note(None) == Seq::<char>::empty(),
        filesystem_note(Some(name)) == "\nFilesystem: "@ + name + " (mounted at /lambda/nfs/"@
            + name + ")"@,
        notification_note(opt_texts(None)) == Seq::<char>::empty(),
        notification_note(opt_texts(Some(channels))) == "\n\nNotifications enabled for: "@
            + joined(texts(channels@))
            + ". You will be notified when the instance is SSH-able."@,
{
    reveal_strlit("");
    assert(""@ =~= Seq::<char>::empty());
}

/// An availability check is answered with the GPU type and all its regions, or that there
/// is none.
pub proof fn availability_answer_reads(gpu: Seq<char>, regions: Seq<Seq<char>>)
    ensures
        regions.len() == 0 ==> availability_answer(gpu, regions) == "GPU type '"@ + gpu
            + "' is currently NOT available in any region."@,
        regions.len() > 0 ==> availability_answer(gpu, regions) == "GPU type '"@ + gpu
            + "' is available in: "@ + joined(regions),
{
}

/// A request for images is answered with the images of the family that is given, and with
/// the grouped view where none is.
pub proof fn images_are_answered_by_family(images: Seq<Image>, family: Option<Seq<char>>)
    ensures
        given(family) is Some ==> images_answer(images, family) == family_shown(
            images,
            given(family)->0,
        ),
        given(family) is None ==> images_answer(images, family) == builds_shown(
            image_builds(images),
        ),
{
}

/// A launch is answered with the id and the region of the launched instance, whatever else
/// was asked for, and then with the notes that belong to it.
pub proof fn launch_answer_reads(
    instance_id: Seq<char>,
    region: Seq<char>,
    name: Seq<char>,
    channels: Seq<Seq<char>>,
)
    ensures
        ({
            let front = "Instance launched successfully!\n\nInstance ID: "@ + instance_id
                + "\nRegion: "@ + region;
            let mounted = "\nFilesystem: "@ + name + " (mounted at /lambda/nfs/"@ + name + ")"@;
            let note =
                "\n\nNote: Instance may take a few minutes to become active. Use 'list_running_instances' to check status."@;
            let told = "\n\nNotifications enabled for: "@ + joined(channels)
                + ". You will be notified when the instance is SSH-able."@;
            &&& launch_answer(instance_id, region, None, None) == front + note
            &&& launch_answer(instance_id, region, Some(name), None) == front + mounted + note
            &&& launch_answer(instance_id, region, None, Some(channels)) == front + note + told
            &&& launch_answer(instance_id, region, Some(name), Some(channels)) == front + mounted
                + note + told
        }),
{
    reveal_strlit("");
    let front = "Instance launched successfully!\n\nInstance ID: "@ + instance_id + "\nRegion: "@
        + region;
    let mounted = "\nFilesystem: "@ + name + " (mounted at /lambda/nfs/"@ + name + ")"@;
    let note =
        "\n\nNote: Instance may take a few minutes to become active. Use 'list_running_instances' to check status."@;
    assert(front + ""@ =~= front);
    assert(front + note + ""@ =~= front + note);
    assert(front + mounted + note + ""@ =~= front + mounted + note);
}

/// A wait after a launch is for that very launch.
pub proof fn launched_instance_is_watched(
    watch: Watch,
    launched: LaunchResult,
    name: Option<&str>,
    gpu: &str,
)
    requires
        watches(watch, launched, name, gpu),
    ensures
        watch.instance_id@ == launched.instance_id@,
        watch.region@ == launched.region@,
        watch.gpu_type@ == gpu@,
        watch.instance_name is Some <==> name is Some,
        name is Some ==> watch.instance_name->0@ == name->0@,
{
}

/// A termination, a deletion and a creation are answered with what was terminated, deleted
/// or created, and with nothing of anything else.
pub proof fn answers_name_their_object(id: Seq<char>, filesystem: Filesystem)
    ensures
        termination_answer(id) == "Instance "@ + id + " terminated successfully."@,
        deletion_answer(id) == "Filesystem "@ + id + " deleted successfully."@,
        creation_answer(filesystem) == "Filesystem created successfully!\n\nName: "@
            + filesystem.name@ + "\nID: "@ + filesystem.id@ + "\nRegion: "@
            + filesystem.region.name@ + "\nMount point: "@ + filesystem.mount_point@,
{
}

/// The key is loaded at startup exactly when some argument is `--eager`, wherever it
/// stands.
pub proof fn eager_needs_its_flag(args: Seq<Seq<char>>)
    ensures
        asks_for_laziness(args) <==> forall|i: int|
            0 <= i < args.len() ==> #[trigger] args[i] != "--eager"@,
{
    if !asks_for_laziness(args) {
        let i = choose|i: int| 0 <= i < args.len() && args[i] == "--eager"@;
        assert(args[i] == "--eager"@);
    }
    if asks_for_laziness(args) {
        assert forall|i: int| 0 <= i < args.len() implies #[trigger] args[i] != "--eager"@ by {
            assert(args.contains(args[i]));
        }
    }
}

/// The notice at startup names all channels that are configured, or says that none is.
pub proof fn notice_names_all_channels(channels: Vec<String>)
    ensures
        notice(opt_texts(None)) == "[lambda-mcp] No notification channels configured"@,
        notice(opt_texts(Some(channels))) == "[lambda-mcp] Notifications configured for: "@
            + joined(texts(channels@)),
{
}

} // verus!
