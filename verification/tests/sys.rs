use minitcp::proto::ipv4::Ipv4Addr;
use minitcp::sys::docker::{
    down, image_and_pull_policy, is_missing_image, run_args, state, DockerInfo, State, IMAGE_REPO,
};
use minitcp::sys::process::{
    check_output, display_command, is_already_exists, is_does_not_exist, output_detail, read_limited,
    timeout_message, wait_failure, wait_step, WaitStep, AllowedFailure, CommandOutput, LimitedOutput, MAX_COMMAND_OUTPUT,
};
use minitcp::sys::tapdev::{iface_path, owner_uid, tap_down_plan, tap_up_plan, tuntap_add_args, DownPlan, UpPlan};

fn failed(stderr: &str) -> CommandOutput {
    CommandOutput { success: false, code: Some(2), stdout: Vec::new(), stderr: stderr.as_bytes().to_vec() }
}

fn succeeded() -> CommandOutput {
    CommandOutput { success: true, code: Some(0), stdout: b"fine\n".to_vec(), stderr: Vec::new() }
}

// ---------------------------------------------------------------- process

#[test]
fn child_output_is_capped_with_a_visible_marker() {
    let input = vec![b'x'; MAX_COMMAND_OUTPUT + 100];
    let output = read_limited(&input);
    assert_eq!(output.len(), MAX_COMMAND_OUTPUT);
    assert!(
        output.ends_with(b"[output truncated by minitcp]\n"),
        "{}",
        String::from_utf8_lossy(&output[output.len() - 64..])
    );
}

#[test]
fn already_exists_can_be_idempotent() {
    check_output("ip", &["addr", "add"], &failed("RTNETLINK answers: File exists"), AllowedFailure::AlreadyExists)
        .unwrap();
}

#[test]
fn unexpected_failure_includes_command_and_stderr() {
    let error =
        check_output("ip", &["link", "set"], &failed("Operation not permitted"), AllowedFailure::Nothing).unwrap_err();
    assert!(error.contains("ip link set"), "{error}");
    assert!(error.contains("Operation not permitted"), "{error}");
}

#[test]
fn output_that_fits_is_kept_whole() {
    let small = b"hello\n".to_vec();
    assert_eq!(read_limited(&small), small);
    let exact = vec![b'y'; MAX_COMMAND_OUTPUT];
    assert_eq!(read_limited(&exact), exact);
}

#[test]
fn output_read_in_chunks_is_capped_the_same_way() {
    let chunk = vec![b'z'; 300_000];
    let mut limited = LimitedOutput::new();
    let mut whole = Vec::new();
    for _ in 0..4 {
        limited.push(&chunk);
        whole.extend_from_slice(&chunk);
    }
    assert_eq!(limited.finish(), read_limited(&whole));
}

#[test]
fn success_and_gone_things_are_accepted() {
    assert!(check_output("ip", &["link"], &succeeded(), AllowedFailure::Nothing).is_ok());
    assert!(check_output("ip", &["link", "del"], &failed("Cannot find device \"tap0\""), AllowedFailure::DoesNotExist)
        .is_ok());
    assert!(check_output("ip", &["link", "del"], &failed("Cannot find device \"tap0\""), AllowedFailure::AlreadyExists)
        .is_err());
}

#[test]
fn a_failure_reports_its_status_and_detail() {
    let error = check_output("docker", &["rm", "-f", "x"], &failed("  boom \n"), AllowedFailure::Nothing).unwrap_err();
    assert!(error.starts_with("`docker rm -f x` failed"), "{error}");
    assert!(error.ends_with(": boom"), "{error}");
    let silent = CommandOutput { success: false, code: None, stdout: Vec::new(), stderr: Vec::new() };
    let error = check_output("ip", &[], &silent, AllowedFailure::Nothing).unwrap_err();
    assert!(!error.contains(": "), "{error}");
}

#[test]
fn detail_falls_back_to_stdout() {
    let o = CommandOutput { success: false, code: Some(1), stdout: b" from stdout \n".to_vec(), stderr: b"  \n".to_vec() };
    assert_eq!(output_detail(&o), "from stdout");
    assert_eq!(output_detail(&failed("from stderr")), "from stderr");
    assert_eq!(display_command("ip", &["neigh", "show"]), "ip neigh show");
    assert!(is_already_exists("RTNETLINK answers: FILE EXISTS"));
    assert!(is_does_not_exist("Error: Device does not exist."));
    assert!(!is_does_not_exist("permission denied"));
}

// ---------------------------------------------------------------- docker

fn sidecar_case() {
    let (image, pull) = image_and_pull_policy("v1.1.0");
    assert!(image.starts_with(IMAGE_REPO), "{image}");
    let tag = image.rsplit(':').next().unwrap();
    assert_eq!(tag, "1.1.0");
    assert_eq!(pull, "missing");

    let (image, pull) = image_and_pull_policy("0.0.0");
    assert!(image.starts_with(IMAGE_REPO), "{image}");
    assert_eq!(image.rsplit(':').next().unwrap(), "latest");
    assert_eq!(pull, "always");
}

fn unpublished_case() {
    for detail in [
        "manifest unknown",
        "manifest for ghcr.io/dfoshidero/minitcp:9.9.9 not found",
        "Error response from daemon: No such image: minitcp:9.9.9",
    ] {
        assert!(is_missing_image(detail), "{detail}");
    }
}

fn ordinary_case() {
    for detail in ["Cannot connect to the Docker daemon", "port is already allocated", "operation timed out"] {
        assert!(!is_missing_image(detail), "{detail}");
    }
}

#[test]
fn docker_the_sidecar_matches_the_binary_that_launched_it() {
    sidecar_case();
}

#[test]
fn tapcmd_the_sidecar_matches_the_binary_that_launched_it() {
    sidecar_case();
}

#[test]
fn docker_an_unpublished_tag_is_recognised_so_we_can_fall_back() {
    unpublished_case();
}

#[test]
fn tapcmd_an_unpublished_tag_is_recognised_so_we_can_fall_back() {
    unpublished_case();
}

#[test]
fn docker_an_ordinary_failure_is_not_mistaken_for_a_missing_image() {
    ordinary_case();
}

#[test]
fn tapcmd_an_ordinary_failure_is_not_mistaken_for_a_missing_image() {
    ordinary_case();
}

#[test]
fn docker_state_follows_docker_info() {
    assert!(matches!(state(&DockerInfo::Ran(succeeded())), Ok(State::Ready)));
    assert!(matches!(state(&DockerInfo::NotInstalled), Ok(State::Missing)));
    match state(&DockerInfo::Ran(failed("daemon not running"))) {
        Ok(State::Unavailable(d)) => assert_eq!(d, "daemon not running"),
        _ => panic!("expected unavailable"),
    }
    match state(&DockerInfo::Ran(failed(""))) {
        Ok(State::Unavailable(d)) => assert_eq!(d, "docker info exited unsuccessfully"),
        _ => panic!("expected unavailable"),
    }
    let err = state(&DockerInfo::Failed("permission denied".to_string())).unwrap_err();
    assert!(err.contains("cannot check Docker"), "{err}");
}

#[test]
fn the_sidecar_is_started_with_the_tap_and_port() {
    let args = run_args("tap0", Ipv4Addr::new(10, 0, 0, 1), "ghcr.io/dfoshidero/minitcp:1.1.0", "missing");
    assert!(args.iter().any(|a| a == "127.0.0.1:7946:7946"), "{args:?}");
    assert!(args.iter().any(|a| a == "ghcr.io/dfoshidero/minitcp:1.1.0"), "{args:?}");
    assert!(args.iter().any(|a| a.contains("missing")), "{args:?}");
}

#[test]
fn removing_a_sidecar_that_is_not_there_is_not_an_error() {
    assert_eq!(down(&succeeded()), Ok(true));
    assert_eq!(down(&failed("Error: container minitcp-tap does not exist")), Ok(false));
    assert!(down(&failed("permission denied")).is_err());
}

// ---------------------------------------------------------------- tapdev

#[test]
fn a_named_owner_is_handed_the_device() {
    assert_eq!(
        tuntap_add_args("tap0", Some("1000")),
        ["tuntap", "add", "dev", "tap0", "mode", "tap", "user", "1000"]
    );
}

#[test]
fn root_creates_the_device_with_no_owner_clause() {
    assert_eq!(tuntap_add_args("tap0", None), ["tuntap", "add", "dev", "tap0", "mode", "tap"]);
}

#[test]
fn the_owner_is_a_uid_not_a_name() {
    for (uid, sudo) in [(1000, None), (0, Some("1001")), (0, Some(" 42 ")), (0, Some("alice")), (0, None)] {
        if let Some(owner) = owner_uid(uid, sudo) {
            assert!(owner.to_string().chars().all(|c| c.is_ascii_digit()), "owner should be a uid, got {owner}");
        }
    }
    assert_eq!(owner_uid(1000, Some("7")), Some(1000));
    assert_eq!(owner_uid(0, Some("1001")), Some(1001));
    assert_eq!(owner_uid(0, Some("0")), None);
    assert_eq!(owner_uid(0, Some("alice")), None);
    assert_eq!(owner_uid(0, None), None);
}

#[test]
fn the_kernel_lists_interfaces_under_sys() {
    assert_eq!(iface_path("tap0"), "/sys/class/net/tap0");
}

#[test]
fn the_sidecar_is_preferred_whenever_docker_answers() {
    assert_eq!(tap_up_plan(&State::Ready, true), UpPlan::Sidecar);
    assert_eq!(tap_up_plan(&State::Ready, false), UpPlan::Sidecar);
    assert!(matches!(tap_up_plan(&State::Missing, true), UpPlan::Local(_)));
    assert!(matches!(tap_up_plan(&State::Missing, false), UpPlan::Refuse(_, true)));
    assert_eq!(tap_down_plan(&State::Ready, true, true), DownPlan::Done);
    assert!(matches!(tap_down_plan(&State::Missing, false, true), DownPlan::DeleteLocal(_)));
}

#[test]
fn waiting_errors_name_the_command() {
    assert_eq!(wait_failure("ip", &["link", "show"], "no child"), "cannot wait for `ip link show`: no child");
    assert_eq!(timeout_message("docker", &["info"], 10), "`docker info` did not finish within 10s");
}

#[test]
fn waiting_collects_gives_up_or_waits() {
    assert_eq!(wait_step(true, 50_000, 10_000), WaitStep::Collect);
    assert_eq!(wait_step(false, 10_000, 10_000), WaitStep::GiveUp);
    assert_eq!(wait_step(false, 9_999, 10_000), WaitStep::Wait);
}
