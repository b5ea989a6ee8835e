use minitcp::tui::buffer::{Buffer, MAX_LINES};
use minitcp::tui::capture::{dump_command, explain_dump_failure, explain_no_pid, CaptureHost, DumpFilter};
use minitcp::tui::lab::{Counters, Key, KeyPress, Lab, LabAction, Pane};

fn numbered() -> Buffer {
    let mut buffer = Buffer::new();
    for n in 1..=5 {
        buffer.push(n.to_string());
    }
    buffer
}

fn scrolls_case() {
    let mut buffer = numbered();
    assert_eq!(buffer.visible(2), ["4", "5"]);
    buffer.scroll_up(2);
    assert_eq!(buffer.visible(2), ["2", "3"]);
    buffer.follow();
    assert_eq!(buffer.visible(2), ["4", "5"]);
}

fn paused_case() {
    let mut buffer = numbered();
    assert_eq!(buffer.visible(2), ["4", "5"]);
    buffer.scroll_up(2);
    buffer.push("6".into());
    assert_eq!(buffer.visible(2), ["2", "3"]);

    buffer.push_output("7".into(), true);
    assert!(buffer.auto_follow);
    assert_eq!(buffer.visible(2), ["6", "7"]);
}

fn pause_at_bottom_case() {
    let mut buffer = numbered();
    assert_eq!(buffer.visible(2), ["4", "5"]);
    buffer.toggle_follow();
    buffer.push("6".into());
    assert!(!buffer.auto_follow);
    assert_eq!(buffer.visible(2), ["4", "5"]);
}

fn no_overflow_case() {
    let mut buffer = Buffer::new();
    buffer.push("first".into());
    buffer.push("second".into());

    assert_eq!(buffer.visible(4), ["first", "second"]);
    buffer.scroll_up(5);
    assert_eq!(buffer.from_bottom, 0);
    assert_eq!(buffer.visible(4), ["first", "second"]);
}

fn clear_case() {
    let mut buffer = Buffer::new();
    buffer.push("packet".into());
    buffer.clear();
    assert!(buffer.visible(10).is_empty());
}

#[test]
fn buffer_buffer_scrolls_and_returns_to_latest_output() {
    scrolls_case();
}

#[test]
fn mod_buffer_scrolls_and_returns_to_latest_output() {
    scrolls_case();
}

#[test]
fn buffer_paused_buffer_stays_put_until_live_follow_is_restored() {
    paused_case();
}

#[test]
fn mod_paused_buffer_stays_put_until_live_follow_is_restored() {
    paused_case();
}

#[test]
fn buffer_live_follow_can_be_paused_while_at_the_bottom() {
    pause_at_bottom_case();
}

#[test]
fn mod_live_follow_can_be_paused_while_at_the_bottom() {
    pause_at_bottom_case();
}

#[test]
fn buffer_buffer_does_not_scroll_until_it_overflows_the_pane() {
    no_overflow_case();
}

#[test]
fn mod_buffer_does_not_scroll_until_it_overflows_the_pane() {
    no_overflow_case();
}

#[test]
fn buffer_buffer_clear_removes_scrollback() {
    clear_case();
}

#[test]
fn mod_buffer_clear_removes_scrollback() {
    clear_case();
}

fn filter_cycle_case() {
    assert!(DumpFilter::All.next() == DumpFilter::Arp);
    assert!(DumpFilter::Arp.next() == DumpFilter::Ip);
    assert!(DumpFilter::Ip.next() == DumpFilter::All);
}

fn local_title_case() {
    assert_eq!(DumpFilter::All.title("tap0", CaptureHost::Local), "tcpdump -eni tap0 -l");
}

fn sidecar_title_case() {
    assert_eq!(
        DumpFilter::Arp.title("tap0", CaptureHost::Sidecar),
        "docker exec minitcp-tap tcpdump -eni tap0 -l arp"
    );
}

fn location_case() {
    for filter in [DumpFilter::All, DumpFilter::Arp, DumpFilter::Ip] {
        for host in [CaptureHost::Local, CaptureHost::Sidecar] {
            let title = filter.title("tap0", host);
            assert!(title.contains("tcpdump -eni tap0 -l"), "{title}");
            assert!(title.ends_with(filter.expression()), "{title}");
            assert_eq!(title.starts_with("docker exec"), host == CaptureHost::Sidecar, "{title}");
        }
    }
}

fn missing_tool_case() {
    let local = explain_dump_failure(CaptureHost::Local, true, "No such file or directory");
    assert!(local.contains("sudo"), "{local}");

    let sidecar = explain_dump_failure(CaptureHost::Sidecar, true, "No such file or directory");
    assert!(sidecar.contains("docker"), "{sidecar}");

    assert_eq!(explain_dump_failure(CaptureHost::Local, false, "disk on fire"), "disk on fire");
}

#[test]
fn child_dump_filter_cycles_through_each_view() {
    filter_cycle_case();
}

#[test]
fn mod_dump_filter_cycles_through_each_view() {
    filter_cycle_case();
}

#[test]
fn child_a_local_tap_is_captured_on_this_host() {
    local_title_case();
}

#[test]
fn mod_a_local_tap_is_captured_on_this_host() {
    local_title_case();
}

#[test]
fn child_a_sidecar_tap_is_captured_inside_the_container() {
    sidecar_title_case();
}

#[test]
fn mod_a_sidecar_tap_is_captured_inside_the_container() {
    sidecar_title_case();
}

#[test]
fn child_the_filter_only_changes_the_expression_not_the_location() {
    location_case();
}

#[test]
fn mod_the_filter_only_changes_the_expression_not_the_location() {
    location_case();
}

#[test]
fn child_a_capture_that_cannot_start_says_which_tool_is_missing() {
    missing_tool_case();
}

#[test]
fn mod_a_capture_that_cannot_start_says_which_tool_is_missing() {
    missing_tool_case();
}

// ------------------------------------------------------------ more cases

#[test]
fn the_capture_command_runs_where_the_tap_is() {
    let (program, args, _) = dump_command(DumpFilter::Ip, "tap0", CaptureHost::Sidecar);
    assert_eq!(program, "docker");
    assert!(args.iter().any(|a| a == "minitcp-tap"), "{args:?}");
    assert!(args.iter().any(|a| a.contains("tcpdump -eni tap0 -l ip")), "{args:?}");
    let (program, _, _) = dump_command(DumpFilter::All, "tap0", CaptureHost::Local);
    assert_eq!(program, "sudo");
    assert!(explain_no_pid(CaptureHost::Local).contains("sudo -v"));
    assert!(explain_no_pid(CaptureHost::Sidecar).contains("minitcp tap up"));
}

#[test]
fn a_buffer_keeps_only_the_latest_lines() {
    let mut buffer = Buffer::new();
    for n in 0..(MAX_LINES + 10) {
        buffer.push(n.to_string());
    }
    assert_eq!(buffer.lines.len(), MAX_LINES);
    assert_eq!(buffer.lines[0], "10");
    assert_eq!(buffer.visible(1), [(MAX_LINES + 9).to_string()]);
}

#[test]
fn scrolling_down_returns_toward_the_latest_output() {
    let mut buffer = numbered();
    buffer.visible(2);
    buffer.scroll_up(3);
    assert_eq!(buffer.visible(2), ["1", "2"]);
    buffer.scroll_down(1);
    assert_eq!(buffer.visible(2), ["2", "3"]);
    buffer.scroll_down(10);
    assert_eq!(buffer.from_bottom, 0);
    assert_eq!(buffer.page_size(), 1);
}

fn press(key: Key) -> KeyPress {
    KeyPress { key, press: true, ctrl: false, alt: false }
}

#[test]
fn keys_move_focus_and_name_actions() {
    let mut lab = Lab::new(true);
    assert_eq!(lab.focus, Pane::Stack);
    assert_eq!(lab.handle_key(press(Key::Tab)), LabAction::Nothing);
    assert_eq!(lab.focus, Pane::Dump);
    assert_eq!(lab.handle_key(press(Key::Char('3'))), LabAction::Nothing);
    assert_eq!(lab.focus, Pane::Actions);
    assert_eq!(lab.handle_key(press(Key::Char('p'))), LabAction::Ping);
    assert_eq!(lab.handle_key(press(Key::Char('n'))), LabAction::Neighbours);
    assert_eq!(lab.handle_key(press(Key::Char('f'))), LabAction::FlushNeighbours);
    assert_eq!(lab.handle_key(press(Key::Char('r'))), LabAction::RestartStack);
    assert_eq!(lab.handle_key(press(Key::Char('d'))), LabAction::RestartDump);
    assert_eq!(lab.filter, DumpFilter::Arp);
    assert_eq!(lab.handle_key(press(Key::Char('v'))), LabAction::ToggleVerbose);
    assert!(!lab.verbose);
    assert_eq!(lab.handle_key(press(Key::Char('q'))), LabAction::Quit);
    let released = KeyPress { key: Key::Char('q'), press: false, ctrl: false, alt: false };
    assert_eq!(lab.handle_key(released), LabAction::Nothing);
    let ctrl_c = KeyPress { key: Key::Char('c'), press: true, ctrl: true, alt: false };
    assert_eq!(lab.handle_key(ctrl_c), LabAction::Quit);
}

#[test]
fn a_typed_command_is_edited_then_run() {
    let mut lab = Lab::new(true);
    lab.handle_key(press(Key::Char(':')));
    assert_eq!(lab.focus, Pane::Actions);
    for c in "ip aq".chars() {
        assert_eq!(lab.handle_key(press(Key::Char(c))), LabAction::Nothing);
    }
    lab.handle_key(press(Key::Backspace));
    assert_eq!(lab.handle_key(press(Key::Char('q'))), LabAction::Nothing);
    assert_eq!(lab.command_input.as_deref(), Some("ip aq"));
    assert_eq!(lab.handle_key(press(Key::Enter)), LabAction::RunCommand("ip aq".to_string()));
    assert!(lab.command_input.is_none());

    let started = lab.begin_command("  ip a  ", false);
    assert_eq!(started.as_deref(), Some("ip a"));
    assert_eq!(lab.action_buf.lines.back().map(|s| s.as_str()), Some("$ ip a"));
    assert_eq!(lab.begin_command("ls", true), None);
    assert_eq!(
        lab.action_buf.lines.back().map(|s| s.as_str()),
        Some("a command is already running; wait for it to finish")
    );
    assert_eq!(lab.begin_command("   ", false), None);
}

#[test]
fn escape_abandons_a_command() {
    let mut lab = Lab::new(false);
    lab.handle_key(press(Key::Char(':')));
    lab.handle_key(press(Key::Char('x')));
    assert_eq!(lab.handle_key(press(Key::Esc)), LabAction::Nothing);
    assert!(lab.command_input.is_none());
}

#[test]
fn output_for_a_pane_out_of_view_brings_it_back_to_the_latest() {
    let mut lab = Lab::new(true);
    for n in 0..5 {
        lab.push_pane(Pane::Dump, n.to_string());
    }
    lab.dump_buf.visible(2);
    lab.dump_buf.scroll_up(2);
    lab.push_pane(Pane::Dump, "new".to_string());
    assert!(lab.dump_buf.auto_follow);
    assert_eq!(lab.dump_buf.visible(2), ["4", "new"]);
    assert!(lab.verbose_line().contains("verbose"));
}

#[test]
fn stack_lines_are_counted_by_kind() {
    let mut c = Counters::new();
    c.count_stack_line("23:12:05  icmp  10.0.0.1 -> 10.0.0.2  echo id=1 seq=1  len=64");
    assert_eq!((c.icmp_in, c.icmp_out), (1, 1));
    c.count_stack_line("          [..]    └── icmp  L3  type=8 code=0 id=1 seq=1  len=64");
    c.count_stack_line("          [..]    └── icmp  L3  type=0 code=0 id=1 seq=1  len=64");
    assert_eq!((c.icmp_in, c.icmp_out), (2, 2));
    c.count_stack_line("23:12:05  arp  who-has 10.0.0.2 tell 10.0.0.1");
    assert_eq!((c.arp_in, c.arp_out), (1, 1));
    c.count_stack_line("23:12:05  [IN]    arp  L2  who-has 10.0.0.2");
    c.count_stack_line("23:12:05  [OUT]   arp  L2  is-at 02:00:00:00:00:02");
    assert_eq!((c.arp_in, c.arp_out), (2, 2));
}

// ------------------------------------------------------------ screen and reports

use minitcp::sys::process::CommandOutput;
use minitcp::tui::report::{brief_addr, dump_pid, opening_lines, parse_i32, short_command_lines, tap_note};
use minitcp::tui::screen::{
    capture_pane_name, command_exit_line, dump_exit_line, exit_summary, line_style, pane_title, stack_exit_line,
    status_bar, ExitState, LineStyle, Tint,
};
use minitcp::proto::ipv4::Ipv4Addr;

#[test]
fn lines_are_tinted_by_what_they_say() {
    assert_eq!(line_style("minitcp: error: no tap"), LineStyle::Plain(Tint::Red));
    assert_eq!(line_style("minitcp: Warning: slow"), LineStyle::Plain(Tint::Yellow));
    assert_eq!(line_style("minitcp: ready"), LineStyle::Plain(Tint::LightBlue));
    assert_eq!(line_style("tcpdump: BAD checksum"), LineStyle::Plain(Tint::Red));
    assert_eq!(line_style("$ ip a"), LineStyle::Plain(Tint::Green));
    assert_eq!(
        line_style("23:12:05  [OUT]   arp  L2"),
        LineStyle::Tagged {
            before: "23:12:05  ".to_string(),
            tag: "[OUT]",
            tint: Tint::Green,
            after: "   arp  L2".to_string()
        }
    );
    assert!(matches!(line_style("[DROP] x [IN]"), LineStyle::Tagged { tag: "[DROP]", tint: Tint::Red, .. }));
    assert!(matches!(line_style("    [..]    ipv4"), LineStyle::Tagged { tag: "[..]", tint: Tint::DarkGray, .. }));
    assert_eq!(line_style("10:00 ICMP echo request"), LineStyle::Plain(Tint::Cyan));
    assert_eq!(line_style("10:00 ARP, Request who-has"), LineStyle::Plain(Tint::Yellow));
    assert_eq!(line_style("listening on tap0"), LineStyle::Plain(Tint::Gray));
}

#[test]
fn pane_titles_show_focus_and_pause() {
    assert_eq!(pane_title("1 MiniTCP Core", true, true), " ▶ 1 MiniTCP Core ");
    assert_eq!(pane_title("3 External Tools", false, false), " 3 External Tools · PAUSED ");
    assert_eq!(capture_pane_name(CaptureHost::Sidecar), "2 TAP Capture (sidecar)");
    assert_eq!(capture_pane_name(CaptureHost::Local), "2 TAP Capture (this host)");
}

#[test]
fn finished_processes_are_reported_in_words() {
    let ok = ExitState::Exited { success: true, code: Some(0) };
    let failed = ExitState::Exited { success: false, code: Some(3) };
    let killed = ExitState::Exited { success: false, code: None };
    assert_eq!(exit_summary(&ok), "successfully");
    assert_eq!(exit_summary(&failed), "with status 3");
    assert_eq!(exit_summary(&killed), "after a signal");
    assert_eq!(exit_summary(&ExitState::Unknown), "without an exit status");
    assert_eq!(
        exit_summary(&ExitState::Unreadable("gone".to_string())),
        "after its status could not be read: gone"
    );
    assert_eq!(stack_exit_line(&ok), "minitcp: stack finished successfully");
    assert_eq!(stack_exit_line(&failed), "minitcp: error: stack exited with status 3; press r to restart");
    assert_eq!(dump_exit_line(&killed), "minitcp: error: tcpdump exited after a signal; press t to restart");
    assert_eq!(command_exit_line(&ok), "— command finished —");
    assert_eq!(command_exit_line(&failed), "minitcp: error: command exited with status 3");
}

#[test]
fn a_quick_command_shows_its_output_line_by_line() {
    let out = CommandOutput {
        success: false,
        code: Some(1),
        stdout: b"one\r\ntwo\n".to_vec(),
        stderr: b"oops".to_vec(),
    };
    let lines = short_command_lines("ping", &["-c", "1"], &Ok(out));
    assert_eq!(lines, ["$ ping -c 1", "one", "two", "oops", "minitcp: error: command exited with status 1"]);
    let quiet = CommandOutput { success: true, code: Some(0), stdout: Vec::new(), stderr: Vec::new() };
    assert_eq!(short_command_lines("ip", &[], &Ok(quiet)), ["$ ip ", "(no output)"]);
    let signalled = CommandOutput { success: false, code: None, stdout: b"\n".to_vec(), stderr: Vec::new() };
    assert_eq!(
        short_command_lines("x", &["y"], &Ok(signalled)),
        ["$ x y", "", "minitcp: error: command terminated by signal"]
    );
    assert_eq!(
        short_command_lines("ip", &["neigh"], &Err("No such file or directory".to_string())),
        ["$ ip neigh", "minitcp: error: No such file or directory"]
    );
}

#[test]
fn the_tap_state_is_read_from_ip_brief_output() {
    assert_eq!(
        brief_addr("tap0             UP             10.0.0.1/24 fe80::1/64", "10.0.0.1"),
        (true, "10.0.0.1/24".to_string())
    );
    assert_eq!(brief_addr("tap0 DOWN", "10.0.0.1"), (false, "10.0.0.1".to_string()));
    assert_eq!(brief_addr("", "fallback"), (false, "fallback".to_string()));
    assert_eq!(brief_addr("a.b", "x"), (false, "a.b".to_string()));
}

#[test]
fn a_capture_announces_its_pid() {
    assert_eq!(dump_pid("__MINITCP_DUMP_PID=1234"), Some(1234));
    assert_eq!(dump_pid("__MINITCP_DUMP_PID= 77 "), Some(77));
    assert_eq!(dump_pid("tcpdump: listening"), None);
    assert_eq!(dump_pid("__MINITCP_DUMP_PID=x"), None);
    assert_eq!(parse_i32("-2147483648"), Some(i32::MIN));
    assert_eq!(parse_i32("2147483648"), None);
    assert_eq!(parse_i32("+5"), Some(5));
    assert_eq!(parse_i32("-+5"), None);
    assert_eq!(parse_i32("-"), None);
}

#[test]
fn the_lab_opens_with_what_it_knows() {
    assert_eq!(tap_note(false, "/dev/net/tun", false, "tap0"),
        "minitcp: error: /dev/net/tun is missing; run in the Dev Container or a privileged Linux container.");
    assert_eq!(tap_note(true, "/dev/net/tun", true, "tap0"), "attached to tap0");
    assert!(tap_note(true, "/dev/net/tun", false, "tap0").contains("Run `minitcp tap up`"));
    assert_eq!(opening_lines(false, true).len(), 1);
    assert_eq!(opening_lines(true, false).len(), 3);
}

#[test]
fn the_status_bar_reports_link_processes_and_counts() {
    let counters = Counters { icmp_in: 3, icmp_out: 2, arp_in: 1, arp_out: 0 };
    let bar = status_bar("tap0", true, "10.0.0.1", Ipv4Addr::new(10, 0, 0, 2), true, false, &counters, false, DumpFilter::Arp);
    assert_eq!(bar.iface, " tap0 ");
    assert_eq!((bar.link, bar.link_tint), ("UP", Tint::Green));
    assert_eq!(bar.ends, "  10.0.0.1  \u{2194}  10.0.0.2");
    assert_eq!((bar.core, bar.core_tint), ("run", Tint::Green));
    assert_eq!((bar.log, bar.log_tint), ("quiet", Tint::Gray));
    assert_eq!(bar.counts, "  icmp 3/2  arp 1/0");
    assert_eq!((bar.capture.as_str(), bar.capture_tint), ("off:arp", Tint::Red));
    let down = status_bar("tap1", false, "-", Ipv4Addr::new(10, 0, 0, 2), false, true, &counters, true, DumpFilter::All);
    assert_eq!((down.link, down.link_tint), ("DOWN", Tint::Red));
    assert_eq!((down.core, down.core_tint), ("off", Tint::Red));
    assert_eq!((down.log, down.log_tint), ("verbose", Tint::Cyan));
    assert_eq!((down.capture.as_str(), down.capture_tint), ("run:all", Tint::Yellow));
}
