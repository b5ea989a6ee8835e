use minitcp::log::status::{error, format_line, info, ok, warn, Level};
use minitcp::log::trace::{emit_at, emit_cont, emit_inside, emit_quiet, format_quiet, Event, Verb};

fn status_prefixes() {
    assert_eq!(format_line(Level::Info, "ready"), "minitcp: ready");
    assert_eq!(format_line(Level::Success, "ready"), "minitcp: ready");
    assert_eq!(format_line(Level::Warn, "retrying"), "minitcp: warning: retrying");
    assert_eq!(format_line(Level::Error, "failed"), "minitcp: error: failed");
}

fn quiet_row() {
    assert_eq!(
        format_quiet("23:12:05", "icmp", "10.0.0.1 -> 10.0.0.2", "echo id=1 seq=1  len=64"),
        "23:12:05  icmp  10.0.0.1 -> 10.0.0.2  echo id=1 seq=1  len=64"
    );
}

fn verbose_in() {
    let line = Event {
        show_time: true,
        verb: Verb::In,
        layer: "ethernet",
        osi: "L2",
        address: "02:00:00:00:00:01 -> 02:00:00:00:00:02",
        reason: "ethertype 0x0800",
    }
    .format_with("23:12:05");
    assert_eq!(
        line,
        "23:12:05  [IN]    ethernet  L2  02:00:00:00:00:01 -> 02:00:00:00:00:02  ethertype 0x0800"
    );
}

fn verbose_ipv4() {
    let line = Event {
        show_time: false,
        verb: Verb::More,
        layer: "ipv4",
        osi: "L3",
        address: "10.0.0.1 -> 10.0.0.2",
        reason: "ttl=64 proto=icmp payload=64",
    }
    .format_with("23:12:05");
    assert_eq!(line, "          [..]    ipv4      L3  10.0.0.1 -> 10.0.0.2  ttl=64 proto=icmp payload=64");
}

fn verbose_icmp() {
    let line = Event {
        show_time: false,
        verb: Verb::More,
        layer: "└── icmp",
        osi: "L3",
        address: "",
        reason: "type=8 code=0 id=1 seq=1  len=64",
    }
    .format_with("23:12:05");
    assert_eq!(line, "          [..]    └── icmp  L3  type=8 code=0 id=1 seq=1  len=64");
}

#[test]
fn status_status_lines_have_stable_plain_prefixes() {
    status_prefixes();
}

#[test]
fn log_status_lines_have_stable_plain_prefixes() {
    status_prefixes();
}

#[test]
fn trace_quiet_line_is_one_row() {
    quiet_row();
}

#[test]
fn log_quiet_line_is_one_row() {
    quiet_row();
}

#[test]
fn trace_verbose_in_keeps_address() {
    verbose_in();
}

#[test]
fn log_verbose_in_keeps_address() {
    verbose_in();
}

#[test]
fn trace_verbose_ipv4_has_no_address_gap() {
    verbose_ipv4();
}

#[test]
fn log_verbose_ipv4_has_no_address_gap() {
    verbose_ipv4();
}

#[test]
fn trace_verbose_icmp_sits_inside_ipv4() {
    verbose_icmp();
}

#[test]
fn log_verbose_icmp_sits_inside_ipv4() {
    verbose_icmp();
}

#[test]
fn verbs_read_as_their_tags() {
    assert_eq!(Verb::In.as_str(), "IN");
    assert_eq!(Verb::Out.as_str(), "OUT");
    assert_eq!(Verb::Drop.as_str(), "DROP");
    assert_eq!(Verb::More.as_str(), "..");
}

#[test]
fn emitted_lines_end_in_a_newline_and_append() {
    let mut out = String::from("x\n");
    emit_quiet(&mut out, "t", "arp", "a -> b", "who-has");
    assert_eq!(out, "x\nt  arp  a -> b  who-has\n");

    let mut out = String::new();
    emit_at(&mut out, "23:12:05", Verb::Out, "arp", "L2", "", "is-at");
    assert!(out.starts_with("23:12:05  [OUT]"), "{out}");
    assert!(out.ends_with("is-at\n"), "{out}");

    let mut out = String::new();
    emit_cont(&mut out, "23:12:05", Verb::More, "ipv4", "L3", "a -> b", "ttl=64");
    assert!(out.starts_with("          [..]"), "{out}");

    let mut out = String::new();
    emit_inside(&mut out, "23:12:05", Verb::More, "icmp", "L3", "type=8");
    assert_eq!(out, "          [..]    └── icmp  L3  type=8\n");
}

#[test]
fn plain_status_helpers_match_format_line() {
    assert_eq!(info("ready", false), format_line(Level::Info, "ready"));
    assert_eq!(info("ready", true), format_line(Level::Info, "ready"));
    assert_eq!(ok("done", false), format_line(Level::Success, "done"));
    assert_eq!(warn("slow", false), format_line(Level::Warn, "slow"));
    assert_eq!(error("bad", false), format_line(Level::Error, "bad"));
    let coloured = error("bad", true);
    assert!(coloured.contains("minitcp: error: bad"), "{coloured}");
}

fn strip_escapes(s: &str) -> String {
    let mut out = String::new();
    let mut chars = s.chars().peekable();
    while let Some(c) = chars.next() {
        if c == '\u{1b}' && chars.peek() == Some(&'[') {
            chars.next();
            for d in chars.by_ref() {
                if d == 'm' {
                    break;
                }
                assert!(d.is_ascii_digit() || d == ';' || d == ':', "unexpected {d:?} in an escape");
            }
        } else {
            out.push(c);
        }
    }
    out
}

#[test]
fn coloured_status_lines_are_the_plain_lines_with_escapes_only() {
    assert_eq!(strip_escapes(&ok("tap0 up", true)), ok("tap0 up", false));
    assert_eq!(strip_escapes(&warn("slow", true)), warn("slow", false));
    assert_eq!(strip_escapes(&error("gone", true)), error("gone", false));
}
