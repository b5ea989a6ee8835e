use minitcp::cli::args::{parse_cli, split_eq};
use minitcp::cli::flags::{parse_drop_list, parse_mac};
use minitcp::cli::command::{Command, HelpTopic};
use minitcp::cli::error::ParseError;
use minitcp::cli::options::{default_linux_addr, Config, Partial, Transport, DEFAULT_FWD};
use minitcp::cli::settle::{config_path, settle, warnings, ConfigFile};
use minitcp::cli::usage::{usage, usage_topic};
use minitcp::proto::arp::our_mac;
use minitcp::proto::ethernet::MacAddress;
use minitcp::proto::ipv4::Ipv4Addr;
use minitcp::stack::DropKind;

fn args(parts: &[&str]) -> Vec<String> {
    parts.iter().map(|s| s.to_string()).collect()
}

fn parse_with(parts: &[&str], file: ConfigFile) -> Result<Config, ParseError> {
    let cli = parse_cli(&args(parts))?;
    settle(cli, "/tmp", file)
}

fn parse_ok(parts: &[&str]) -> Config {
    parse_with(parts, ConfigFile::Absent).unwrap()
}

fn parse_err(parts: &[&str]) -> String {
    parse_with(parts, ConfigFile::Absent).unwrap_err().report()
}

#[test]
fn tests_defaults_match_the_lab() {
    let cfg = parse_ok(&[]);
    assert_eq!(cfg.command, Command::Run);
    assert_eq!(cfg.iface, "tap0");
    assert_eq!(cfg.addr, Ipv4Addr::new(10, 0, 0, 2));
    assert_eq!(cfg.mac, our_mac());
    assert_eq!(cfg.linux_addr, Ipv4Addr::new(10, 0, 0, 1));
    assert!(!cfg.quiet);
    assert!(cfg.drop.is_empty());
    assert_eq!(cfg.ttl, 64);
}

#[test]
fn tests_flags_can_sit_before_or_after_stack() {
    let before = parse_ok(&["-q", "--iface", "tap1", "stack"]);
    let after = parse_ok(&["stack", "--iface", "tap1", "-q"]);
    assert_eq!(before.command, Command::Stack);
    assert_eq!(after.command, Command::Stack);
    assert_eq!(before.iface, "tap1");
    assert_eq!(after.iface, "tap1");
    assert!(before.quiet && after.quiet);
}

#[test]
fn tests_quiet_and_once_are_flags() {
    let q = parse_ok(&["--quiet"]);
    assert!(q.quiet);
    let once = parse_ok(&["stack", "--once"]);
    assert_eq!(once.count, Some(1));
    let count = parse_ok(&["-c", "3"]);
    assert_eq!(count.count, Some(3));
    assert_eq!(once.count, parse_ok(&["--once"]).count);
}

#[test]
fn tests_unknown_flag_errors() {
    let err = parse_err(&["--nope"]);
    assert!(err.contains("unknown flag '--nope'"), "{err}");
    assert!(err.contains("Try 'minitcp --help'"), "{err}");
    assert!(!err.contains("Everything below is optional"), "{err}");
}

#[test]
fn tests_replay_needs_a_file() {
    let err = parse_err(&["replay"]);
    assert!(err.contains("replay needs a pcap path"), "{err}");
    assert!(err.contains("replay FILE"), "{err}");
    assert!(!err.contains("Everything below is optional"), "{err}");
    let cfg = parse_ok(&["replay", "out.pcap"]);
    assert_eq!(cfg.command, Command::Replay("out.pcap".to_string()));
}

#[test]
fn tests_addr_and_mac_are_independent() {
    let only_addr = parse_ok(&["--addr", "10.0.0.3"]);
    assert_eq!(only_addr.addr, Ipv4Addr::new(10, 0, 0, 3));
    assert_eq!(only_addr.mac, our_mac());
    assert_eq!(only_addr.linux_addr, Ipv4Addr::new(10, 0, 0, 1));

    let only_mac = parse_ok(&["--mac", "02:00:00:00:00:03"]);
    assert_eq!(only_mac.addr, Ipv4Addr::new(10, 0, 0, 2));
    assert_eq!(only_mac.mac, MacAddress([0x02, 0x00, 0x00, 0x00, 0x00, 0x03]));
}

#[test]
fn tests_linux_addr_defaults_to_dot_one_on_the_same_street() {
    let cfg = parse_ok(&["--addr", "10.1.2.9"]);
    assert_eq!(cfg.linux_addr, Ipv4Addr::new(10, 1, 2, 1));
    let explicit = parse_ok(&["--addr", "10.1.2.9", "--linux-addr", "10.1.2.5"]);
    assert_eq!(explicit.linux_addr, Ipv4Addr::new(10, 1, 2, 5));
}

#[test]
fn tests_drop_accepts_comma_lists() {
    let cfg = parse_ok(&["--drop", "arp,icmp"]);
    assert_eq!(cfg.drop, vec![DropKind::Arp, DropKind::Icmp]);
}

#[test]
fn tests_missing_default_toml_is_ok() {
    let cfg = parse_with(&[], ConfigFile::Absent).unwrap();
    assert_eq!(cfg.addr, Ipv4Addr::new(10, 0, 0, 2));
}

#[test]
fn tests_missing_config_path_errors() {
    let err = parse_err(&["--config", "/no/such/minitcp.toml"]);
    assert!(err.contains("config file not found"), "{err}");
    assert!(err.contains("/no/such/minitcp.toml"), "{err}");
    assert!(!err.contains("Everything below is optional"), "{err}");
    assert!(err.contains("--config FILE"), "{err}");
}

#[test]
fn tests_toml_sets_addr_and_cli_wins() {
    let text = "addr = \"10.0.0.9\"\nquiet = true\n";
    let from_file =
        parse_with(&["--config", "/tmp/lab.toml"], ConfigFile::Text(text.to_string())).unwrap();
    assert_eq!(from_file.addr, Ipv4Addr::new(10, 0, 0, 9));
    assert!(from_file.quiet);

    let overridden = parse_with(
        &["--config", "/tmp/lab.toml", "--addr", "10.0.0.4"],
        ConfigFile::Text(text.to_string()),
    )
    .unwrap();
    assert_eq!(overridden.addr, Ipv4Addr::new(10, 0, 0, 4));
    assert!(overridden.quiet);
}

#[test]
fn tests_toml_unknown_key_errors() {
    let err = parse_with(&["--config", "/tmp/lab.toml"], ConfigFile::Text("nope = true\n".to_string()))
        .unwrap_err()
        .report();
    assert!(err.contains("unknown config key"), "{err}");
    assert!(!err.contains("Everything below is optional"), "{err}");
}

#[test]
fn tests_default_minitcp_toml_in_cwd_is_loaded() {
    let cli = parse_cli(&args(&[])).unwrap();
    assert_eq!(config_path(&cli, "/tmp/lab"), "/tmp/lab/minitcp.toml");
    let cfg = settle(cli, "/tmp/lab", ConfigFile::Text("iface = \"tap1\"\n".to_string())).unwrap();
    assert_eq!(cfg.iface, "tap1");
}

#[test]
fn tap_family_parses() {
    assert_eq!(parse_ok(&["tap", "up"]).command, Command::TapUp);
    assert_eq!(parse_ok(&["tap", "down"]).command, Command::TapDown);
    assert_eq!(parse_ok(&["bridge"]).command, Command::Bridge);
    assert_eq!(parse_ok(&["tap"]).command, Command::TapShow);
    assert_eq!(parse_ok(&["tap", "--help"]).command, Command::Help(HelpTopic::Tap));
    let err = parse_err(&["tap", "nope"]);
    assert!(err.contains("usage: minitcp tap"), "{err}");
    assert!(!err.contains("needs a value"), "{err}");
    assert!(!err.contains("error:"), "{err}");
    let set = parse_ok(&["tap", "addr", "10.0.0.9"]);
    assert_eq!(set.command, Command::TapSetAddr(Ipv4Addr::new(10, 0, 0, 9)));
}

#[test]
fn pcap_and_replay_parse() {
    let cfg = parse_ok(&["pcap", "out.pcap"]);
    assert_eq!(cfg.command, Command::Pcap("out.pcap".to_string()));
    let alias = parse_ok(&["pcap-info", "out.pcap"]);
    assert_eq!(alias.command, Command::Pcap("out.pcap".to_string()));
    let err = parse_err(&["pcap"]);
    assert!(err.contains("usage: minitcp pcap FILE"), "{err}");
    assert!(!err.contains("needs a value"), "{err}");
}

#[test]
fn identity_commands_parse() {
    assert_eq!(parse_ok(&["identity"]).command, Command::IdentityShow);
    assert_eq!(parse_ok(&["identity", "--help"]).command, Command::Help(HelpTopic::Identity));
    let cfg = parse_with(
        &["--config", "/tmp/lab/minitcp.toml", "identity", "addr", "10.0.0.9"],
        ConfigFile::Absent,
    )
    .unwrap();
    assert_eq!(cfg.command, Command::IdentitySetAddr(Ipv4Addr::new(10, 0, 0, 9)));
    assert_eq!(cfg.config_path, "/tmp/lab/minitcp.toml");
    assert!(parse_with(&["--config", "/tmp/lab/minitcp.toml", "identity"], ConfigFile::Absent).is_err());
    let cfg = parse_ok(&["identity", "mac", "02:00:00:00:00:07"]);
    assert_eq!(cfg.command, Command::IdentitySetMac(MacAddress([2, 0, 0, 0, 0, 7])));
}

#[test]
fn fwd_and_offline_parse() {
    let fwd = parse_ok(&["--fwd", "127.0.0.1:7946"]);
    assert_eq!(fwd.fwd.as_deref(), Some("127.0.0.1:7946"));
    assert!(parse_ok(&["--offline"]).offline);
}

#[test]
fn force_tap_and_no_create_are_gone() {
    let err = parse_err(&["--tap"]);
    assert!(err.contains("unknown flag '--tap'"), "{err}");
    let err = parse_err(&["--no-create-tap"]);
    assert!(err.contains("unknown flag '--no-create-tap'"), "{err}");
}

#[test]
fn usage_help_text_names_the_new_commands() {
    let text = usage(false);
    assert!(text.contains("replay"));
    assert!(text.contains("minitcp tap"));
    assert!(text.contains("iface NAME"));
    assert!(text.contains("minitcp identity"));
    assert!(text.contains("minitcp pcap FILE"));
    assert!(text.contains("install.sh"));
    assert!(text.contains("--fwd"));
    assert!(text.contains("--quiet"));
    assert!(text.contains("-q"));
    assert!(text.contains("--drop"));
    assert!(text.contains("--version"));
    assert!(text.contains("Exit status: 0 success"));
    assert!(text.contains("--config FILE"));
    assert!(text.contains("minitcp.toml"));
    assert!(!text.contains("minitcp bridge"));
    assert!(!text.contains("docker run"));
    assert!(!text.contains("--no-create-tap"));
    assert!(!text.contains("force a local TAP"));
}

#[test]
fn an_explicit_fwd_address_is_obeyed_even_when_a_tap_is_available() {
    let mut cfg = Config::defaults();
    cfg.fwd = Some("10.1.2.3:9999".into());
    cfg.tun = "/".into();
    assert_eq!(cfg.transport(true), Transport::Forwarded("10.1.2.3:9999".into()));
}

#[test]
fn a_usable_tun_device_means_a_local_tap() {
    let mut cfg = Config::defaults();
    cfg.fwd = None;
    cfg.tun = "/".into();
    assert_eq!(cfg.transport(true), Transport::LocalTap);
}

#[test]
fn no_tun_device_means_the_sidecar() {
    let mut cfg = Config::defaults();
    cfg.fwd = None;
    cfg.tun = "/definitely/not/a/real/device".into();
    assert_eq!(cfg.transport(false), Transport::Forwarded(DEFAULT_FWD.into()));
}

// ------------------------------------------------------------ more cases

#[test]
fn equals_form_matches_spaced_form() {
    let spaced = parse_ok(&["tap", "--iface", "tap9"]);
    let equals = parse_ok(&["tap", "--iface=tap9"]);
    assert_eq!(spaced, equals);
    assert_eq!(spaced.iface, "tap9");
    assert_eq!(split_eq("--iface=tap9=x"), Some(("--iface".to_string(), "tap9=x".to_string())));
    assert_eq!(split_eq("--iface"), None);
}

#[test]
fn help_word_and_flags_ask_for_the_full_manual() {
    assert_eq!(parse_ok(&["help"]).command, Command::Help(HelpTopic::Full));
    assert_eq!(parse_ok(&["--help"]).command, Command::Help(HelpTopic::Full));
    assert_eq!(parse_ok(&["-h"]).command, Command::Help(HelpTopic::Full));
    assert_eq!(parse_ok(&["pcap", "--help"]).command, Command::Help(HelpTopic::Pcap));
    assert_eq!(parse_ok(&["--help", "stack"]).command, Command::Help(HelpTopic::Full));
    assert_eq!(parse_ok(&["-V"]).command, Command::Version);
    assert_eq!(parse_ok(&["--version"]).command, Command::Version);
}

#[test]
fn topic_help_is_only_the_family() {
    let tap = usage_topic(HelpTopic::Tap, false);
    assert!(tap.contains("usage: minitcp tap"));
    assert!(!tap.contains("minitcp identity"));
    assert!(usage_topic(HelpTopic::Identity, false).contains("usage: minitcp identity"));
    assert!(usage_topic(HelpTopic::Pcap, false).contains("usage: minitcp pcap"));
    assert_eq!(usage_topic(HelpTopic::Full, false), usage(false));
}

#[test]
fn the_manual_lists_every_command() {
    let text = usage(false);
    for expected in [
        "minitcp [run]",
        "minitcp stack",
        "minitcp replay FILE",
        "minitcp tap",
        "minitcp identity",
        "minitcp pcap FILE",
        "--quiet",
        "--drop",
        "--fwd",
        "Exit status: 0 success",
        "minitcp.toml",
    ] {
        assert!(text.contains(expected), "{expected}");
    }
}

#[test]
fn usage_errors_name_what_was_typed() {
    let err = parse_err(&["nope"]);
    assert!(err.contains("unknown command 'nope'"), "{err}");
    assert!(err.contains("minitcp stack"), "{err}");
    let err = parse_err(&["stack", "bridge"]);
    assert!(err.contains("only one command is allowed"), "{err}");
    for flag in ["--iface", "--addr", "--mac", "--tun", "--config", "--fwd"] {
        let err = parse_err(&[flag]);
        assert!(err.contains(&format!("{flag} needs a value")), "{err}");
    }
}

#[test]
fn numbers_out_of_range_are_refused_with_their_bounds() {
    for (flag, value, expected) in [
        ("--ttl", "256", "ttl must be 0-255"),
        ("--drop-pct", "101", "drop-pct must be 0-100"),
        ("--id", "65536", "id must be 0-65535"),
    ] {
        let err = parse_err(&[flag, value]);
        assert!(err.contains(expected), "{err}");
    }
    for (flag, value) in [("--ttl", "255"), ("--drop-pct", "100"), ("--id", "65535")] {
        assert!(parse_with(&["identity", flag, value], ConfigFile::Absent).is_ok());
    }
    let cfg = parse_ok(&["--ttl", "255", "--drop-pct", "100", "--id", "65535"]);
    assert_eq!(cfg.ttl, 255);
    assert_eq!(cfg.drop_pct, 100);
    assert_eq!(cfg.icmp_id, Some(65535));
}

#[test]
fn malformed_values_are_refused() {
    for (parts, expected) in [
        (["--mac", "not-a-mac"], "invalid MAC"),
        (["--mac", "02:00:00:00:00"], "invalid MAC"),
        (["--addr", "999.1.1.1"], "invalid IPv4 address"),
        (["--linux-addr", "10.0.0"], "invalid IPv4 address"),
        (["--count", "many"], "invalid number"),
        (["--drop", "http"], "unknown drop kind 'http'"),
    ] {
        let err = parse_err(&parts);
        assert!(err.contains(expected), "{err}");
    }
}

#[test]
fn the_config_file_is_read_where_config_points() {
    let cli = parse_cli(&args(&["--config", "./lab.toml"])).unwrap();
    assert_eq!(config_path(&cli, "/home/me"), "./lab.toml");
    let cli = parse_cli(&args(&[])).unwrap();
    assert_eq!(config_path(&cli, "/home/me/"), "/home/me/minitcp.toml");
}

#[test]
fn malformed_toml_is_reported() {
    let err = parse_with(&[], ConfigFile::Text("addr = \n".to_string())).unwrap_err().report();
    assert!(err.contains("minitcp.toml"), "{err}");
    let err = parse_with(&[], ConfigFile::Text("ttl = \"high\"\n".to_string())).unwrap_err().report();
    assert!(!err.is_empty());
}

#[test]
fn toml_lists_and_numbers_are_read() {
    let text = "drop = [\"icmp\"]\nttl = 9\ncount = 4\n";
    let cfg = parse_with(&[], ConfigFile::Text(text.to_string())).unwrap();
    assert_eq!(cfg.drop, vec![DropKind::Icmp]);
    assert_eq!(cfg.ttl, 9);
    assert_eq!(cfg.count, Some(4));
}

#[test]
fn flags_identity_cannot_use_are_warned_about() {
    let cli = parse_cli(&args(&["identity", "--ttl", "9"])).unwrap();
    let w = warnings(&Command::IdentityShow, &cli);
    assert!(!w.is_empty());
    let cfg = settle(cli, "/tmp", ConfigFile::Absent).unwrap();
    assert_eq!(cfg.warnings, w);
    let quiet = parse_cli(&args(&["stack"])).unwrap();
    assert!(warnings(&Command::Stack, &quiet).is_empty());
}

#[test]
fn default_linux_addr_is_dot_one() {
    assert_eq!(default_linux_addr(Ipv4Addr::new(192, 168, 7, 42)), Ipv4Addr::new(192, 168, 7, 1));
}

#[test]
fn the_stack_child_gets_the_settled_flags() {
    let cfg = parse_ok(&["--iface", "tap3", "--drop", "icmp"]);
    let child = cfg.child_stack_args(false);
    assert!(child.iter().any(|a| a == "stack"));
    assert!(child.iter().any(|a| a == "tap3"));
    assert!(child.iter().any(|a| a == "--quiet"));
    let verbose = cfg.child_stack_args(true);
    assert!(!verbose.iter().any(|a| a == "--quiet"));
}

#[test]
fn an_empty_partial_changes_nothing() {
    let p = Partial::new();
    assert!(p.command.is_none());
    let mut cfg = Config::defaults();
    let before = cfg.clone();
    minitcp::cli::options::apply_partial(&mut cfg, &p);
    assert_eq!(cfg, before);
}

// ------------------------------------------------------------ show and set

use minitcp::cli::show::{config_with, identity_show, setting, tap_show, wrote_message};

#[test]
fn a_setter_replaces_the_key_and_keeps_the_rest() {
    assert_eq!(config_with("", "addr", "10.0.0.9"), "addr = \"10.0.0.9\"\n");
    assert_eq!(
        config_with("iface = \"tap1\"\naddr = \"1.2.3.4\"\n# note\n", "addr", "10.0.0.9"),
        "iface = \"tap1\"\n# note\naddr = \"10.0.0.9\"\n"
    );
    assert_eq!(
        config_with("linux_addr = \"10.0.0.7\"\nquiet = true", "linux-addr", "10.0.0.1"),
        "quiet = true\nlinux-addr = \"10.0.0.1\"\n"
    );
    assert_eq!(
        config_with("quiet = true\n[extra]\naddr = 1\n", "addr", "v"),
        "quiet = true\naddr = \"v\"\n[extra]\naddr = 1\n"
    );
    assert_eq!(config_with("  addr=\"x\"\r\naddress = 1\n", "addr", "y"), "address = 1\naddr = \"y\"\n");
    assert_eq!(config_with("", "tun", "a\"b\\c\td"), "tun = \"a\\\"b\\\\c\\td\"\n");
    assert_eq!(config_with("", "tun", "\u{1}"), "tun = \"\\u0001\"\n");
}

#[test]
fn a_rewritten_file_reads_back_the_new_value() {
    let text = config_with("quiet = true\naddr = \"10.0.0.3\"\n", "addr", "10.0.0.9");
    let cfg = parse_with(&[], ConfigFile::Text(text)).unwrap();
    assert_eq!(cfg.addr, Ipv4Addr::new(10, 0, 0, 9));
    assert!(cfg.quiet);
    let text = config_with("", "mac", "02:00:00:00:00:09");
    let cfg = parse_with(&[], ConfigFile::Text(text)).unwrap();
    assert_eq!(cfg.mac, MacAddress([2, 0, 0, 0, 0, 9]));
}

#[test]
fn setters_name_their_key_and_value() {
    assert_eq!(
        setting(&Command::TapSetAddr(Ipv4Addr::new(10, 0, 0, 1))),
        Some(("linux-addr".to_string(), "10.0.0.1".to_string()))
    );
    assert_eq!(setting(&Command::TapSetIface("tap7".into())), Some(("iface".to_string(), "tap7".to_string())));
    assert_eq!(
        setting(&Command::IdentitySetMac(MacAddress([2, 0, 0, 0, 0, 3]))),
        Some(("mac".to_string(), "02:00:00:00:00:03".to_string()))
    );
    assert_eq!(setting(&Command::Stack), None);
    assert_eq!(wrote_message("addr", "10.0.0.9", "minitcp.toml"), "wrote addr = 10.0.0.9  (minitcp.toml)");
}

#[test]
fn show_commands_print_settings_and_where_setters_write() {
    let cfg = Config::defaults();
    assert_eq!(
        tap_show(&cfg),
        "iface  tap0\naddr   10.0.0.1\ntun    /dev/net/tun\n\nminitcp tap iface NAME  writes minitcp.toml\n"
    );
    assert_eq!(
        identity_show(&cfg),
        "addr  10.0.0.2\nmac   02:00:00:00:00:02\n\nminitcp identity addr IP  writes minitcp.toml\n"
    );
}

#[test]
fn a_printed_mac_reads_back() {
    let m = MacAddress([0x02, 0xab, 0x00, 0xff, 0x10, 0x9c]);
    assert_eq!(m.to_string(), "02:ab:00:ff:10:9c");
    assert_eq!(parse_mac(&m.to_string()), Ok(m));
    assert!(parse_mac("02:00:00:00:00").is_err());
    assert!(parse_mac("2:00:00:00:00:01").is_err());
}

#[test]
fn drop_lists_keep_first_named_order_and_first_refusal() {
    assert_eq!(parse_drop_list("icmp, ICMP,,arp").unwrap(), vec![DropKind::Icmp, DropKind::Arp]);
    assert_eq!(parse_drop_list("ip,arp,ip").unwrap(), vec![DropKind::Ip, DropKind::Arp]);
    let e = parse_drop_list("arp,tcp,udp").unwrap_err();
    assert!(e.message.contains("unknown drop kind 'tcp'"), "{}", e.message);
    let e = parse_drop_list(" , ,").unwrap_err();
    assert_eq!(e.message, "--drop needs a value");
}

#[test]
fn a_child_reads_back_its_parents_settings() {
    let mut cfg = parse_ok(&[
        "--iface", "tap7", "--addr", "10.1.2.3", "--mac", "02:ab:cd:00:00:09", "--linux-addr", "10.1.2.254",
        "--write", "out.pcap", "--hex", "--count", "12", "--drop", "icmp,arp", "--drop-pct", "25", "--ttl", "9",
        "--id", "4660", "--fwd", "127.0.0.1:7000",
    ]);
    cfg.tun = "/dev/tun9".to_string();
    for verbose in [false, true] {
        let args = cfg.child_stack_args(verbose);
        let cli = parse_cli(&args).unwrap();
        let child = settle(cli, "/tmp", ConfigFile::Absent).unwrap();
        assert_eq!(child.command, Command::Stack);
        assert_eq!(child.quiet, !verbose);
        assert_eq!(child.iface, cfg.iface);
        assert_eq!(child.addr, cfg.addr);
        assert_eq!(child.mac, cfg.mac);
        assert_eq!(child.linux_addr, cfg.linux_addr);
        assert_eq!(child.tun, cfg.tun);
        assert_eq!(child.write, cfg.write);
        assert_eq!(child.hex, cfg.hex);
        assert_eq!(child.count, cfg.count);
        assert_eq!(child.drop, cfg.drop);
        assert_eq!(child.drop_pct, cfg.drop_pct);
        assert_eq!(child.ttl, cfg.ttl);
        assert_eq!(child.icmp_id, cfg.icmp_id);
        assert_eq!(child.fwd, cfg.fwd);
    }
}

fn without_escapes(s: &str) -> String {
    let mut out = String::new();
    let mut chars = s.chars().peekable();
    while let Some(c) = chars.next() {
        if c == '\u{1b}' && chars.peek() == Some(&'[') {
            chars.next();
            for d in chars.by_ref() {
                if d == 'm' {
                    break;
                }
                assert!(d.is_ascii_digit() || d == ';' || d == ':', "unexpected {d:?} in an escape");
            }
        } else {
            out.push(c);
        }
    }
    out
}

#[test]
fn coloured_help_is_the_plain_help_with_escapes_only() {
    assert_eq!(without_escapes(&usage(true)), usage(false));
    assert_eq!(without_escapes(&usage_topic(HelpTopic::Full, true)), usage(false));
}
