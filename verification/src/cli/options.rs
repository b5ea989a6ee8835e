//! Everything a run of minitcp is configured by, and where each value came
//! from.
//!
//! Three layers, lowest first: built-in defaults, then minitcp.toml, then the
//! command line. `Partial` is one layer with holes in it, so "not mentioned"
//! is distinguishable from "set to the default", and `apply_partial` lays one
//! over another. That is the whole precedence rule, in one place.

use vstd::prelude::*;
use crate::proto::arp::{our_ip, our_mac, spec_our_ip, spec_our_mac};
use crate::proto::ethernet::{MacAddress, mac_text};
use crate::proto::ipv4::{Ipv4Addr, ipv4_text};
use crate::stack::{DropKind, StackConfig, drop_kind_name};
use crate::parse::{lower, to_lower, trim, trimmed};
use crate::text::{decimal_string, decimal_u16, decimal_u64, decimal_u8, owned, push_str, str_eq, text_u16, text_u8};
use super::command::{Command, CommandView};
use super::error::{ParseError, usage_view};
use super::usage::{flag_usage, flag_usage_text};

verus! {

/// The TAP minitcp uses unless told otherwise.
pub const DEFAULT_IFACE: &'static str = "tap0";

/// The tun device a local TAP is opened through.
pub const DEFAULT_TUN: &'static str = "/dev/net/tun";

/// TTL on MiniTCP's IPv4 replies unless told otherwise.
pub const DEFAULT_TTL: u8 = 64;

/// The settings file looked for in the working directory.
pub const DEFAULT_CONFIG: &'static str = "minitcp.toml";

/// Where the host stack reaches the TAP sidecar.
pub const DEFAULT_FWD: &'static str = "127.0.0.1:7946";

/// Where a bridge accepts the stack.
pub const DEFAULT_LISTEN: &'static str = "0.0.0.0:7946";

/// The drop kind a name stands for, after trimming and lowercasing.
pub open spec fn drop_kind_named(name: Seq<char>) -> Option<DropKind> {
    if name == "arp"@ {
        Some(DropKind::Arp)
    } else if name == "icmp"@ {
        Some(DropKind::Icmp)
    } else if name == "ip"@ {
        Some(DropKind::Ip)
    } else {
        None
    }
}

/// The refusal of a drop kind nobody knows, quoting it as it was read.
pub open spec fn unknown_drop_kind(other: Seq<char>) -> super::error::ParseErrorView {
    usage_view("unknown drop kind '"@ + other + "' (want arp, icmp, or ip)"@, flag_usage_text("--drop"@))
}

impl DropKind {
    /// Reads `arp`, `icmp` or `ip`, ignoring surrounding white space and ASCII
    /// case.
    pub fn parse(name: &str) -> (r: Result<DropKind, ParseError>)
        ensures
            match drop_kind_named(lower(trimmed(name@))) {
                Some(k) => r == Ok::<DropKind, ParseError>(k),
                None => r matches Err(e) && e@ == unknown_drop_kind(lower(trimmed(name@))),
            },
    {
        let t = trim(name);
        let k = to_lower(t.as_str());
        if str_eq(k.as_str(), "arp") {
            Ok(DropKind::Arp)
        } else if str_eq(k.as_str(), "icmp") {
            Ok(DropKind::Icmp)
        } else if str_eq(k.as_str(), "ip") {
            Ok(DropKind::Ip)
        } else {
            let mut message = owned("unknown drop kind '");
            push_str(&mut message, k.as_str());
            push_str(&mut message, "' (want arp, icmp, or ip)");
            Err(ParseError::with_usage(message, flag_usage("--drop")))
        }
    }
}

/// How Ethernet frames reach the stack. This decides where the TAP lives, and
/// so which kernel can see the traffic at all.
#[derive(Clone, Debug, PartialEq, Eq)]
pub enum Transport {
    /// A TAP device on this machine, read through `/dev/net/tun`.
    LocalTap,
    /// Frames relayed over TCP from a bridge that owns the TAP, normally the
    /// sidecar, since only Linux can create a TAP.
    Forwarded(String),
}

/// A copy of a drop list.
fn copied_drops(v: &Vec<DropKind>) -> (r: Vec<DropKind>)
    ensures
        r@ == v@,
{
    let mut r: Vec<DropKind> = Vec::new();
    let mut i: usize = 0;
    while i < v.len()
        invariant
            i <= v@.len(),
            r@ == v@.subrange(0, i as int),
        decreases v@.len() - i,
    {
        r.push(v[i]);
        i = i + 1;
        assert(r@ =~= v@.subrange(0, i as int));
    }
    assert(v@.subrange(0, v@.len() as int) =~= v@);
    r
}

/// Everything a run is configured by.
#[derive(Clone, Debug, PartialEq, Eq)]
pub struct Config {
    pub command: Command,
    pub iface: String,
    pub addr: Ipv4Addr,
    pub mac: MacAddress,
    pub linux_addr: Ipv4Addr,
    pub tun: String,
    pub write: Option<String>,
    pub hex: bool,
    /// One line per exchange instead of every layer of every frame.
    pub quiet: bool,
    pub count: Option<u64>,
    pub drop: Vec<DropKind>,
    pub drop_pct: u8,
    pub ttl: u8,
    pub icmp_id: Option<u16>,
    pub fwd: Option<String>,
    pub listen: String,
    pub offline: bool,
    pub config_path: String,
    /// Flags that were given but mean nothing to the command.
    pub warnings: Vec<String>,
}

/// A `Config` with its text and lists taken as sequences.
#[verifier::ext_equal]
pub struct ConfigView {
    pub command: CommandView,
    pub iface: Seq<char>,
    pub addr: Ipv4Addr,
    pub mac: MacAddress,
    pub linux_addr: Ipv4Addr,
    pub tun: Seq<char>,
    pub write: Option<Seq<char>>,
    pub hex: bool,
    pub quiet: bool,
    pub count: Option<u64>,
    pub drop: Seq<DropKind>,
    pub drop_pct: u8,
    pub ttl: u8,
    pub icmp_id: Option<u16>,
    pub fwd: Option<Seq<char>>,
    pub listen: Seq<char>,
    pub offline: bool,
    pub config_path: Seq<char>,
    pub warnings: Seq<Seq<char>>,
}

/// An optional string as an optional character sequence.
pub open spec fn opt_text(o: Option<String>) -> Option<Seq<char>> {
    match o {
        Some(s) => Some(s@),
        None => None,
    }
}

impl View for Config {
    type V = ConfigView;

    open spec fn view(&self) -> ConfigView {
        ConfigView {
            command: self.command@,
            iface: self.iface@,
            addr: self.addr,
            mac: self.mac,
            linux_addr: self.linux_addr,
            tun: self.tun@,
            write: opt_text(self.write),
            hex: self.hex,
            quiet: self.quiet,
            count: self.count,
            drop: self.drop@,
            drop_pct: self.drop_pct,
            ttl: self.ttl,
            icmp_id: self.icmp_id,
            fwd: opt_text(self.fwd),
            listen: self.listen@,
            offline: self.offline,
            config_path: self.config_path@,
            warnings: self.warnings.deep_view(),
        }
    }
}

/// Linux's address on the TAP: `.1` on MiniTCP's street.
pub open spec fn linux_addr_for(addr: Ipv4Addr) -> Ipv4Addr {
    Ipv4Addr([addr.0[0], addr.0[1], addr.0[2], 1])
}

/// Linux's address on the TAP when none was given: `.1` on the same street
/// as MiniTCP.
pub fn default_linux_addr(addr: Ipv4Addr) -> (r: Ipv4Addr)
    ensures
        r == linux_addr_for(addr),
{
    let o = addr.octets();
    Ipv4Addr([o[0], o[1], o[2], 1])
}

/// The built-in settings.
pub open spec fn default_view() -> ConfigView {
    ConfigView {
        command: CommandView::Run,
        iface: DEFAULT_IFACE@,
        addr: spec_our_ip(),
        mac: spec_our_mac(),
        linux_addr: linux_addr_for(spec_our_ip()),
        tun: DEFAULT_TUN@,
        write: None,
        hex: false,
        quiet: false,
        count: None,
        drop: Seq::empty(),
        drop_pct: 0,
        ttl: DEFAULT_TTL,
        icmp_id: None,
        fwd: None,
        listen: DEFAULT_LISTEN@,
        offline: false,
        config_path: DEFAULT_CONFIG@,
        warnings: Seq::empty(),
    }
}

/// The arguments of a child `minitcp stack`: every setting that shapes the
/// stack, spelled as flags.
pub open spec fn child_args(c: ConfigView, verbose: bool) -> Seq<Seq<char>> {
    seq![
        "stack"@,
        "--iface"@,
        c.iface,
        "--addr"@,
        ipv4_text(c.addr.0@),
        "--mac"@,
        mac_text(c.mac.0@),
        "--linux-addr"@,
        ipv4_text(c.linux_addr.0@),
        "--tun"@,
        c.tun,
    ] + (match c.write {
        Some(w) => seq!["--write"@, w],
        None => Seq::empty(),
    }) + (if c.hex {
        seq!["--hex"@]
    } else {
        Seq::empty()
    }) + (if !verbose {
        seq!["--quiet"@]
    } else {
        Seq::empty()
    }) + (match c.count {
        Some(n) => seq!["--count"@, decimal_u64(n)],
        None => Seq::empty(),
    }) + (if c.drop.len() > 0 {
        seq!["--drop"@, drop_list_text(c.drop)]
    } else {
        Seq::empty()
    }) + (if c.drop_pct > 0 {
        seq!["--drop-pct"@, decimal_u8(c.drop_pct)]
    } else {
        Seq::empty()
    }) + seq!["--ttl"@, decimal_u8(c.ttl)] + (match c.icmp_id {
        Some(id) => seq!["--id"@, decimal_u16(id)],
        None => Seq::empty(),
    }) + (match c.fwd {
        Some(f) => seq!["--fwd"@, f],
        None => Seq::empty(),
    })
}

/// Drop kinds named and joined by commas.
pub open spec fn drop_list_text(ks: Seq<DropKind>) -> Seq<char>
    decreases ks.len(),
{
    if ks.len() == 0 {
        Seq::empty()
    } else if ks.len() == 1 {
        drop_kind_name(ks[0])
    } else {
        drop_list_text(ks.drop_last()) + seq![','] + drop_kind_name(ks.last())
    }
}

/// Drop kinds named and joined by commas.
fn join_drop_kinds(ks: &Vec<DropKind>) -> (s: String)
    ensures
        s@ == drop_list_text(ks@),
{
    let mut s = String::new();
    let mut i: usize = 0;
    while i < ks.len()
        invariant
            i <= ks@.len(),
            s@ == drop_list_text(ks@.subrange(0, i as int)),
        decreases ks@.len() - i,
    {
        if i > 0 {
            crate::text::push_char(&mut s, ',');
        }
        push_str(&mut s, ks[i].name());
        proof {
            let t = ks@.subrange(0, i + 1);
            assert(t.drop_last() =~= ks@.subrange(0, i as int));
            if i == 0 {
                assert(s@ =~= drop_list_text(t));
            }
        }
        i = i + 1;
        assert(s@ =~= drop_list_text(ks@.subrange(0, i as int)));
    }
    assert(ks@.subrange(0, ks@.len() as int) =~= ks@);
    s
}

/// Appends a flag and its value.
fn flag(args: &mut Vec<String>, name: &str, value: String)
    ensures
        final(args).deep_view() == old(args).deep_view() + seq![name@, value@],
{
    let ghost before = args.deep_view();
    args.push(owned(name));
    args.push(value);
    assert(args.deep_view() =~= before + seq![name@, value@]);
}

/// Appends a flag that takes no value.
fn switch(args: &mut Vec<String>, name: &str)
    ensures
        final(args).deep_view() == old(args).deep_view() + seq![name@],
{
    let ghost before = args.deep_view();
    args.push(owned(name));
    assert(args.deep_view() =~= before + seq![name@]);
}

impl Config {
    /// The built-in settings: MiniTCP at 10.0.0.2 on tap0, Linux at 10.0.0.1.
    pub fn defaults() -> (c: Self)
        ensures
            c@ == default_view(),
    {
        let addr = our_ip();
        let c = Config {
            command: Command::Run,
            iface: owned(DEFAULT_IFACE),
            addr,
            mac: our_mac(),
            linux_addr: default_linux_addr(addr),
            tun: owned(DEFAULT_TUN),
            write: None,
            hex: false,
            quiet: false,
            count: None,
            drop: Vec::new(),
            drop_pct: 0,
            ttl: DEFAULT_TTL,
            icmp_id: None,
            fwd: None,
            listen: owned(DEFAULT_LISTEN),
            offline: false,
            config_path: owned(DEFAULT_CONFIG),
            warnings: Vec::new(),
        };
        assert(c.warnings.deep_view() =~= Seq::<Seq<char>>::empty());
        assert(c@ =~= default_view());
        c
    }

    /// MiniTCP's address as four octets.
    pub fn our_ip_bytes(&self) -> (r: [u8; 4])
        ensures
            r == self.addr.0,
    {
        self.addr.octets()
    }

    /// Who the stack is on the wire and what it loses on purpose.
    pub fn stack_config(&self) -> (s: StackConfig)
        ensures
            s.addr == self.addr,
            s.mac == self.mac,
            s.ttl == self.ttl,
            s.icmp_id == self.icmp_id,
            s.drop@ == self.drop@,
            s.drop_pct == self.drop_pct,
    {
        StackConfig {
            addr: self.addr,
            mac: self.mac,
            ttl: self.ttl,
            icmp_id: self.icmp_id,
            drop: copied_drops(&self.drop),
            drop_pct: self.drop_pct,
        }
    }

    /// Narrate every layer of every frame: the opposite of quiet.
    pub fn verbose(&self) -> (r: bool)
        ensures
            r == !self.quiet,
    {
        !self.quiet
    }

    /// How Ethernet frames will reach this stack, given whether the tun
    /// device exists: an explicit `--fwd` wins outright; otherwise a TAP on
    /// this machine if the kernel can give one, else the sidecar.
    pub fn transport(&self, tun_exists: bool) -> (t: Transport)
        ensures
            match self.fwd {
                Some(a) => t == Transport::Forwarded(a),
                None => if tun_exists {
                    t == Transport::LocalTap
                } else {
                    t matches Transport::Forwarded(a) && a@ == DEFAULT_FWD@
                },
            },
    {
        match &self.fwd {
            Some(a) => Transport::Forwarded(a.clone()),
            None => if tun_exists {
                Transport::LocalTap
            } else {
                Transport::Forwarded(owned(DEFAULT_FWD))
            },
        }
    }

    /// Where the stack reaches the sidecar: `--fwd`, or the default.
    pub fn fwd_addr(&self) -> (s: String)
        ensures
            s@ == match self.fwd {
                Some(a) => a@,
                None => DEFAULT_FWD@,
            },
    {
        match &self.fwd {
            Some(a) => a.clone(),
            None => owned(DEFAULT_FWD),
        }
    }

    /// Flags the TUI's child `minitcp stack` process should inherit.
    pub fn child_stack_args(&self, verbose: bool) -> (args: Vec<String>)
        ensures
            args.deep_view() == child_args(self@, verbose),
    {
        let mut args: Vec<String> = Vec::new();
        switch(&mut args, "stack");
        flag(&mut args, "--iface", self.iface.clone());
        flag(&mut args, "--addr", self.addr.to_string());
        flag(&mut args, "--mac", self.mac.to_string());
        flag(&mut args, "--linux-addr", self.linux_addr.to_string());
        flag(&mut args, "--tun", self.tun.clone());
        let ghost base = args.deep_view();
        if let Some(path) = &self.write {
            flag(&mut args, "--write", path.clone());
        }
        let ghost with_write = args.deep_view();
        if self.hex {
            switch(&mut args, "--hex");
        }
        let ghost with_hex = args.deep_view();
        if !verbose {
            switch(&mut args, "--quiet");
        }
        let ghost with_quiet = args.deep_view();
        if let Some(n) = self.count {
            flag(&mut args, "--count", decimal_string(n));
        }
        let ghost with_count = args.deep_view();
        if self.drop.len() > 0 {
            flag(&mut args, "--drop", join_drop_kinds(&self.drop));
        }
        let ghost with_drop = args.deep_view();
        if self.drop_pct > 0 {
            flag(&mut args, "--drop-pct", text_u8(self.drop_pct));
        }
        let ghost with_pct = args.deep_view();
        flag(&mut args, "--ttl", text_u8(self.ttl));
        let ghost with_ttl = args.deep_view();
        if let Some(id) = self.icmp_id {
            flag(&mut args, "--id", text_u16(id));
        }
        let ghost with_id = args.deep_view();
        if let Some(f) = &self.fwd {
            flag(&mut args, "--fwd", f.clone());
        }
        proof {
            let c = self@;
            assert(base =~= seq![
                "stack"@,
                "--iface"@,
                c.iface,
                "--addr"@,
                ipv4_text(c.addr.0@),
                "--mac"@,
                mac_text(c.mac.0@),
                "--linux-addr"@,
                ipv4_text(c.linux_addr.0@),
                "--tun"@,
                c.tun,
            ]);
            assert(args.deep_view() =~= child_args(c, verbose));
        }
        args
    }
}

/// One layer of settings with holes in it: `None` is "not mentioned".
#[derive(Clone, Debug, PartialEq, Eq)]
pub struct Partial {
    pub command: Option<Command>,
    pub iface: Option<String>,
    pub addr: Option<Ipv4Addr>,
    pub mac: Option<MacAddress>,
    pub linux_addr: Option<Ipv4Addr>,
    pub tun: Option<String>,
    pub write: Option<String>,
    pub hex: Option<bool>,
    pub quiet: Option<bool>,
    pub count: Option<u64>,
    pub drop: Option<Vec<DropKind>>,
    pub drop_pct: Option<u8>,
    pub ttl: Option<u8>,
    pub icmp_id: Option<u16>,
    pub config: Option<String>,
    pub fwd: Option<String>,
    pub listen: Option<String>,
    pub offline: Option<bool>,
}

/// A `Partial` with its text and lists taken as sequences.
#[verifier::ext_equal]
pub struct PartialView {
    pub command: Option<CommandView>,
    pub iface: Option<Seq<char>>,
    pub addr: Option<Ipv4Addr>,
    pub mac: Option<MacAddress>,
    pub linux_addr: Option<Ipv4Addr>,
    pub tun: Option<Seq<char>>,
    pub write: Option<Seq<char>>,
    pub hex: Option<bool>,
    pub quiet: Option<bool>,
    pub count: Option<u64>,
    pub drop: Option<Seq<DropKind>>,
    pub drop_pct: Option<u8>,
    pub ttl: Option<u8>,
    pub icmp_id: Option<u16>,
    pub config: Option<Seq<char>>,
    pub fwd: Option<Seq<char>>,
    pub listen: Option<Seq<char>>,
    pub offline: Option<bool>,
}

impl View for Partial {
    type V = PartialView;

    open spec fn view(&self) -> PartialView {
        PartialView {
            command: match self.command {
                Some(c) => Some(c@),
                None => None,
            },
            iface: opt_text(self.iface),
            addr: self.addr,
            mac: self.mac,
            linux_addr: self.linux_addr,
            tun: opt_text(self.tun),
            write: opt_text(self.write),
            hex: self.hex,
            quiet: self.quiet,
            count: self.count,
            drop: match self.drop {
                Some(d) => Some(d@),
                None => None,
            },
            drop_pct: self.drop_pct,
            ttl: self.ttl,
            icmp_id: self.icmp_id,
            config: opt_text(self.config),
            fwd: opt_text(self.fwd),
            listen: opt_text(self.listen),
            offline: self.offline,
        }
    }
}

/// The layer that mentions nothing.
pub open spec fn empty_partial() -> PartialView {
    PartialView {
        command: None,
        iface: None,
        addr: None,
        mac: None,
        linux_addr: None,
        tun: None,
        write: None,
        hex: None,
        quiet: None,
        count: None,
        drop: None,
        drop_pct: None,
        ttl: None,
        icmp_id: None,
        config: None,
        fwd: None,
        listen: None,
        offline: None,
    }
}

impl Partial {
    /// A layer that mentions nothing.
    pub fn new() -> (p: Self)
        ensures
            p@ == empty_partial(),
    {
        Partial {
            command: None,
            iface: None,
            addr: None,
            mac: None,
            linux_addr: None,
            tun: None,
            write: None,
            hex: None,
            quiet: None,
            count: None,
            drop: None,
            drop_pct: None,
            ttl: None,
            icmp_id: None,
            config: None,
            fwd: None,
            listen: None,
            offline: None,
        }
    }
}

/// `v` where the layer mentions it, `b` where it does not.
pub open spec fn or_keep<T>(b: T, v: Option<T>) -> T {
    match v {
        Some(x) => x,
        None => b,
    }
}

/// `base` with every value `o` mentions laid over it. The command, the
/// config path and the warnings are not settings and stay as they were.
pub open spec fn layered(base: ConfigView, o: PartialView) -> ConfigView {
    ConfigView {
        iface: or_keep(base.iface, o.iface),
        addr: or_keep(base.addr, o.addr),
        mac: or_keep(base.mac, o.mac),
        linux_addr: or_keep(base.linux_addr, o.linux_addr),
        tun: or_keep(base.tun, o.tun),
        write: match o.write {
            Some(w) => Some(w),
            None => base.write,
        },
        hex: or_keep(base.hex, o.hex),
        quiet: or_keep(base.quiet, o.quiet),
        count: match o.count {
            Some(n) => Some(n),
            None => base.count,
        },
        drop: or_keep(base.drop, o.drop),
        drop_pct: or_keep(base.drop_pct, o.drop_pct),
        ttl: or_keep(base.ttl, o.ttl),
        icmp_id: match o.icmp_id {
            Some(n) => Some(n),
            None => base.icmp_id,
        },
        fwd: match o.fwd {
            Some(f) => Some(f),
            None => base.fwd,
        },
        listen: or_keep(base.listen, o.listen),
        offline: or_keep(base.offline, o.offline),
        ..base
    }
}

fn apply_text_fields(base: &mut Config, over: &Partial)
    ensures
        final(base)@ == (ConfigView {
            iface: or_keep(old(base)@.iface, over@.iface),
            tun: or_keep(old(base)@.tun, over@.tun),
            write: match over@.write {
                Some(w) => Some(w),
                None => old(base)@.write,
            },
            fwd: match over@.fwd {
                Some(f) => Some(f),
                None => old(base)@.fwd,
            },
            listen: or_keep(old(base)@.listen, over@.listen),
            ..old(base)@
        }),
{
    let ghost start = base@;
    if let Some(v) = &over.iface {
        base.iface = v.clone();
    }
    if let Some(v) = &over.tun {
        base.tun = v.clone();
    }
    if let Some(v) = &over.write {
        base.write = Some(v.clone());
    }
    if let Some(v) = &over.fwd {
        base.fwd = Some(v.clone());
    }
    if let Some(v) = &over.listen {
        base.listen = v.clone();
    }
    assert(base@ =~= (ConfigView {
        iface: or_keep(start.iface, over@.iface),
        tun: or_keep(start.tun, over@.tun),
        write: match over@.write {
            Some(w) => Some(w),
            None => start.write,
        },
        fwd: match over@.fwd {
            Some(f) => Some(f),
            None => start.fwd,
        },
        listen: or_keep(start.listen, over@.listen),
        ..start
    }));
}

fn apply_address_fields(base: &mut Config, over: &Partial)
    ensures
        final(base)@ == (ConfigView {
            addr: or_keep(old(base)@.addr, over@.addr),
            mac: or_keep(old(base)@.mac, over@.mac),
            linux_addr: or_keep(old(base)@.linux_addr, over@.linux_addr),
            hex: or_keep(old(base)@.hex, over@.hex),
            quiet: or_keep(old(base)@.quiet, over@.quiet),
            offline: or_keep(old(base)@.offline, over@.offline),
            ..old(base)@
        }),
{
    let ghost start = base@;
    if let Some(v) = over.addr {
        base.addr = v;
    }
    if let Some(v) = over.mac {
        base.mac = v;
    }
    if let Some(v) = over.linux_addr {
        base.linux_addr = v;
    }
    if let Some(v) = over.hex {
        base.hex = v;
    }
    if let Some(v) = over.quiet {
        base.quiet = v;
    }
    if let Some(v) = over.offline {
        base.offline = v;
    }
    assert(base@ =~= (ConfigView {
        addr: or_keep(start.addr, over@.addr),
        mac: or_keep(start.mac, over@.mac),
        linux_addr: or_keep(start.linux_addr, over@.linux_addr),
        hex: or_keep(start.hex, over@.hex),
        quiet: or_keep(start.quiet, over@.quiet),
        offline: or_keep(start.offline, over@.offline),
        ..start
    }));
}

fn apply_knob_fields(base: &mut Config, over: &Partial)
    ensures
        final(base)@ == (ConfigView {
            count: match over@.count {
                Some(n) => Some(n),
                None => old(base)@.count,
            },
            drop: or_keep(old(base)@.drop, over@.drop),
            drop_pct: or_keep(old(base)@.drop_pct, over@.drop_pct),
            ttl: or_keep(old(base)@.ttl, over@.ttl),
            icmp_id: match over@.icmp_id {
                Some(n) => Some(n),
                None => old(base)@.icmp_id,
            },
            ..old(base)@
        }),
{
    let ghost start = base@;
    if let Some(v) = over.count {
        base.count = Some(v);
    }
    if let Some(v) = &over.drop {
        base.drop = v.clone();
    }
    if let Some(v) = over.drop_pct {
        base.drop_pct = v;
    }
    if let Some(v) = over.ttl {
        base.ttl = v;
    }
    if let Some(v) = over.icmp_id {
        base.icmp_id = Some(v);
    }
    assert(base@ =~= (ConfigView {
        count: match over@.count {
            Some(n) => Some(n),
            None => start.count,
        },
        drop: or_keep(start.drop, over@.drop),
        drop_pct: or_keep(start.drop_pct, over@.drop_pct),
        ttl: or_keep(start.ttl, over@.ttl),
        icmp_id: match over@.icmp_id {
            Some(n) => Some(n),
            None => start.icmp_id,
        },
        ..start
    }));
}

/// Lays one layer of settings over `base`: every value `over` mentions
/// replaces the one below it.
pub fn apply_partial(base: &mut Config, over: &Partial)
    ensures
        final(base)@ == layered(old(base)@, over@),
{
    let ghost start = base@;
    apply_text_fields(base, over);
    apply_address_fields(base, over);
    apply_knob_fields(base, over);
    assert(base@ =~= layered(start, over@));
}

} // verus!
