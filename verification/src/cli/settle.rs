//! Settling a command line into a configuration: where minitcp.toml is,
//! what it says, and how the layers stack up. The program looks at the file
//! system and hands over what it found; everything else is decided here.

use vstd::prelude::*;
use crate::text::{owned, push_char, push_str};
use super::command::{Command, CommandView, copy_command, is_setter, is_setter_view};
use super::error::{ParseError, ParseErrorView, usage_view};
use super::file::{entries_effect, invalid_toml, load_toml, toml_document};
use super::options::{
    Config, ConfigView, DEFAULT_CONFIG, Partial, PartialView, apply_partial, default_linux_addr, default_view,
    empty_partial, layered, linux_addr_for,
};
use super::usage::USAGE_CONFIG;

verus! {

/// What the program found at the settings file's path.
pub enum ConfigFile {
    /// Nothing, or something that is not a file.
    Absent,
    /// A file, and its text.
    Text(String),
    /// A file that could not be read, and why.
    Unreadable(String),
}

/// `name` inside the directory `dir`, as `Path::join` puts them together.
pub open spec fn join_path(dir: Seq<char>, name: Seq<char>) -> Seq<char> {
    if dir.len() == 0 || dir.last() == '/' {
        dir + name
    } else {
        dir + seq!['/'] + name
    }
}

/// Where the settings come from: `--config`, else minitcp.toml in `cwd`.
pub open spec fn config_path_of(cli: PartialView, cwd: Seq<char>) -> Seq<char> {
    match cli.config {
        Some(p) => p,
        None => join_path(cwd, DEFAULT_CONFIG@),
    }
}

/// The path of the settings file a command line reads: `--config`, else
/// minitcp.toml in `cwd`.
pub fn config_path(cli: &Partial, cwd: &str) -> (s: String)
    ensures
        s@ == config_path_of(cli@, cwd@),
{
    match &cli.config {
        Some(p) => p.clone(),
        None => {
            let mut s = owned(cwd);
            let n = s.as_str().unicode_len();
            if n > 0 && s.as_str().get_char(n - 1) != '/' {
                push_char(&mut s, '/');
            }
            push_str(&mut s, DEFAULT_CONFIG);
            assert(s@ =~= join_path(cwd@, DEFAULT_CONFIG@));
            s
        },
    }
}

/// `acc` with `name` added when `given`.
pub open spec fn add_if(acc: Seq<Seq<char>>, given: bool, name: Seq<char>) -> Seq<Seq<char>> {
    if given {
        acc.push(name)
    } else {
        acc
    }
}

/// The flags given that only shape a running stack, in a fixed order.
pub open spec fn stray_flags(p: PartialView) -> Seq<Seq<char>> {
    let a = add_if(Seq::empty(), p.ttl is Some, "--ttl"@);
    let b = add_if(a, p.drop is Some, "--drop"@);
    let c = add_if(b, p.drop_pct is Some, "--drop-pct"@);
    let d = add_if(c, p.icmp_id is Some, "--id"@);
    let e = add_if(d, p.count is Some, "--count"@);
    let f = add_if(e, p.quiet is Some, "--quiet"@);
    let g = add_if(f, p.hex is Some, "--hex"@);
    add_if(g, p.write is Some, "--write"@)
}

/// How a command that runs no stack is named in a warning.
pub open spec fn command_word(c: CommandView) -> Option<Seq<char>> {
    match c {
        CommandView::Bridge => Some("bridge"@),
        CommandView::TapUp => Some("tap up"@),
        CommandView::TapDown => Some("tap down"@),
        CommandView::TapShow => Some("tap"@),
        CommandView::TapSetIface(_) => Some("tap iface"@),
        CommandView::TapSetAddr(_) => Some("tap addr"@),
        CommandView::TapSetTun(_) => Some("tap tun"@),
        CommandView::IdentityShow => Some("identity"@),
        CommandView::IdentitySetAddr(_) => Some("identity addr"@),
        CommandView::IdentitySetMac(_) => Some("identity mac"@),
        CommandView::Pcap(_) => Some("pcap"@),
        _ => None,
    }
}

/// The separator before item `i` of `n` in a listing: nothing, `, `, or
/// ` and ` before the last.
pub open spec fn list_separator(i: int, n: int) -> Seq<char> {
    if i == 0 {
        Seq::empty()
    } else if i == n - 1 {
        " and "@
    } else {
        ", "@
    }
}

/// The first `k` items listed, in English.
pub open spec fn listing_upto(fs: Seq<Seq<char>>, k: nat) -> Seq<char>
    decreases k,
{
    if k == 0 {
        Seq::empty()
    } else {
        listing_upto(fs, (k - 1) as nat) + list_separator(k - 1, fs.len() as int) + fs[k - 1]
    }
}

/// The warning for flags a command cannot use.
pub open spec fn warning_text(fs: Seq<Seq<char>>, word: Seq<char>) -> Seq<char> {
    listing_upto(fs, fs.len()) + (if fs.len() == 1 { " has"@ } else { " have"@ }) + " no effect on `"@ + word + "`"@
}

/// The warnings a command line earns.
pub open spec fn warnings_for(c: CommandView, cli: PartialView) -> Seq<Seq<char>> {
    match command_word(c) {
        Some(w) => if stray_flags(cli).len() > 0 {
            seq![warning_text(stray_flags(cli), w)]
        } else {
            Seq::empty()
        },
        None => Seq::empty(),
    }
}

/// The layer minitcp.toml gives, from what was found at its path.
pub open spec fn loaded_layer(cli: PartialView, path: Seq<char>, file: ConfigFile) -> Result<PartialView, ParseErrorView> {
    match file {
        ConfigFile::Text(t) => match toml_document(t@) {
            Err(m) => Err(invalid_toml(path, m)),
            Ok(es) => entries_effect(empty_partial(), es, es.len()),
        },
        ConfigFile::Unreadable(m) => Err(
            usage_view("config file not found: "@ + path + " ("@ + m@ + ")"@, USAGE_CONFIG@),
        ),
        ConfigFile::Absent => if cli.config is Some && !(cli.command matches Some(c) && is_setter_view(c)) {
            Err(usage_view("config file not found: "@ + path, USAGE_CONFIG@))
        } else {
            Ok(empty_partial())
        },
    }
}

/// The configuration a command line settles into: a help or version request
/// is answered from the defaults alone; otherwise defaults, then the file,
/// then the command line, with Linux at `.1` on MiniTCP's street unless
/// either layer placed it.
pub open spec fn settled(cli: PartialView, cwd: Seq<char>, file: ConfigFile) -> Result<ConfigView, ParseErrorView> {
    match cli.command {
        Some(CommandView::Help(t)) => Ok(ConfigView { command: CommandView::Help(t), ..default_view() }),
        Some(CommandView::Version) => Ok(ConfigView { command: CommandView::Version, ..default_view() }),
        _ => {
            let path = config_path_of(cli, cwd);
            match loaded_layer(cli, path, file) {
                Err(e) => Err(e),
                Ok(l) => {
                    let c1 = layered(layered(default_view(), l), cli);
                    let c2 = if l.linux_addr is None && cli.linux_addr is None {
                        ConfigView { linux_addr: linux_addr_for(c1.addr), ..c1 }
                    } else {
                        c1
                    };
                    let command = match cli.command {
                        Some(c) => c,
                        None => CommandView::Run,
                    };
                    Ok(ConfigView { config_path: path, command, warnings: warnings_for(command, cli), ..c2 })
                },
            }
        },
    }
}

/// Adds `name` when `given`.
fn add_flag_if(v: &mut Vec<String>, given: bool, name: &str)
    ensures
        final(v).deep_view() == add_if(old(v).deep_view(), given, name@),
{
    if given {
        let ghost before = v.deep_view();
        v.push(owned(name));
        assert(v.deep_view() =~= before.push(name@));
    }
}

/// The flags given that only shape a running stack.
fn stray(cli: &Partial) -> (v: Vec<String>)
    ensures
        v.deep_view() == stray_flags(cli@),
{
    let mut v: Vec<String> = Vec::new();
    assert(v.deep_view() =~= Seq::<Seq<char>>::empty());
    add_flag_if(&mut v, cli.ttl.is_some(), "--ttl");
    add_flag_if(&mut v, cli.drop.is_some(), "--drop");
    add_flag_if(&mut v, cli.drop_pct.is_some(), "--drop-pct");
    add_flag_if(&mut v, cli.icmp_id.is_some(), "--id");
    add_flag_if(&mut v, cli.count.is_some(), "--count");
    add_flag_if(&mut v, cli.quiet.is_some(), "--quiet");
    add_flag_if(&mut v, cli.hex.is_some(), "--hex");
    add_flag_if(&mut v, cli.write.is_some(), "--write");
    v
}

/// How a command that runs no stack is named in a warning.
fn word_for(c: &Command) -> (r: Option<&'static str>)
    ensures
        match command_word(c@) {
            Some(w) => r matches Some(x) && x@ == w,
            None => r is None,
        },
{
    match c {
        Command::Bridge => Some("bridge"),
        Command::TapUp => Some("tap up"),
        Command::TapDown => Some("tap down"),
        Command::TapShow => Some("tap"),
        Command::TapSetIface(_) => Some("tap iface"),
        Command::TapSetAddr(_) => Some("tap addr"),
        Command::TapSetTun(_) => Some("tap tun"),
        Command::IdentityShow => Some("identity"),
        Command::IdentitySetAddr(_) => Some("identity addr"),
        Command::IdentitySetMac(_) => Some("identity mac"),
        Command::Pcap(_) => Some("pcap"),
        _ => None,
    }
}

/// The warnings a command line earns: one naming every flag given that the
/// command cannot use.
pub fn warnings(c: &Command, cli: &Partial) -> (w: Vec<String>)
    ensures
        w.deep_view() == warnings_for(c@, cli@),
{
    let word = match word_for(c) {
        Some(word) => word,
        None => {
            let w: Vec<String> = Vec::new();
            assert(w.deep_view() =~= warnings_for(c@, cli@));
            return w;
        },
    };
    let fs = stray(cli);
    let ghost fsv = stray_flags(cli@);
    if fs.len() == 0 {
        let w: Vec<String> = Vec::new();
        assert(w.deep_view() =~= warnings_for(c@, cli@));
        return w;
    }
    let mut s = String::new();
    let n = fs.len();
    let mut i: usize = 0;
    while i < n
        invariant
            n == fs@.len(),
            fs@.len() == fsv.len(),
            fs.deep_view() == fsv,
            i <= n,
            s@ == listing_upto(fsv, i as nat),
        decreases n - i,
    {
        if i > 0 {
            if i == n - 1 {
                push_str(&mut s, " and ");
            } else {
                push_str(&mut s, ", ");
            }
        }
        push_str(&mut s, fs[i].as_str());
        proof {
            assert(fs.deep_view()[i as int] == fs@[i as int]@);
        }
        i = i + 1;
        assert(s@ =~= listing_upto(fsv, i as nat));
    }
    if n == 1 {
        push_str(&mut s, " has");
    } else {
        push_str(&mut s, " have");
    }
    push_str(&mut s, " no effect on `");
    push_str(&mut s, word);
    push_str(&mut s, "`");
    let mut w: Vec<String> = Vec::new();
    w.push(s);
    assert(w.deep_view() =~= warnings_for(c@, cli@));
    w
}

/// Settles a command line into a configuration, given what the program
/// found at `config_path(cli, cwd)`.
pub fn settle(cli: Partial, cwd: &str, file: ConfigFile) -> (r: Result<Config, ParseError>)
    ensures
        match settled(cli@, cwd@, file) {
            Ok(c) => r matches Ok(x) && x@ == c,
            Err(e) => r matches Err(x) && x@ == e,
        },
{
    match &cli.command {
        Some(Command::Help(t)) => {
            let mut cfg = Config::defaults();
            cfg.command = Command::Help(*t);
            return Ok(cfg);
        },
        Some(Command::Version) => {
            let mut cfg = Config::defaults();
            cfg.command = Command::Version;
            return Ok(cfg);
        },
        _ => {},
    }
    let path = config_path(&cli, cwd);
    let mut loaded = Partial::new();
    match &file {
        ConfigFile::Text(t) => load_toml(&mut loaded, path.as_str(), t.as_str())?,
        ConfigFile::Unreadable(m) => {
            let mut s = owned("config file not found: ");
            push_str(&mut s, path.as_str());
            push_str(&mut s, " (");
            push_str(&mut s, m.as_str());
            push_str(&mut s, ")");
            return Err(ParseError::with_usage(s, owned(USAGE_CONFIG)));
        },
        ConfigFile::Absent => {
            let setter = match &cli.command {
                Some(c) => is_setter(c),
                None => false,
            };
            if cli.config.is_some() && !setter {
                let mut s = owned("config file not found: ");
                push_str(&mut s, path.as_str());
                return Err(ParseError::with_usage(s, owned(USAGE_CONFIG)));
            }
        },
    }
    let mut cfg = Config::defaults();
    apply_partial(&mut cfg, &loaded);
    apply_partial(&mut cfg, &cli);
    if loaded.linux_addr.is_none() && cli.linux_addr.is_none() {
        cfg.linux_addr = default_linux_addr(cfg.addr);
    }
    let command = match &cli.command {
        Some(c) => copy_command(c),
        None => Command::Run,
    };
    cfg.warnings = warnings(&command, &cli);
    cfg.config_path = path;
    cfg.command = command;
    Ok(cfg)
}

} // verus!
