//! The TAP sidecar: a container that owns the real TAP so macOS (and any
//! host without /dev/net/tun) can still run the lab. What it is called, which
//! image it runs, how it is started, and how Docker's answers are read.

use vstd::prelude::*;
use crate::proto::ipv4::{Ipv4Addr, ipv4_text};
use crate::parse::lower;
use crate::release::{strip_v, without_v};
use crate::text::{contains_text, decimal, holds, owned, push_str, str_eq};
use super::process::{AllowedFailure, CommandOutput, check_output, check_spec, detail_of, output_detail};

verus! {

/// The sidecar container's name.
pub const CONTAINER: &'static str = "minitcp-tap";

/// Where the sidecar image is published.
pub const IMAGE_REPO: &'static str = "ghcr.io/dfoshidero/minitcp";

/// The port the bridge listens on and the host stack connects to.
pub const DEFAULT_PORT: u16 = 7946;

/// The image and pull policy for a release: the tag matching this binary,
/// which never changes once published, so pulled only when missing; or
/// `latest`, which moves, so always pulled, for a build with no release.
pub open spec fn image_spec(release: Seq<char>) -> (Seq<char>, Seq<char>) {
    let r = strip_v(release);
    if r.len() == 0 || r == "0.0.0"@ {
        (IMAGE_REPO@ + ":latest"@, "always"@)
    } else {
        (IMAGE_REPO@ + seq![':'] + r, "missing"@)
    }
}

/// Which sidecar image to run for this release, and how eagerly to pull it.
pub fn image_and_pull_policy(release: &str) -> (r: (String, &'static str))
    ensures
        (r.0@, r.1@) == image_spec(release@),
{
    let r = without_v(release);
    if r.as_str().is_empty() || str_eq(r.as_str(), "0.0.0") {
        let mut image = owned(IMAGE_REPO);
        push_str(&mut image, ":latest");
        return (image, "always");
    }
    let mut image = owned(IMAGE_REPO);
    crate::text::push_char(&mut image, ':');
    push_str(&mut image, r.as_str());
    (image, "missing")
}

/// A failure that means "no such image tag", rather than something worth
/// retrying.
pub open spec fn says_missing_image(detail: Seq<char>) -> bool {
    holds(lower(detail), "manifest unknown"@) || holds(lower(detail), "not found"@) || holds(
        lower(detail),
        "no such image"@,
    ) || holds(lower(detail), "manifest for"@)
}

/// Whether a failure message means the image tag does not exist.
pub fn is_missing_image(detail: &str) -> (r: bool)
    ensures
        r == says_missing_image(detail@),
{
    let l = crate::parse::to_lower(detail);
    contains_text(l.as_str(), "manifest unknown") || contains_text(l.as_str(), "not found") || contains_text(
        l.as_str(),
        "no such image",
    ) || contains_text(l.as_str(), "manifest for")
}

/// What Docker looks like from here: answering, not installed, or installed
/// but not answering (and what it said).
#[derive(Clone, Debug, PartialEq, Eq)]
pub enum State {
    Ready,
    Missing,
    Unavailable(String),
}

/// What running `docker info` gave.
pub enum DockerInfo {
    /// It ran, with this output.
    Ran(CommandOutput),
    /// There is no `docker` to run.
    NotInstalled,
    /// It could not be run, for this reason.
    Failed(String),
}

/// Docker's state from `docker info`: ready when it succeeds, unavailable
/// with its message when it fails, missing when it is not installed; a
/// failure to run it at all is an error.
pub fn state(info: &DockerInfo) -> (r: Result<State, String>)
    ensures
        match info {
            DockerInfo::Ran(o) => if o.success {
                r matches Ok(State::Ready)
            } else {
                r matches Ok(State::Unavailable(d)) && d@ == if detail_of(*o).len() == 0 {
                    "docker info exited unsuccessfully"@
                } else {
                    detail_of(*o)
                }
            },
            DockerInfo::NotInstalled => r matches Ok(State::Missing),
            DockerInfo::Failed(e) => r matches Err(m) && m@ == "cannot check Docker: "@ + e@,
        },
{
    match info {
        DockerInfo::Ran(o) => {
            if o.success {
                return Ok(State::Ready);
            }
            let detail = output_detail(o);
            if detail.as_str().is_empty() {
                Ok(State::Unavailable(owned("docker info exited unsuccessfully")))
            } else {
                Ok(State::Unavailable(detail))
            }
        },
        DockerInfo::NotInstalled => Ok(State::Missing),
        DockerInfo::Failed(e) => {
            let mut m = owned("cannot check Docker: ");
            push_str(&mut m, e.as_str());
            Err(m)
        },
    }
}

/// The arguments of `docker run` for the sidecar: detached, named, root
/// inside with the capabilities a TAP needs and the tun device, the bridge
/// port published on loopback only, then the bridge command for this TAP.
pub open spec fn run_args_spec(iface: Seq<char>, linux_addr: Ipv4Addr, image: Seq<char>, pull: Seq<char>) -> Seq<Seq<char>> {
    let port = decimal(DEFAULT_PORT as nat);
    seq![
        "run"@,
        "-d"@,
        "--name"@,
        CONTAINER@,
        "-u"@,
        "0"@,
        "--pull"@,
        pull,
        "--cap-add=NET_ADMIN"@,
        "--cap-add=NET_RAW"@,
        "--device=/dev/net/tun"@,
        "-p"@,
        "127.0.0.1:"@ + port + seq![':'] + port,
        image,
        "bridge"@,
        "--iface"@,
        iface,
        "--linux-addr"@,
        ipv4_text(linux_addr.0@),
        "--listen"@,
        "0.0.0.0:"@ + port,
    ]
}

fn arg(v: &mut Vec<String>, a: &str)
    ensures
        final(v).deep_view() == old(v).deep_view().push(a@),
{
    let ghost before = v.deep_view();
    v.push(owned(a));
    assert(v.deep_view() =~= before.push(a@));
}

fn arg_owned(v: &mut Vec<String>, a: String)
    ensures
        final(v).deep_view() == old(v).deep_view().push(a@),
{
    let ghost before = v.deep_view();
    let ghost t = a@;
    v.push(a);
    assert(v.deep_view() =~= before.push(t));
}

/// The arguments that start the sidecar.
pub fn run_args(iface: &str, linux_addr: Ipv4Addr, image: &str, pull: &str) -> (v: Vec<String>)
    ensures
        v.deep_view() == run_args_spec(iface@, linux_addr, image@, pull@),
{
    let port = crate::text::decimal_string(DEFAULT_PORT as u64);
    let mut publish = owned("127.0.0.1:");
    push_str(&mut publish, port.as_str());
    crate::text::push_char(&mut publish, ':');
    push_str(&mut publish, port.as_str());
    let mut listen = owned("0.0.0.0:");
    push_str(&mut listen, port.as_str());
    let ghost p = decimal(DEFAULT_PORT as nat);
    assert(port@ == p);
    assert(publish@ =~= "127.0.0.1:"@ + p + seq![':'] + p);
    assert(listen@ =~= "0.0.0.0:"@ + p);
    let mut v: Vec<String> = Vec::new();
    arg(&mut v, "run");
    arg(&mut v, "-d");
    arg(&mut v, "--name");
    arg(&mut v, CONTAINER);
    arg(&mut v, "-u");
    arg(&mut v, "0");
    arg(&mut v, "--pull");
    arg(&mut v, pull);
    arg(&mut v, "--cap-add=NET_ADMIN");
    arg(&mut v, "--cap-add=NET_RAW");
    arg(&mut v, "--device=/dev/net/tun");
    arg(&mut v, "-p");
    arg_owned(&mut v, publish);
    arg(&mut v, image);
    arg(&mut v, "bridge");
    arg(&mut v, "--iface");
    arg(&mut v, iface);
    arg(&mut v, "--linux-addr");
    arg_owned(&mut v, linux_addr.to_string());
    arg(&mut v, "--listen");
    arg_owned(&mut v, listen);
    assert(v.deep_view() =~= run_args_spec(iface@, linux_addr, image@, pull@));
    v
}

/// What `docker rm -f` of the sidecar means: removed, nothing to remove, or
/// an error.
pub fn down(output: &CommandOutput) -> (r: Result<bool, String>)
    ensures
        output.success ==> r == Ok::<bool, String>(true),
        !output.success ==> match check_spec(
            "docker"@,
            seq!["rm"@, "-f"@, CONTAINER@],
            *output,
            AllowedFailure::DoesNotExist,
        ) {
            Ok(()) => r == Ok::<bool, String>(false),
            Err(m) => r matches Err(x) && x@ == m,
        },
{
    if output.success {
        return Ok(true);
    }
    let args: [&str; 3] = ["rm", "-f", CONTAINER];
    assert(Seq::new(args@.len(), |i: int| args@[i]@) =~= seq!["rm"@, "-f"@, CONTAINER@]);
    check_output("docker", args.as_slice(), output, AllowedFailure::DoesNotExist)?;
    Ok(false)
}

/// Whether `docker inspect -f {{.State.Running}}` said the container runs.
pub fn says_running(reply: &str) -> (r: bool)
    ensures
        r == (crate::parse::trimmed(reply@) == "true"@),
{
    let t = crate::parse::trim(reply);
    str_eq(t.as_str(), "true")
}

/// Whether a failed start should be retried with `latest`: the pinned tag
/// was never published, and `latest` was not what failed.
pub open spec fn falls_back(image: Seq<char>, detail: Seq<char>) -> bool {
    says_missing_image(detail) && !(image.len() >= 7 && image.subrange(image.len() - 7, image.len() as int) == ":latest"@)
}

/// Whether a failed start should be retried with `latest`.
pub fn should_fall_back(image: &str, detail: &str) -> (r: bool)
    ensures
        r == falls_back(image@, detail@),
{
    if !is_missing_image(detail) {
        return false;
    }
    let cs = crate::text::chars_of(image);
    let n = cs.len();
    if n < 7 {
        return true;
    }
    let tail = crate::text::string_between(&cs, n - 7, n);
    !str_eq(tail.as_str(), ":latest")
}

/// What a failed `docker inspect` of the sidecar means: the container is
/// not there (`false`), or an error naming the command and what it said.
pub fn inspect_failure(output: &CommandOutput) -> (r: Result<bool, String>)
    requires
        !output.success,
    ensures
        holds(lower(detail_of(*output)), "no such object"@) ==> r == Ok::<bool, String>(false),
        !holds(lower(detail_of(*output)), "no such object"@) ==> match check_spec(
            "docker"@,
            seq!["inspect"@, "-f"@, "{{.State.Running}}"@, CONTAINER@],
            *output,
            AllowedFailure::Nothing,
        ) {
            Ok(()) => r == Ok::<bool, String>(false),
            Err(m) => r matches Err(x) && x@ == m,
        },
{
    let detail = output_detail(output);
    let l = crate::parse::to_lower(detail.as_str());
    if contains_text(l.as_str(), "no such object") {
        return Ok(false);
    }
    let args: [&str; 4] = ["inspect", "-f", "{{.State.Running}}", CONTAINER];
    assert(Seq::new(args@.len(), |i: int| args@[i]@) =~= seq!["inspect"@, "-f"@, "{{.State.Running}}"@, CONTAINER@]);
    check_output("docker", args.as_slice(), output, AllowedFailure::Nothing)?;
    Ok(false)
}

/// The sidecar's bridge listens on all of the container's interfaces, on
/// the very port `-p` publishes from the host's loopback: the argument after
/// `-p` is `127.0.0.1:P:P` and the last two are `--listen 0.0.0.0:P`, with P
/// the bridge port 7946.
pub proof fn lemma_sidecar_listens_where_the_port_is_published(
    iface: Seq<char>,
    linux_addr: Ipv4Addr,
    image: Seq<char>,
    pull: Seq<char>,
)
    ensures
        ({
            let a = run_args_spec(iface, linux_addr, image, pull);
            let port = decimal(7946);
            &&& a[11] == "-p"@
            &&& a[12] == "127.0.0.1:"@ + port + ":"@ + port
            &&& a[a.len() - 2] == "--listen"@
            &&& a[a.len() - 1] == "0.0.0.0:"@ + port
        }),
{
    reveal_strlit(":");
    let port = decimal(7946);
    assert(port + seq![':'] + port =~= port + ":"@ + port);
    assert(("127.0.0.1:"@ + port + seq![':']) + port =~= "127.0.0.1:"@ + port + ":"@ + port);
}

} // verus!
