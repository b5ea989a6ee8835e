//! The TAP device itself: whether it should live here or in the sidecar,
//! who should own it, and the `ip tuntap` arguments that create it.

use vstd::prelude::*;
use crate::parse::{parse_u64, parse_u64_spec, trim, trimmed};
use crate::text::{owned, push_str};
use super::docker::State;

verus! {

/// Where the kernel lists an interface: `/sys/class/net/<name>`. The
/// interface is present exactly when that entry exists.
pub fn iface_path(name: &str) -> (p: String)
    ensures
        p@ == "/sys/class/net/"@ + name@,
{
    let mut p = owned("/sys/class/net/");
    push_str(&mut p, name);
    p
}

/// The arguments of `ip tuntap add` for a device `name`, handed to `owner`
/// when there is one.
pub open spec fn tuntap_spec(name: Seq<char>, owner: Option<Seq<char>>) -> Seq<Seq<char>> {
    seq!["tuntap"@, "add"@, "dev"@, name, "mode"@, "tap"@] + match owner {
        Some(uid) => seq!["user"@, uid],
        None => Seq::empty(),
    }
}

/// The `ip tuntap add` arguments. With no owner the `user` clause is left
/// out entirely, leaving the device root's.
pub fn tuntap_add_args(name: &str, owner: Option<&str>) -> (v: Vec<String>)
    ensures
        v.deep_view() == tuntap_spec(
            name@,
            match owner {
                Some(u) => Some(u@),
                None => None,
            },
        ),
{
    let mut v: Vec<String> = Vec::new();
    v.push(owned("tuntap"));
    v.push(owned("add"));
    v.push(owned("dev"));
    v.push(owned(name));
    v.push(owned("mode"));
    v.push(owned("tap"));
    if let Some(uid) = owner {
        v.push(owned("user"));
        v.push(owned(uid));
    }
    assert(v.deep_view() =~= tuntap_spec(
        name@,
        match owner {
            Some(u) => Some(u@),
            None => None,
        },
    ));
    v
}

/// Who should own a TAP about to be created: ourselves when not root; when
/// root, the account `sudo` was run from (`SUDO_UID`, a number other than
/// 0); otherwise nobody, and the device stays root's.
pub open spec fn owner_spec(uid: u32, sudo_uid: Option<Seq<char>>) -> Option<u32> {
    if uid != 0 {
        Some(uid)
    } else {
        match sudo_uid {
            None => None,
            Some(text) => match parse_u64_spec(trimmed(text)) {
                Some(n) => if n != 0 && n <= u32::MAX {
                    Some(n as u32)
                } else {
                    None
                },
                None => None,
            },
        }
    }
}

/// Who should own a TAP about to be created, given our uid and `SUDO_UID`.
pub fn owner_uid(uid: u32, sudo_uid: Option<&str>) -> (r: Option<u32>)
    ensures
        r == owner_spec(
            uid,
            match sudo_uid {
                Some(s) => Some(s@),
                None => None,
            },
        ),
{
    if uid != 0 {
        return Some(uid);
    }
    match sudo_uid {
        None => None,
        Some(text) => {
            let t = trim(text);
            match parse_u64(t.as_str()) {
                Some(n) => if n != 0 && n <= 0xffff_ffff {
                    Some(n as u32)
                } else {
                    None
                },
                None => None,
            }
        },
    }
}

/// How `minitcp tap up` gets a TAP.
#[derive(Clone, Debug, PartialEq, Eq)]
pub enum UpPlan {
    /// Start the sidecar.
    Sidecar,
    /// Make a TAP on this Linux machine, after this warning if any.
    Local(Option<String>),
    /// Give up with this message; `true` when the cause is a missing Docker.
    Refuse(String, bool),
}

/// How to get a TAP, from Docker's state: the sidecar whenever Docker
/// answers, since it needs no root and behaves the same everywhere; a local
/// TAP on Linux otherwise; and elsewhere an explanation.
pub fn tap_up_plan(state: &State, on_linux: bool) -> (p: UpPlan)
    ensures
        match state {
            State::Ready => p == UpPlan::Sidecar,
            State::Unavailable(d) => if on_linux {
                p matches UpPlan::Local(Some(w)) && w@ == "Docker is unavailable ("@ + d@ + "); using a local Linux TAP"@
            } else {
                p matches UpPlan::Refuse(m, false) && m@ == "Docker is unavailable; start Docker Desktop and try again: "@
                    + d@
            },
            State::Missing => if on_linux {
                p == UpPlan::Local(None)
            } else {
                p matches UpPlan::Refuse(m, true) && m@
                    == "docker not found; install Docker Desktop (or Docker Engine) for TAP"@
            },
        },
{
    match state {
        State::Ready => UpPlan::Sidecar,
        State::Unavailable(d) => if on_linux {
            let mut w = owned("Docker is unavailable (");
            push_str(&mut w, d.as_str());
            push_str(&mut w, "); using a local Linux TAP");
            UpPlan::Local(Some(w))
        } else {
            let mut m = owned("Docker is unavailable; start Docker Desktop and try again: ");
            push_str(&mut m, d.as_str());
            UpPlan::Refuse(m, false)
        },
        State::Missing => if on_linux {
            UpPlan::Local(None)
        } else {
            UpPlan::Refuse(owned("docker not found; install Docker Desktop (or Docker Engine) for TAP"), true)
        },
    }
}

/// How `minitcp tap down` removes a TAP.
#[derive(Clone, Debug, PartialEq, Eq)]
pub enum DownPlan {
    /// The sidecar was removed; nothing more to do.
    Done,
    /// Delete the local TAP, after this warning if any.
    DeleteLocal(Option<String>),
    /// Give up with this message.
    Refuse(String),
    /// Nothing was running.
    NotRunning,
}

/// How to remove a TAP, from Docker's state and whether removing the sidecar
/// found one. Both kinds are tried rather than guessed at.
pub fn tap_down_plan(state: &State, sidecar_removed: bool, on_linux: bool) -> (p: DownPlan)
    ensures
        (state matches State::Ready) && sidecar_removed ==> p == DownPlan::Done,
        !((state matches State::Ready) && sidecar_removed) ==> match state {
            State::Unavailable(d) => if on_linux {
                p matches DownPlan::DeleteLocal(Some(w)) && w@ == "Docker is unavailable ("@ + d@
                    + "); removing only the local Linux TAP"@
            } else {
                p matches DownPlan::Refuse(m) && m@
                    == "Docker is unavailable, so the TAP sidecar could not be stopped: "@ + d@
            },
            _ => if on_linux {
                p == DownPlan::DeleteLocal(None)
            } else {
                p == DownPlan::NotRunning
            },
        },
{
    if let State::Ready = state {
        if sidecar_removed {
            return DownPlan::Done;
        }
    }
    match state {
        State::Unavailable(d) => if on_linux {
            let mut w = owned("Docker is unavailable (");
            push_str(&mut w, d.as_str());
            push_str(&mut w, "); removing only the local Linux TAP");
            DownPlan::DeleteLocal(Some(w))
        } else {
            let mut m = owned("Docker is unavailable, so the TAP sidecar could not be stopped: ");
            push_str(&mut m, d.as_str());
            DownPlan::Refuse(m)
        },
        _ => if on_linux {
            DownPlan::DeleteLocal(None)
        } else {
            DownPlan::NotRunning
        },
    }
}

} // verus!
