//! Where we run: whether someone can be shown a dialog, and whether this is
//! the host at all.
//!
//! Variables, files and terminals are looked at elsewhere; here is what
//! follows from what was seen.

use vstd::prelude::*;
use vstd::string::*;

use crate::text::{chars_of, reads, trim};

verus! {

/// A switch that is on.
pub open spec fn switch_on(value: Option<Seq<u8>>) -> bool {
    value is Some
}

/// Whether a switch in the environment is on: it is wherever it is set, to
/// whatever, for the kernel passes no options.
pub fn env_switch(value: Option<&[u8]>) -> (r: bool)
    ensures
        r == (value is Some),
        r == switch_on(crate::config::bytes_set(value)),
{
    value.is_some()
}

/// How to talk to the user.
#[derive(Debug, Clone, Copy, PartialEq, Eq, Structural)]
pub enum DisplayMode {
    /// In a dialog.
    Dialog,
    /// In plain text.
    Text,
}

/// A variable that is set, and not to nothing.
pub open spec fn is_filled(value: Option<&[u8]>) -> bool {
    value is Some && value->0@.len() > 0
}

/// Whether a variable is set, and not to nothing.
fn filled(value: Option<&[u8]>) -> (r: bool)
    ensures
        r == is_filled(value),
{
    match value {
        Some(v) => v.len() > 0,
        None => false,
    }
}

/// There is a graphical session, for what two variables are set to.
pub open spec fn session_there(display: Option<Seq<u8>>, wayland: Option<Seq<u8>>) -> bool {
    (display is Some && display->0.len() > 0) || (wayland is Some && wayland->0.len() > 0)
}

/// Whether there is a graphical session, given what `DISPLAY` and
/// `WAYLAND_DISPLAY` are set to.
pub fn gui_available(display: Option<&[u8]>, wayland_display: Option<&[u8]>) -> (r: bool)
    ensures
        r == (is_filled(display) || is_filled(wayland_display)),
        r == session_there(
            crate::config::bytes_set(display),
            crate::config::bytes_set(wayland_display),
        ),
{
    filled(display) || filled(wayland_display)
}

/// Output goes to a terminal.
pub open spec fn on_terminal(stdout_is_terminal: bool, stderr_is_terminal: bool) -> bool {
    stdout_is_terminal || stderr_is_terminal
}

/// Whether output goes to a terminal.
pub fn in_terminal(stdout_is_terminal: bool, stderr_is_terminal: bool) -> (r: bool)
    ensures
        r == (stdout_is_terminal || stderr_is_terminal),
        r == on_terminal(stdout_is_terminal, stderr_is_terminal),
{
    stdout_is_terminal || stderr_is_terminal
}

/// Whether this is a service, given what `INVOCATION_ID` is set to: there
/// nobody would answer a dialog.
pub fn in_service(invocation_id: Option<&[u8]>) -> (r: bool)
    ensures
        r == (invocation_id is Some),
        r == switch_on(crate::config::bytes_set(invocation_id)),
{
    invocation_id.is_some()
}

/// This is a chroot, for the device and inode numbers of two roots.
pub open spec fn chroot_seen(
    forced: bool,
    here: Option<(u64, u64)>,
    pid1: Option<(u64, u64)>,
) -> bool {
    forced || (here is Some && pid1 is Some && here != pid1)
}

/// Whether this is a chroot, given the device and inode numbers of our root
/// and of the root of process 1: it is where they differ. Where one of them
/// cannot be had, nothing can be told, and it counts as none.
pub fn in_chroot(forced: bool, here: Option<(u64, u64)>, pid1: Option<(u64, u64)>) -> (r: bool)
    ensures
        r == (forced || (here is Some && pid1 is Some && here != pid1)),
        r == chroot_seen(forced, here, pid1),
{
    if forced {
        return true;
    }
    match (here, pid1) {
        (Some(a), Some(b)) => a.0 != b.0 || a.1 != b.1,
        _ => false,
    }
}

/// The files by which containers can be told.
pub open spec fn marker_paths() -> Seq<Seq<char>> {
    seq![
        "/run/host/container-manager"@,
        "/run/systemd/container"@,
        "/.dockerenv"@,
        "/run/.containerenv"@,
    ]
}

/// The files by which containers can be told: those of container managers, of
/// systemd inside a container, of docker and of podman.
pub fn container_markers() -> (r: Vec<&'static str>)
    ensures
        crate::qemu::str_views(r@) == marker_paths(),
{
    let mut r: Vec<&'static str> = Vec::new();
    r.push("/run/host/container-manager");
    r.push("/run/systemd/container");
    r.push("/.dockerenv");
    r.push("/run/.containerenv");
    proof {
        assert(crate::qemu::str_views(r@) =~= marker_paths());
    }
    r
}

/// This is a container, for the signs of one.
pub open spec fn container_seen(
    forced: bool,
    container_is_set: bool,
    markers: Seq<bool>,
    second_process: Option<Seq<char>>,
) -> bool {
    forced || container_is_set || markers.contains(true) || (second_process is Some
        && crate::text::trimmed(second_process->0) != "kthreadd"@)
}

/// Whether this is a container: one of the `markers` is there, the variable
/// `container` is set, or process 2 is called something else than `kthreadd`,
/// the kernel thread that it is on every host. A name that cannot be read
/// tells nothing.
pub fn in_container(
    forced: bool,
    container_is_set: bool,
    markers: &Vec<bool>,
    second_process: Option<&str>,
) -> (r: bool)
    ensures
        r == (forced || container_is_set || markers@.contains(true) || (second_process is Some
            && crate::text::trimmed(second_process->0@) != "kthreadd"@)),
        r == container_seen(
            forced,
            container_is_set,
            markers@,
            crate::i18n::set_to(second_process),
        ),
{
    if forced || container_is_set {
        return true;
    }
    let mut i: usize = 0;
    while i < markers.len()
        invariant
            i <= markers@.len(),
            forall|j: int| 0 <= j < i ==> !markers@[j],
        decreases markers@.len() - i,
    {
        if markers[i] {
            proof {
                assert(markers@[i as int] == true);
            }
            return true;
        }
        i += 1;
    }
    match second_process {
        Some(comm) => !reads(trim(chars_of(comm).as_slice()), "kthreadd"),
        None => false,
    }
}

/// How to talk to the user, for what was seen.
pub open spec fn mode_for(no_dialog: bool, service: bool, gui: bool, terminal: bool) -> DisplayMode {
    if !no_dialog && !service && gui && !terminal {
        DisplayMode::Dialog
    } else {
        DisplayMode::Text
    }
}

/// How to talk to the user: in a dialog only where there is a graphical
/// session and no terminal, nobody forbade it, and this is no service.
pub fn decide_mode(no_dialog: bool, service: bool, gui: bool, terminal: bool) -> (r: DisplayMode)
    ensures
        r == if !no_dialog && !service && gui && !terminal {
            DisplayMode::Dialog
        } else {
            DisplayMode::Text
        },
        r == mode_for(no_dialog, service, gui, terminal),
{
    if no_dialog {
        return DisplayMode::Text;
    }
    if service || !gui || terminal {
        return DisplayMode::Text;
    }
    DisplayMode::Dialog
}

/// Emulators of the host may be out of reach.
pub open spec fn apart(chroot: bool, container: bool, registry_visible: bool) -> bool {
    chroot || container || !registry_visible
}

/// Whether emulators of the host may be out of reach: in a chroot, in a
/// container, or without sight of the registry.
pub fn is_isolated(chroot: bool, container: bool, registry_visible: bool) -> (r: bool)
    ensures
        r == (chroot || container || !registry_visible),
        r == apart(chroot, container, registry_visible),
{
    chroot || container || !registry_visible
}

} // verus!
