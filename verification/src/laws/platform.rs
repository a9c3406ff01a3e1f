//! Of where we run.

use vstd::prelude::*;

use crate::platform::DisplayMode;

verus! {

/// A switch is on wherever it is set, even to nothing.
pub proof fn switches_are_on_where_set(value: Seq<u8>)
    ensures
        crate::platform::switch_on(Some(value)),
        !crate::platform::switch_on(None),
{
}

/// A graphical session is one of either kind, named by something.
pub proof fn sessions_are_named(display: Option<Seq<u8>>, wayland: Option<Seq<u8>>, name: Seq<u8>)
    ensures
        name.len() > 0 ==> crate::platform::session_there(Some(name), wayland)
            && crate::platform::session_there(display, Some(name)),
        name.len() == 0 ==> crate::platform::session_there(Some(name), wayland)
            == crate::platform::session_there(None, wayland) && crate::platform::session_there(
            display,
            Some(name),
        ) == crate::platform::session_there(display, None),
        !crate::platform::session_there(None, None),
{
}

/// Two roots are one exactly where their devices and their inodes are; where
/// either is unknown, nothing is claimed.
pub proof fn roots_are_told_by_device_and_inode(
    device: u64,
    inode: u64,
    other_device: u64,
    other_inode: u64,
    known: Option<(u64, u64)>,
)
    ensures
        crate::platform::chroot_seen(
            false,
            Some((device, inode)),
            Some((other_device, other_inode)),
        ) <==> device != other_device || inode != other_inode,
        !crate::platform::chroot_seen(false, None, known),
        !crate::platform::chroot_seen(false, known, None),
        crate::platform::chroot_seen(true, known, known),
        crate::platform::chroot_seen(true, None, known),
{
}

/// Each sign of a container counts by itself: a marker, the variable, or a
/// second process that is not the kernel's thread; without any there is none.
pub proof fn each_sign_of_a_container_counts(
    markers: Seq<bool>,
    i: int,
    name: Seq<char>,
    a: Seq<char>,
    b: Seq<char>,
    second: Option<Seq<char>>,
)
    requires
        crate::laws::text::is_blank(a),
        crate::laws::text::is_tight(name),
        crate::laws::text::is_blank(b),
    ensures
        crate::platform::container_seen(true, false, markers, second),
        crate::platform::container_seen(false, true, markers, second),
        0 <= i < markers.len() && markers[i] ==> crate::platform::container_seen(
            false,
            false,
            markers,
            second,
        ),
        (forall|k: int| 0 <= k < markers.len() ==> !#[trigger] markers[k])
            ==> !crate::platform::container_seen(false, false, markers, None) && (
        crate::platform::container_seen(false, false, markers, Some(a + name + b)) <==> name
            != "kthreadd"@),
{
    crate::laws::text::trimming_takes_the_ends_off(a, name, b);
}

/// A dialog needs a graphical session and no obstacle; each obstacle by itself
/// is enough against it.
pub proof fn dialogs_need_a_clear_way(no_dialog: bool, service: bool, gui: bool, terminal: bool)
    ensures
        crate::platform::mode_for(false, false, true, false) == DisplayMode::Dialog,
        crate::platform::mode_for(true, service, gui, terminal) == DisplayMode::Text,
        crate::platform::mode_for(no_dialog, true, gui, terminal) == DisplayMode::Text,
        crate::platform::mode_for(no_dialog, service, false, terminal) == DisplayMode::Text,
        crate::platform::mode_for(no_dialog, service, gui, true) == DisplayMode::Text,
{
}

/// Output on either of the two goes to a terminal.
pub proof fn either_output_counts(other: bool)
    ensures
        crate::platform::on_terminal(true, other),
        crate::platform::on_terminal(other, true),
        !crate::platform::on_terminal(false, false),
{
}

/// On the host, with the registry in sight, we are not apart; anywhere else we are.
pub proof fn only_the_host_is_not_apart(chroot: bool, container: bool, visible: bool)
    ensures
        crate::platform::apart(true, container, visible),
        crate::platform::apart(chroot, true, visible),
        crate::platform::apart(chroot, container, false),
        !crate::platform::apart(false, false, true),
{
}

/// The files by which containers are told.
pub proof fn containers_are_told_by_four_files()
    ensures
        crate::platform::marker_paths() == seq![
            "/run/host/container-manager"@,
            "/run/systemd/container"@,
            "/.dockerenv"@,
            "/run/.containerenv"@,
        ],
{
}

} // verus!
