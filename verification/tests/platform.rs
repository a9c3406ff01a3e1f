use aosc_exec_guard::platform::{
    container_markers, decide_mode, env_switch, gui_available, in_chroot, in_container, in_service,
    in_terminal, is_isolated, DisplayMode,
};

#[test]
fn switches_are_on_where_they_are_set() {
    assert!(env_switch(Some(b"")));
    assert!(env_switch(Some(b"0")));
    assert!(!env_switch(None));
    assert!(in_service(Some(b"")));
    assert!(!in_service(None));
    assert!(gui_available(Some(b":0"), None));
    assert!(gui_available(Some(b""), Some(b"wayland-0")));
    assert!(!gui_available(Some(b""), None));
    assert!(in_terminal(false, true));
    assert!(in_terminal(true, false));
    assert!(!in_terminal(false, false));
}

#[test]
fn roots_tell_a_chroot() {
    assert!(in_chroot(true, None, None));
    assert!(in_chroot(false, Some((1, 2)), Some((1, 3))));
    assert!(in_chroot(false, Some((1, 2)), Some((2, 2))));
    assert!(!in_chroot(false, Some((1, 2)), Some((1, 2))));
    assert!(!in_chroot(false, Some((1, 2)), None));
    assert!(!in_chroot(false, None, Some((1, 2))));
}

#[test]
fn containers_are_told_by_any_sign() {
    let none = vec![false; container_markers().len()];
    assert!(in_container(true, false, &none, None));
    assert!(in_container(false, true, &none, None));
    assert!(in_container(false, false, &vec![false, false, true, false], Some("kthreadd\n")));
    assert!(in_container(false, false, &none, Some("bash\n")));
    assert!(!in_container(false, false, &none, Some("kthreadd\n")));
    assert!(!in_container(false, false, &none, None));
    assert_eq!(container_markers()[2], "/.dockerenv");
}

#[test]
fn dialogs_need_a_session_without_a_terminal() {
    assert_eq!(decide_mode(false, false, true, false), DisplayMode::Dialog);
    assert_eq!(decide_mode(true, false, true, false), DisplayMode::Text);
    assert_eq!(decide_mode(false, true, true, false), DisplayMode::Text);
    assert_eq!(decide_mode(false, false, false, false), DisplayMode::Text);
    assert_eq!(decide_mode(false, false, true, true), DisplayMode::Text);
    assert!(!is_isolated(false, false, true));
    assert!(is_isolated(true, false, true));
    assert!(is_isolated(false, true, true));
    assert!(is_isolated(false, false, false));
}
