use aosc_exec_guard::config::{
    config_path, load_saved_qemu_mode, parse_qemu_mode, resolve_qemu_mode, save_qemu_mode,
    system_config_path, QemuMode,
};
use aosc_exec_guard::i18n::Lang;

#[test]
fn qemu_mode_parsing_and_precedence_strings() {
    assert_eq!(parse_qemu_mode("always"), Some(QemuMode::Always));
    assert_eq!(parse_qemu_mode(" never "), Some(QemuMode::Never));
    assert_eq!(parse_qemu_mode("ask"), Some(QemuMode::Ask));
    assert_eq!(parse_qemu_mode("sometimes"), None);
}

#[test]
fn mode_names_are_trimmed_of_unicode_white_space_only() {
    assert_eq!(parse_qemu_mode("\u{3000}\t always\r\n\u{a0}"), Some(QemuMode::Always));
    assert_eq!(parse_qemu_mode("\u{200b}always"), None);
    assert_eq!(parse_qemu_mode("Always"), None);
    assert_eq!(parse_qemu_mode(""), None);
}

#[test]
fn settings_are_read_line_by_line() {
    assert_eq!(load_saved_qemu_mode("# comment\n\nqemu=never\n"), Some(QemuMode::Never));
    assert_eq!(load_saved_qemu_mode("qemu = always # for now"), Some(QemuMode::Always));
    assert_eq!(load_saved_qemu_mode("qemu = maybe\r\nqemu = ask\r\n"), Some(QemuMode::Ask));
    assert_eq!(load_saved_qemu_mode("other = never\nqemu always\n"), None);
    assert_eq!(load_saved_qemu_mode("# qemu = never"), None);
    assert_eq!(load_saved_qemu_mode("qemu = never = ask"), None);
    assert_eq!(load_saved_qemu_mode("qemu = never\nqemu = ask"), Some(QemuMode::Never));
    assert_eq!(load_saved_qemu_mode(""), None);
}

#[test]
fn command_line_environment_user_and_system_come_in_this_order() {
    let user = Some("qemu = never\n");
    let system = Some("qemu = always\n");
    let ask = Some(QemuMode::Ask);
    assert_eq!(resolve_qemu_mode(ask, Some("always"), false, true, user, system), QemuMode::Ask);
    assert_eq!(resolve_qemu_mode(None, Some("always"), false, true, user, None), QemuMode::Always);
    assert_eq!(resolve_qemu_mode(None, Some("bogus"), false, true, user, system), QemuMode::Never);
    assert_eq!(resolve_qemu_mode(None, None, false, true, user, system), QemuMode::Never);
    assert_eq!(resolve_qemu_mode(None, None, false, true, None, system), QemuMode::Always);
    assert_eq!(
        resolve_qemu_mode(None, None, false, true, Some("qemu = x"), system),
        QemuMode::Always
    );
    assert_eq!(resolve_qemu_mode(None, None, false, true, None, None), QemuMode::Ask);
}

#[test]
fn settings_of_the_host_do_not_count_in_a_chroot() {
    let never = Some("qemu = never\n");
    assert_eq!(resolve_qemu_mode(None, None, true, true, never, never), QemuMode::Always);
    assert_eq!(resolve_qemu_mode(None, None, false, false, never, never), QemuMode::Always);
    assert_eq!(resolve_qemu_mode(None, Some("ask"), true, false, never, never), QemuMode::Ask);
    assert_eq!(
        resolve_qemu_mode(Some(QemuMode::Never), None, true, false, None, None),
        QemuMode::Never
    );
}

#[test]
fn saved_choices_are_read_back_in_both_languages() {
    for lang in [Lang::ZhCn, Lang::En] {
        for mode in [QemuMode::Ask, QemuMode::Always, QemuMode::Never] {
            let settings = save_qemu_mode(lang, mode, None, Some(b"/home/u")).unwrap();
            assert_eq!(settings.path, b"/home/u/.config/aosc-exec-guard.conf");
            assert_eq!(load_saved_qemu_mode(&settings.text), Some(mode));
            assert_eq!(
                resolve_qemu_mode(None, None, false, true, Some(&settings.text), None),
                mode
            );
        }
    }
    let settings = save_qemu_mode(Lang::En, QemuMode::Always, None, Some(b"/home/u")).unwrap();
    assert_eq!(
        settings.text,
        "# aosc-exec-guard user settings (written when \"don't ask again\" was chosen)\n\
         # qemu: ask=ask every time (default) / always=always run via the emulator / never=never run\n\
         qemu = always\n"
    );
}

#[test]
fn settings_go_to_the_configuration_directory() {
    assert_eq!(
        config_path(Some(b"/cfg"), Some(b"/home/u")).unwrap(),
        b"/cfg/aosc-exec-guard.conf"
    );
    assert_eq!(config_path(Some(b"/cfg/"), None).unwrap(), b"/cfg/aosc-exec-guard.conf");
    assert_eq!(
        config_path(Some(b""), Some(b"/home/u")).unwrap(),
        b"/home/u/.config/aosc-exec-guard.conf"
    );
    assert_eq!(config_path(None, Some(b"")).unwrap(), b".config/aosc-exec-guard.conf");
    assert!(config_path(Some(b""), None).is_none());
    assert_eq!(
        save_qemu_mode(Lang::ZhCn, QemuMode::Never, None, None).unwrap_err(),
        "无法定位用户配置目录（HOME / XDG_CONFIG_HOME）"
    );
    assert_eq!(system_config_path(), b"/etc/aosc-exec-guard.conf");
}
