use aosc_exec_guard::config::{load_saved_qemu_mode, save_qemu_mode, QemuMode};
use aosc_exec_guard::elf::{ElfClass, ElfInfo, Endian, NotElfReason, Verdict};
use aosc_exec_guard::guard::{
    debug_line, decide, settle, sign, Decision, Findings, Forward, EXIT_CANNOT_EXEC,
};
use aosc_exec_guard::i18n::{lang, Lang, Speech};
use aosc_exec_guard::platform::DisplayMode;
use aosc_exec_guard::prompt::AskOutcome;

fn foreign() -> Verdict {
    Verdict::ArchMismatch(ElfInfo { class: ElfClass::Bits64, endian: Endian::Little, machine: 0xb7 })
}

#[test]
fn only_foreign_programs_with_an_emulator_are_forwarded() {
    assert_eq!(decide(&foreign(), true, QemuMode::Always), Forward::Run);
    assert_eq!(decide(&foreign(), true, QemuMode::Ask), Forward::Ask);
    assert_eq!(decide(&foreign(), true, QemuMode::Never), Forward::Explain);
    assert_eq!(decide(&foreign(), false, QemuMode::Always), Forward::Explain);
    let broken = Verdict::NotElf(NotElfReason::NotElf);
    assert_eq!(decide(&broken, true, QemuMode::Always), Forward::Explain);
    assert_eq!(EXIT_CANNOT_EXEC, 126);
}

#[test]
fn kept_answers_are_repeated() {
    for run in [true, false] {
        let decision = settle(Some(AskOutcome { run, remember: true }));
        assert_eq!(decision.run, run);
        let settings =
            save_qemu_mode(Lang::ZhCn, decision.remember.unwrap(), None, Some(b"/h")).unwrap();
        let mode = load_saved_qemu_mode(&settings.text).unwrap();
        let next = if run { Forward::Run } else { Forward::Explain };
        assert_eq!(decide(&foreign(), true, mode), next);
        let once = settle(Some(AskOutcome { run, remember: false }));
        assert_eq!(once, Decision { run, remember: None });
    }
    assert_eq!(settle(None), Decision { run: true, remember: None });
}

#[test]
fn debug_line_tells_what_decides() {
    let mut findings = Findings {
        mode: DisplayMode::Text,
        emulator: None,
        qemu_mode: QemuMode::Ask,
        registry_visible: false,
        container: true,
        gui: false,
        terminal: true,
        service: false,
        dialogs: "zenity,kdialog".to_string(),
    };
    assert_eq!(
        debug_line(&findings),
        "[debug] mode=Text qemu=- qemu_mode=Ask registry=invisible container=true gui=false \
         tty=true in_service=false dialog=zenity,kdialog"
    );
    findings.emulator = Some("qemu-arm".to_string());
    findings.registry_visible = true;
    assert!(debug_line(&findings).contains(" qemu=qemu-arm qemu_mode=Ask registry=visible "));
    assert_eq!(sign("x"), "aosc-exec-guard: x");
}

#[test]
fn the_first_variable_that_is_set_decides_the_language() {
    assert_eq!(lang(None, None, None, None), Lang::ZhCn);
    assert_eq!(lang(None, None, None, Some("en_US.UTF-8")), Lang::En);
    assert_eq!(lang(None, None, Some("ZH_tw"), Some("en_US")), Lang::ZhCn);
    assert_eq!(lang(None, Some(""), Some("zh_CN"), Some("zh_CN")), Lang::En);
    assert_eq!(lang(Some("en"), Some("zh_CN"), Some("zh_CN"), None), Lang::En);
}

#[test]
fn the_language_stays_as_it_was_first_decided() {
    let mut speech = Speech::new();
    assert_eq!(speech.lang(None, None, None, Some("en_US")), Lang::En);
    assert_eq!(speech.lang(Some("zh_CN"), None, None, None), Lang::En);
    assert_eq!(speech.lang(None, None, None, None), Lang::En);
    let mut unset = Speech::new();
    assert_eq!(unset.lang(None, None, None, None), Lang::ZhCn);
    assert_eq!(unset.lang(Some("en"), None, None, None), Lang::ZhCn);
    let mut empty = Speech::new();
    assert_eq!(empty.lang(Some(""), Some("zh_CN"), None, None), Lang::En);
}
