//! What the program says, in the languages that it speaks.
//!
//! Every message has a row here: a spec function `…_text` that says what the
//! message is, in each language, and the function that hands it out.

use vstd::prelude::*;
use vstd::string::*;

use crate::elf::NotElfReason;
use crate::text::{chars_of, push_numeral, starts_with, to_lower};

verus! {

/// A language that the program speaks.
#[derive(Debug, Clone, Copy, PartialEq, Eq, Structural)]
pub enum Lang {
    /// Chinese, as written in mainland China.
    ZhCn,
    /// English.
    En,
}

/// The language for a set of variables, `AOSC_EXEC_GUARD_LANG` before `LC_ALL`
/// before `LC_MESSAGES` before `LANG`: the first that is set decides.
pub open spec fn lang_for(
    own: Option<Seq<char>>,
    lc_all: Option<Seq<char>>,
    lc_messages: Option<Seq<char>>,
    lang: Option<Seq<char>>,
) -> Lang {
    match (own, lc_all, lc_messages, lang) {
        (Some(locale), _, _, _) => Lang::of_locale(locale),
        (None, Some(locale), _, _) => Lang::of_locale(locale),
        (None, None, Some(locale), _) => Lang::of_locale(locale),
        (None, None, None, Some(locale)) => Lang::of_locale(locale),
        (None, None, None, None) => Lang::ZhCn,
    }
}

/// The view of a variable that may be unset.
pub open spec fn set_to(value: Option<&str>) -> Option<Seq<char>> {
    match value {
        Some(v) => Some(v@),
        None => None,
    }
}

/// The language to speak, given what the four variables are set to. With none
/// set, as in services and chroots, it is Chinese.
pub fn lang(
    own: Option<&str>,
    lc_all: Option<&str>,
    lc_messages: Option<&str>,
    lang_var: Option<&str>,
) -> (r: Lang)
    ensures
        r == lang_for(set_to(own), set_to(lc_all), set_to(lc_messages), set_to(lang_var)),
{
    match (own, lc_all, lc_messages, lang_var) {
        (Some(locale), _, _, _) => Lang::from_locale(locale),
        (None, Some(locale), _, _) => Lang::from_locale(locale),
        (None, None, Some(locale), _) => Lang::from_locale(locale),
        (None, None, None, Some(locale)) => Lang::from_locale(locale),
        (None, None, None, None) => Lang::ZhCn,
    }
}

/// What the four variables are set to at some moment.
pub struct Locale {
    /// `AOSC_EXEC_GUARD_LANG`.
    pub own: Option<Seq<char>>,
    /// `LC_ALL`.
    pub lc_all: Option<Seq<char>>,
    /// `LC_MESSAGES`.
    pub lc_messages: Option<Seq<char>>,
    /// `LANG`.
    pub lang: Option<Seq<char>>,
}

impl Locale {
    /// The language for these variables.
    pub open spec fn language(self) -> Lang {
        lang_for(self.own, self.lc_all, self.lc_messages, self.lang)
    }
}

/// The language that a process speaks where the variables are as `locale`
/// says: the one that was decided on before, if one was.
pub open spec fn spoken(decided: Option<Lang>, locale: Locale) -> Lang {
    match decided {
        Some(lang) => lang,
        None => locale.language(),
    }
}

/// The language that a process speaks, from the first time that it is asked for on.
#[derive(Debug)]
pub struct Speech {
    decided: Option<Lang>,
}

impl Speech {
    /// The language that was decided on, if one was.
    pub closed spec fn decided(self) -> Option<Lang> {
        self.decided
    }

    /// No language is decided on yet.
    pub fn new() -> (r: Speech)
        ensures
            r.decided() is None,
    {
        Speech { decided: None }
    }

    /// The language to speak, given what the four variables are set to now: they
    /// are heeded the first time only.
    pub fn lang(
        &mut self,
        own: Option<&str>,
        lc_all: Option<&str>,
        lc_messages: Option<&str>,
        lang_var: Option<&str>,
    ) -> (r: Lang)
        ensures
            r == spoken(
                old(self).decided(),
                (Locale {
                    own: set_to(own),
                    lc_all: set_to(lc_all),
                    lc_messages: set_to(lc_messages),
                    lang: set_to(lang_var),
                }),
            ),
            final(self).decided() == Some(r),
    {
        match self.decided {
            Some(before) => before,
            None => {
                let now = lang(own, lc_all, lc_messages, lang_var);
                self.decided = Some(now);
                now
            },
        }
    }
}

/// The languages that a process speaks each time that it is asked for one,
/// where the variables are as `locales` says in turn.
pub open spec fn spoken_in_turn(decided: Option<Lang>, locales: Seq<Locale>) -> Seq<Lang>
    decreases locales.len(),
{
    if locales.len() == 0 {
        Seq::empty()
    } else {
        let first = spoken(decided, locales[0]);
        seq![first] + spoken_in_turn(Some(first), locales.drop_first())
    }
}

/// A language that was decided on stays.
proof fn lemma_decided_language_stays(lang: Lang, locales: Seq<Locale>, k: int)
    requires
        0 <= k < locales.len(),
    ensures
        spoken_in_turn(Some(lang), locales).len() == locales.len(),
        spoken_in_turn(Some(lang), locales)[k] == lang,
    decreases locales.len(),
{
    if locales.len() > 1 {
        lemma_decided_language_stays(lang, locales.drop_first(), if k > 0 { k - 1 } else { 0 });
    } else {
        assert(spoken_in_turn(Some(lang), locales.drop_first()) =~= Seq::<Lang>::empty());
    }
}

/// A process speaks one language: the variables decide it when it is first
/// asked for, and it stays the same whatever they are set to later.
pub proof fn language_is_decided_once(locales: Seq<Locale>, k: int)
    requires
        0 <= k < locales.len(),
    ensures
        spoken_in_turn(None, locales).len() == locales.len(),
        spoken_in_turn(None, locales)[k] == locales[0].language(),
{
    let first = locales[0].language();
    let rest = locales.drop_first();
    if rest.len() > 0 {
        lemma_decided_language_stays(first, rest, if k > 0 { k - 1 } else { 0 });
    } else {
        assert(spoken_in_turn(Some(first), rest) =~= Seq::<Lang>::empty());
    }
}

impl Lang {
    /// The language of a locale name such as `zh_CN.UTF-8`, `en_US` or `C`.
    pub open spec fn of_locale(locale: Seq<char>) -> Lang {
        if crate::text::has_prefix(crate::text::lowered(locale), "zh"@) {
            Lang::ZhCn
        } else {
            Lang::En
        }
    }

    /// The language of a locale name: Chinese where it starts with `zh`, in
    /// either case, and English otherwise.
    pub fn from_locale(locale: &str) -> (r: Lang)
        ensures
            r == Lang::of_locale(locale@),
    {
        let lower = to_lower(chars_of(locale).as_slice());
        if starts_with(lower.as_slice(), "zh") {
            Lang::ZhCn
        } else {
            Lang::En
        }
    }

    /// Of two texts, the one in this language.
    pub open spec fn pick(self, zh: Seq<char>, en: Seq<char>) -> Seq<char> {
        match self {
            Lang::ZhCn => zh,
            Lang::En => en,
        }
    }

    /// Of two texts, the one in this language.
    fn one_of(&self, zh: &'static str, en: &'static str) -> (r: &'static str)
        ensures
            r@ == self.pick(zh@, en@),
    {
        match self {
            Lang::ZhCn => zh,
            Lang::En => en,
        }
    }

    /// Text of [`Lang::not_elf_reason`].
    pub open spec fn not_elf_reason_text(self, reason: NotElfReason) -> Seq<char> {
        match reason {
            NotElfReason::CannotRead => self.pick("无法读取该文件"@, "cannot read the file"@),
            NotElfReason::TooSmall => self.pick(
                "文件太小，不是一个有效的 ELF 可执行文件"@,
                "file is too small to be a valid ELF executable"@,
            ),
            NotElfReason::NotElf => self.pick(
                "文件不是 ELF 可执行文件"@,
                "file is not an ELF executable"@,
            ),
            NotElfReason::BadClass => self.pick(
                "ELF 头部的位宽字段无法识别"@,
                "unrecognized ELF class field"@,
            ),
            NotElfReason::BadEndian => self.pick(
                "ELF 头部的字节序字段无法识别"@,
                "unrecognized ELF endianness field"@,
            ),
            NotElfReason::ReadFailed => self.pick("读取文件失败"@, "failed to read the file"@),
        }
    }

    /// Why a file is no program.
    pub fn not_elf_reason(&self, reason: NotElfReason) -> (r: &'static str)
        ensures
            r@ == self.not_elf_reason_text(reason),
    {
        match reason {
            NotElfReason::CannotRead => self.one_of("无法读取该文件", "cannot read the file"),
            NotElfReason::TooSmall => self.one_of(
                "文件太小，不是一个有效的 ELF 可执行文件",
                "file is too small to be a valid ELF executable",
            ),
            NotElfReason::NotElf => self.one_of(
                "文件不是 ELF 可执行文件",
                "file is not an ELF executable",
            ),
            NotElfReason::BadClass => self.one_of(
                "ELF 头部的位宽字段无法识别",
                "unrecognized ELF class field",
            ),
            NotElfReason::BadEndian => self.one_of(
                "ELF 头部的字节序字段无法识别",
                "unrecognized ELF endianness field",
            ),
            NotElfReason::ReadFailed => self.one_of("读取文件失败", "failed to read the file"),
        }
    }

    /// Text of [`Lang::dialog_title`].
    pub open spec fn dialog_title_text(self) -> Seq<char> {
        self.pick("无法运行此程序"@, "Cannot run this program"@)
    }

    /// Title of the dialogs.
    pub fn dialog_title(&self) -> (r: &'static str)
        ensures
            r@ == self.dialog_title_text(),
    {
        self.one_of("无法运行此程序", "Cannot run this program")
    }

    /// Text of [`Lang::hint_isolated`].
    pub open spec fn hint_isolated_text(self) -> Seq<char> {
        self.pick("提示：看起来在 chroot / 容器 里（或者看不到 binfmt_misc 注册表）：这里找不到能用的模拟器条目，guard 转不了。如果宿主机装了 qemu-user：到外面（宿主机）上运行 `sudo aosc-exec-guard --handover`，让 guard 退出、由内核的 qemu 条目接管——qemu 条目用 F 直接打开宿主机的解释器，chroot / 容器 里不需要放 qemu。"@, "Hint: this looks like a chroot / container (or the binfmt_misc registry is not visible): there is no usable emulator entry here, so the guard cannot forward. If qemu-user is installed on the host, run `sudo aosc-exec-guard --handover` outside: the guard steps aside and the kernel's qemu entries take over - they use F to open the host interpreter, so no qemu needs to exist inside the chroot / container."@)
    }

    /// Hint for a chroot or a container, where no emulator entry is in reach.
    pub fn hint_isolated(&self) -> (r: &'static str)
        ensures
            r@ == self.hint_isolated_text(),
    {
        self.one_of("提示：看起来在 chroot / 容器 里（或者看不到 binfmt_misc 注册表）：这里找不到能用的模拟器条目，guard 转不了。如果宿主机装了 qemu-user：到外面（宿主机）上运行 `sudo aosc-exec-guard --handover`，让 guard 退出、由内核的 qemu 条目接管——qemu 条目用 F 直接打开宿主机的解释器，chroot / 容器 里不需要放 qemu。", "Hint: this looks like a chroot / container (or the binfmt_misc registry is not visible): there is no usable emulator entry here, so the guard cannot forward. If qemu-user is installed on the host, run `sudo aosc-exec-guard --handover` outside: the guard steps aside and the kernel's qemu entries take over - they use F to open the host interpreter, so no qemu needs to exist inside the chroot / container.")
    }

    /// Text of [`Lang::hint_install_emulator`].
    pub open spec fn hint_install_emulator_text(self) -> Seq<char> {
        self.pick("提示：可以安装对应架构的模拟器（qemu-user-static、box64 等）后重试，或改用 AOSC OS 原生版本。"@, "Hint: install an emulator for that architecture (qemu-user-static, box64, ...) and retry, or use the native AOSC OS build."@)
    }

    /// Hint to install an emulator.
    pub fn hint_install_emulator(&self) -> (r: &'static str)
        ensures
            r@ == self.hint_install_emulator_text(),
    {
        self.one_of("提示：可以安装对应架构的模拟器（qemu-user-static、box64 等）后重试，或改用 AOSC OS 原生版本。", "Hint: install an emulator for that architecture (qemu-user-static, box64, ...) and retry, or use the native AOSC OS build.")
    }

    /// Text of [`Lang::menu_run_once`].
    pub open spec fn menu_run_once_text(self) -> Seq<char> {
        self.pick("运行（这次）"@, "Run (once)"@)
    }

    /// Menu item: run this time.
    pub fn menu_run_once(&self) -> (r: &'static str)
        ensures
            r@ == self.menu_run_once_text(),
    {
        self.one_of("运行（这次）", "Run (once)")
    }

    /// Text of [`Lang::menu_decline`].
    pub open spec fn menu_decline_text(self) -> Seq<char> {
        self.pick("不运行（这次）"@, "Don't run (once)"@)
    }

    /// Menu item: do not run this time.
    pub fn menu_decline(&self) -> (r: &'static str)
        ensures
            r@ == self.menu_decline_text(),
    {
        self.one_of("不运行（这次）", "Don't run (once)")
    }

    /// Text of [`Lang::menu_always`].
    pub open spec fn menu_always_text(self) -> Seq<char> {
        self.pick("总是运行（不再询问）"@, "Always run (don't ask again)"@)
    }

    /// Menu item: run, now and always.
    pub fn menu_always(&self) -> (r: &'static str)
        ensures
            r@ == self.menu_always_text(),
    {
        self.one_of("总是运行（不再询问）", "Always run (don't ask again)")
    }

    /// Text of [`Lang::run_label`].
    pub open spec fn run_label_text(self) -> Seq<char> {
        self.pick("运行"@, "Run"@)
    }

    /// Button: run.
    pub fn run_label(&self) -> (r: &'static str)
        ensures
            r@ == self.run_label_text(),
    {
        self.one_of("运行", "Run")
    }

    /// Text of [`Lang::decline_label`].
    pub open spec fn decline_label_text(self) -> Seq<char> {
        self.pick("不运行"@, "Don't run"@)
    }

    /// Button: do not run.
    pub fn decline_label(&self) -> (r: &'static str)
        ensures
            r@ == self.decline_label_text(),
    {
        self.one_of("不运行", "Don't run")
    }

    /// Text of [`Lang::dont_ask_again`].
    pub open spec fn dont_ask_again_text(self) -> Seq<char> {
        self.pick("不再询问"@, "Don't ask again"@)
    }

    /// Check box: do not ask again.
    pub fn dont_ask_again(&self) -> (r: &'static str)
        ensures
            r@ == self.dont_ask_again_text(),
    {
        self.one_of("不再询问", "Don't ask again")
    }

    /// Text of [`Lang::ho_no_qemu_warning`].
    pub open spec fn ho_no_qemu_warning_text(self) -> Seq<char> {
        self.pick("警告：注册表里没有已启用的 qemu-* 条目——让位后外架构程序会直接以 `Exec format error` 失败（没人解释，也没人模拟）。"@, "warning: no enabled qemu-* entry in the registry - after the handover foreign binaries will simply fail with `Exec format error` (nothing explains, nothing emulates)."@)
    }

    /// Stepping aside leaves no emulator behind.
    pub fn ho_no_qemu_warning(&self) -> (r: &'static str)
        ensures
            r@ == self.ho_no_qemu_warning_text(),
    {
        self.one_of("警告：注册表里没有已启用的 qemu-* 条目——让位后外架构程序会直接以 `Exec format error` 失败（没人解释，也没人模拟）。", "warning: no enabled qemu-* entry in the registry - after the handover foreign binaries will simply fail with `Exec format error` (nothing explains, nothing emulates).")
    }

    /// Text of [`Lang::ho_question`].
    pub open spec fn ho_question_text(self) -> Seq<char> {
        self.pick("让 guard 退出（注销它的 binfmt 条目、停用配置文件），外架构程序改由内核的 qemu 条目直接处理？"@, "Let the guard step aside (unregister its binfmt entries, disable its config file) so the kernel's qemu entries handle foreign binaries directly?"@)
    }

    /// Asks whether to step aside.
    pub fn ho_question(&self) -> (r: &'static str)
        ensures
            r@ == self.ho_question_text(),
    {
        self.one_of("让 guard 退出（注销它的 binfmt 条目、停用配置文件），外架构程序改由内核的 qemu 条目直接处理？", "Let the guard step aside (unregister its binfmt entries, disable its config file) so the kernel's qemu entries handle foreign binaries directly?")
    }

    /// Text of [`Lang::ho_question_no_qemu`].
    pub open spec fn ho_question_no_qemu_text(self) -> Seq<char> {
        self.pick("让 guard 退出（注销它的 binfmt 条目、停用配置文件）？注意：注册表里没有可用的 qemu 条目。"@, "Let the guard step aside (unregister its binfmt entries, disable its config file)? Note: there is no usable qemu entry in the registry."@)
    }

    /// Asks whether to step aside though no emulator is registered.
    pub fn ho_question_no_qemu(&self) -> (r: &'static str)
        ensures
            r@ == self.ho_question_no_qemu_text(),
    {
        self.one_of("让 guard 退出（注销它的 binfmt 条目、停用配置文件）？注意：注册表里没有可用的 qemu 条目。", "Let the guard step aside (unregister its binfmt entries, disable its config file)? Note: there is no usable qemu entry in the registry.")
    }

    /// Text of [`Lang::cancelled`].
    pub open spec fn cancelled_text(self) -> Seq<char> {
        self.pick("已取消，什么都没改。"@, "cancelled, nothing changed."@)
    }

    /// The user declined.
    pub fn cancelled(&self) -> (r: &'static str)
        ensures
            r@ == self.cancelled_text(),
    {
        self.one_of("已取消，什么都没改。", "cancelled, nothing changed.")
    }

    /// Text of [`Lang::ho_done`].
    pub open spec fn ho_done_text(self) -> Seq<char> {
        self.pick("让位完成：外架构程序现在由内核的 qemu 条目处理（宿主机、chroot、容器 都一样）。"@, "handover done: foreign binaries are now handled by the kernel's qemu entries (host, chroot and containers alike)."@)
    }

    /// Stepped aside.
    pub fn ho_done(&self) -> (r: &'static str)
        ensures
            r@ == self.ho_done_text(),
    {
        self.one_of("让位完成：外架构程序现在由内核的 qemu 条目处理（宿主机、chroot、容器 都一样）。", "handover done: foreign binaries are now handled by the kernel's qemu entries (host, chroot and containers alike).")
    }

    /// Text of [`Lang::ho_restore_hint`].
    pub open spec fn ho_restore_hint_text(self) -> Seq<char> {
        self.pick("恢复：`sudo aosc-exec-guard --handover=off`，或重新运行安装脚本。"@, "to restore: `sudo aosc-exec-guard --handover=off`, or rerun the installer."@)
    }

    /// How to come back after stepping aside.
    pub fn ho_restore_hint(&self) -> (r: &'static str)
        ensures
            r@ == self.ho_restore_hint_text(),
    {
        self.one_of("恢复：`sudo aosc-exec-guard --handover=off`，或重新运行安装脚本。", "to restore: `sudo aosc-exec-guard --handover=off`, or rerun the installer.")
    }

    /// Text of [`Lang::tb_question`].
    pub open spec fn tb_question_text(self) -> Seq<char> {
        self.pick("恢复 guard：把配置文件改回来，并重新注册它的 binfmt 条目？"@, "Restore the guard (rename its config file back and re-register its binfmt entries)?"@)
    }

    /// Asks whether to come back.
    pub fn tb_question(&self) -> (r: &'static str)
        ensures
            r@ == self.tb_question_text(),
    {
        self.one_of("恢复 guard：把配置文件改回来，并重新注册它的 binfmt 条目？", "Restore the guard (rename its config file back and re-register its binfmt entries)?")
    }

    /// Text of [`Lang::tb_test_mode`].
    pub open spec fn tb_test_mode_text(self) -> Seq<char> {
        self.pick("（测试模式：不重启 systemd-binfmt；条目会在重启或重装时回来。）"@, "(test mode: systemd-binfmt not restarted; entries return on reboot or reinstall.)"@)
    }

    /// Came back without restarting the service.
    pub fn tb_test_mode(&self) -> (r: &'static str)
        ensures
            r@ == self.tb_test_mode_text(),
    {
        self.one_of("（测试模式：不重启 systemd-binfmt；条目会在重启或重装时回来。）", "(test mode: systemd-binfmt not restarted; entries return on reboot or reinstall.)")
    }

    /// Text of [`Lang::tb_verify_failed`].
    pub open spec fn tb_verify_failed_text(self) -> Seq<char> {
        self.pick("配置文件已恢复，但注册表里还没看到 guard 条目：看看 `systemctl status systemd-binfmt.service`。"@, "config file restored, but no guard entry in the registry yet: check `systemctl status systemd-binfmt.service`."@)
    }

    /// The service was restarted and registered nothing.
    pub fn tb_verify_failed(&self) -> (r: &'static str)
        ensures
            r@ == self.tb_verify_failed_text(),
    {
        self.one_of("配置文件已恢复，但注册表里还没看到 guard 条目：看看 `systemctl status systemd-binfmt.service`。", "config file restored, but no guard entry in the registry yet: check `systemctl status systemd-binfmt.service`.")
    }

    /// Text of [`Lang::ctx_chroot`].
    pub open spec fn ctx_chroot_text(self) -> Seq<char> {
        self.pick("看起来在 chroot 里：注册表属于宿主机、配置文件属于 chroot，请在宿主机（外面）上运行。"@, "this looks like a chroot: the registry belongs to the host while the config files belong to the chroot - run this on the host (outside)."@)
    }

    /// Refusal: inside a chroot.
    pub fn ctx_chroot(&self) -> (r: &'static str)
        ensures
            r@ == self.ctx_chroot_text(),
    {
        self.one_of("看起来在 chroot 里：注册表属于宿主机、配置文件属于 chroot，请在宿主机（外面）上运行。", "this looks like a chroot: the registry belongs to the host while the config files belong to the chroot - run this on the host (outside).")
    }

    /// Text of [`Lang::ctx_container`].
    pub open spec fn ctx_container_text(self) -> Seq<char> {
        self.pick("看起来在容器里（嵌套的 PID namespace）：请在宿主机（外面）上运行。"@, "this looks like a container (nested PID namespace): run this on the host (outside)."@)
    }

    /// Refusal: inside a container.
    pub fn ctx_container(&self) -> (r: &'static str)
        ensures
            r@ == self.ctx_container_text(),
    {
        self.one_of("看起来在容器里（嵌套的 PID namespace）：请在宿主机（外面）上运行。", "this looks like a container (nested PID namespace): run this on the host (outside).")
    }

    /// Text of [`Lang::ctx_no_registry`].
    pub open spec fn ctx_no_registry_text(self) -> Seq<char> {
        self.pick("看不到 binfmt_misc 注册表：请在宿主机（外面）上运行。"@, "the binfmt_misc registry is not visible: run this on the host (outside)."@)
    }

    /// Refusal: the registry is out of sight.
    pub fn ctx_no_registry(&self) -> (r: &'static str)
        ensures
            r@ == self.ctx_no_registry_text(),
    {
        self.one_of("看不到 binfmt_misc 注册表：请在宿主机（外面）上运行。", "the binfmt_misc registry is not visible: run this on the host (outside).")
    }

    /// Text of [`Lang::confirm_needs_tty`].
    pub open spec fn confirm_needs_tty_text(self) -> Seq<char> {
        self.pick("需要确认，但这里没有终端：请加 --yes（或到终端里运行）。"@, "confirmation needed, but there is no terminal here: pass --yes (or run it in a terminal)."@)
    }

    /// Refusal: nobody can be asked here.
    pub fn confirm_needs_tty(&self) -> (r: &'static str)
        ensures
            r@ == self.confirm_needs_tty_text(),
    {
        self.one_of("需要确认，但这里没有终端：请加 --yes（或到终端里运行）。", "confirmation needed, but there is no terminal here: pass --yes (or run it in a terminal).")
    }

    /// Text of [`Lang::restart_status_failed`].
    pub open spec fn restart_status_failed_text(self) -> Seq<char> {
        self.pick("`systemctl restart systemd-binfmt.service` 失败：请手动重启后再看。"@, "`systemctl restart systemd-binfmt.service` failed: please restart it manually and check."@)
    }

    /// The service did not restart.
    pub fn restart_status_failed(&self) -> (r: &'static str)
        ensures
            r@ == self.restart_status_failed_text(),
    {
        self.one_of("`systemctl restart systemd-binfmt.service` 失败：请手动重启后再看。", "`systemctl restart systemd-binfmt.service` failed: please restart it manually and check.")
    }

    /// Text of [`Lang::no_config_dir`].
    pub open spec fn no_config_dir_text(self) -> Seq<char> {
        self.pick("无法定位用户配置目录（HOME / XDG_CONFIG_HOME）"@, "cannot locate the user config dir (HOME / XDG_CONFIG_HOME)"@)
    }

    /// There is no place for user settings.
    pub fn no_config_dir(&self) -> (r: &'static str)
        ensures
            r@ == self.no_config_dir_text(),
    {
        self.one_of("无法定位用户配置目录（HOME / XDG_CONFIG_HOME）", "cannot locate the user config dir (HOME / XDG_CONFIG_HOME)")
    }

    /// Text of [`Lang::cli_about`].
    pub open spec fn cli_about_text(self) -> Seq<char> {
        self.pick("说明一个程序为何无法在本机运行（binfmt_misc 解释器）。"@, "explain why a program cannot run on this machine (binfmt_misc interpreter)."@)
    }

    /// Help: what the program does.
    pub fn cli_about(&self) -> (r: &'static str)
        ensures
            r@ == self.cli_about_text(),
    {
        self.one_of("说明一个程序为何无法在本机运行（binfmt_misc 解释器）。", "explain why a program cannot run on this machine (binfmt_misc interpreter).")
    }

    /// Text of [`Lang::cli_usage`].
    pub open spec fn cli_usage_text(self) -> Seq<char> {
        self.pick("aosc-exec-guard [选项] <程序路径> [参数…]"@, "aosc-exec-guard [OPTIONS] <PROGRAM> [ARGS…]"@)
    }

    /// Help: the usage line.
    pub fn cli_usage(&self) -> (r: &'static str)
        ensures
            r@ == self.cli_usage_text(),
    {
        self.one_of("aosc-exec-guard [选项] <程序路径> [参数…]", "aosc-exec-guard [OPTIONS] <PROGRAM> [ARGS…]")
    }

    /// Text of [`Lang::cli_help_template`].
    pub open spec fn cli_help_template_text(self) -> Seq<char> {
        self.pick("{before-help}{about-with-newline}\n用法: {usage}\n\n{all-args}{after-help}"@, "{before-help}{about-with-newline}\nUsage: {usage}\n\n{all-args}{after-help}"@)
    }

    /// Help: the layout of the help page.
    pub fn cli_help_template(&self) -> (r: &'static str)
        ensures
            r@ == self.cli_help_template_text(),
    {
        self.one_of("{before-help}{about-with-newline}\n用法: {usage}\n\n{all-args}{after-help}", "{before-help}{about-with-newline}\nUsage: {usage}\n\n{all-args}{after-help}")
    }

    /// Text of [`Lang::cli_arguments_heading`].
    pub open spec fn cli_arguments_heading_text(self) -> Seq<char> {
        self.pick("参数"@, "Arguments"@)
    }

    /// Help: heading of the arguments.
    pub fn cli_arguments_heading(&self) -> (r: &'static str)
        ensures
            r@ == self.cli_arguments_heading_text(),
    {
        self.one_of("参数", "Arguments")
    }

    /// Text of [`Lang::cli_options_heading`].
    pub open spec fn cli_options_heading_text(self) -> Seq<char> {
        self.pick("选项"@, "Options"@)
    }

    /// Help: heading of the options.
    pub fn cli_options_heading(&self) -> (r: &'static str)
        ensures
            r@ == self.cli_options_heading_text(),
    {
        self.one_of("选项", "Options")
    }

    /// Text of [`Lang::cli_after_help`].
    pub open spec fn cli_after_help_text(self) -> Seq<char> {
        self.pick("（通常由内核通过 binfmt_misc 调用，无需手动运行；`--handover` 例外——要手动以 root 运行。）"@, "(normally invoked by the kernel through binfmt_misc; only `--handover` is meant to be run by hand, as root.)"@)
    }

    /// Help: the closing remark.
    pub fn cli_after_help(&self) -> (r: &'static str)
        ensures
            r@ == self.cli_after_help_text(),
    {
        self.one_of("（通常由内核通过 binfmt_misc 调用，无需手动运行；`--handover` 例外——要手动以 root 运行。）", "(normally invoked by the kernel through binfmt_misc; only `--handover` is meant to be run by hand, as root.)")
    }

    /// Text of [`Lang::cli_path_value`].
    pub open spec fn cli_path_value_text(self) -> Seq<char> {
        self.pick("程序路径"@, "PROGRAM"@)
    }

    /// Help: name of the program argument.
    pub fn cli_path_value(&self) -> (r: &'static str)
        ensures
            r@ == self.cli_path_value_text(),
    {
        self.one_of("程序路径", "PROGRAM")
    }

    /// Text of [`Lang::cli_mode_value`].
    pub open spec fn cli_mode_value_text(self) -> Seq<char> {
        self.pick("模式"@, "MODE"@)
    }

    /// Help: name of the mode's value.
    pub fn cli_mode_value(&self) -> (r: &'static str)
        ensures
            r@ == self.cli_mode_value_text(),
    {
        self.one_of("模式", "MODE")
    }

    /// Text of [`Lang::cli_action_value`].
    pub open spec fn cli_action_value_text(self) -> Seq<char> {
        self.pick("动作"@, "ACTION"@)
    }

    /// Help: name of the action's value.
    pub fn cli_action_value(&self) -> (r: &'static str)
        ensures
            r@ == self.cli_action_value_text(),
    {
        self.one_of("动作", "ACTION")
    }

    /// Text of [`Lang::cli_path_help`].
    pub open spec fn cli_path_help_text(self) -> Seq<char> {
        self.pick("无法运行的程序路径（其后的参数原属于原程序）"@, "path of the program that cannot run (the arguments after it belong to the program)"@)
    }

    /// Help for the program argument.
    pub fn cli_path_help(&self) -> (r: &'static str)
        ensures
            r@ == self.cli_path_help_text(),
    {
        self.one_of("无法运行的程序路径（其后的参数原属于原程序）", "path of the program that cannot run (the arguments after it belong to the program)")
    }

    /// Text of [`Lang::cli_no_dialog_help`].
    pub open spec fn cli_no_dialog_help_text(self) -> Seq<char> {
        self.pick("永远不弹框（相当于 AOSC_EXEC_GUARD_NO_DIALOG=1）"@, "never open a dialog (same as AOSC_EXEC_GUARD_NO_DIALOG=1)"@)
    }

    /// Help for `--no-dialog`.
    pub fn cli_no_dialog_help(&self) -> (r: &'static str)
        ensures
            r@ == self.cli_no_dialog_help_text(),
    {
        self.one_of("永远不弹框（相当于 AOSC_EXEC_GUARD_NO_DIALOG=1）", "never open a dialog (same as AOSC_EXEC_GUARD_NO_DIALOG=1)")
    }

    /// Text of [`Lang::cli_debug_help`].
    pub open spec fn cli_debug_help_text(self) -> Seq<char> {
        self.pick("打印模式判定等调试信息（含 binfmt 注册表可见性；相当于 AOSC_EXEC_GUARD_DEBUG=1）"@, "print the decision and other debug info (incl. binfmt registry visibility; same as AOSC_EXEC_GUARD_DEBUG=1)"@)
    }

    /// Help for `--debug`.
    pub fn cli_debug_help(&self) -> (r: &'static str)
        ensures
            r@ == self.cli_debug_help_text(),
    {
        self.one_of("打印模式判定等调试信息（含 binfmt 注册表可见性；相当于 AOSC_EXEC_GUARD_DEBUG=1）", "print the decision and other debug info (incl. binfmt registry visibility; same as AOSC_EXEC_GUARD_DEBUG=1)")
    }

    /// Text of [`Lang::cli_qemu_help`].
    pub open spec fn cli_qemu_help_text(self) -> Seq<char> {
        self.pick("检测到 qemu-user 仿真器时怎么办（环境变量 AOSC_EXEC_GUARD_QEMU；默认读保存过的选择）"@, "what to do when a qemu-user emulator is detected (env AOSC_EXEC_GUARD_QEMU; defaults to the saved choice)"@)
    }

    /// Help for `--qemu`.
    pub fn cli_qemu_help(&self) -> (r: &'static str)
        ensures
            r@ == self.cli_qemu_help_text(),
    {
        self.one_of("检测到 qemu-user 仿真器时怎么办（环境变量 AOSC_EXEC_GUARD_QEMU；默认读保存过的选择）", "what to do when a qemu-user emulator is detected (env AOSC_EXEC_GUARD_QEMU; defaults to the saved choice)")
    }

    /// Text of [`Lang::cli_handover_help`].
    pub open spec fn cli_handover_help_text(self) -> Seq<char> {
        self.pick("让 guard 退出、把外架构程序交给内核的 qemu 条目（--handover=off 恢复）"@, "step aside so the kernel's qemu entries handle foreign binaries (--handover=off to restore)"@)
    }

    /// Help for `--handover`.
    pub fn cli_handover_help(&self) -> (r: &'static str)
        ensures
            r@ == self.cli_handover_help_text(),
    {
        self.one_of("让 guard 退出、把外架构程序交给内核的 qemu 条目（--handover=off 恢复）", "step aside so the kernel's qemu entries handle foreign binaries (--handover=off to restore)")
    }

    /// Text of [`Lang::cli_yes_help`].
    pub open spec fn cli_yes_help_text(self) -> Seq<char> {
        self.pick("跳过确认询问（非交互环境必须加；只对 --handover 有意义）"@, "skip the confirmation prompt (required when non-interactive; only meaningful with --handover)"@)
    }

    /// Help for `--yes`.
    pub fn cli_yes_help(&self) -> (r: &'static str)
        ensures
            r@ == self.cli_yes_help_text(),
    {
        self.one_of("跳过确认询问（非交互环境必须加；只对 --handover 有意义）", "skip the confirmation prompt (required when non-interactive; only meaningful with --handover)")
    }

    /// Text of [`Lang::cli_help_help`].
    pub open spec fn cli_help_help_text(self) -> Seq<char> {
        self.pick("显示帮助信息"@, "Print help"@)
    }

    /// Help for `--help`.
    pub fn cli_help_help(&self) -> (r: &'static str)
        ensures
            r@ == self.cli_help_help_text(),
    {
        self.one_of("显示帮助信息", "Print help")
    }

    /// Text of [`Lang::cli_version_help`].
    pub open spec fn cli_version_help_text(self) -> Seq<char> {
        self.pick("显示版本号"@, "Print version"@)
    }

    /// Help for `--version`.
    pub fn cli_version_help(&self) -> (r: &'static str)
        ensures
            r@ == self.cli_version_help_text(),
    {
        self.one_of("显示版本号", "Print version")
    }

    /// Text of [`Lang::list_separator`].
    pub open spec fn list_separator_text(self) -> Seq<char> {
        self.pick("、"@, ", "@)
    }

    /// What stands between the names of a list.
    pub fn list_separator(&self) -> (r: &'static str)
        ensures
            r@ == self.list_separator_text(),
    {
        self.one_of("、", ", ")
    }

    /// Text of [`Lang::cannot_start`].
    pub open spec fn cannot_start_text(self, entry: Seq<char>, err: Seq<char>) -> Seq<char> {
        match self {
            Lang::ZhCn => "无法启动 "@ + entry + "："@ + err,
            Lang::En => "cannot start "@ + entry + ": "@ + err,
        }
    }

    /// The emulator could not be started.
    pub fn cannot_start(&self, entry: &str, err: &str) -> (r: String)
        ensures
            r@ == self.cannot_start_text(entry@, err@),
    {
        match self {
            Lang::ZhCn => {
                let mut s = "无法启动 ".to_owned();
                s.append(entry);
                s.append("：");
                s.append(err);
                s
            },
            Lang::En => {
                let mut s = "cannot start ".to_owned();
                s.append(entry);
                s.append(": ");
                s.append(err);
                s
            },
        }
    }

    /// Text of [`Lang::cannot_remember`].
    pub open spec fn cannot_remember_text(self, err: Seq<char>) -> Seq<char> {
        match self {
            Lang::ZhCn => "无法记住“不再询问”的选择："@ + err,
            Lang::En => "could not remember the \"don't ask again\" choice: "@ + err,
        }
    }

    /// The choice could not be saved.
    pub fn cannot_remember(&self, err: &str) -> (r: String)
        ensures
            r@ == self.cannot_remember_text(err@),
    {
        match self {
            Lang::ZhCn => {
                let mut s = "无法记住“不再询问”的选择：".to_owned();
                s.append(err);
                s
            },
            Lang::En => {
                let mut s = "could not remember the \"don't ask again\" choice: ".to_owned();
                s.append(err);
                s
            },
        }
    }

    /// Text of [`Lang::unknown_machine`].
    pub open spec fn unknown_machine_text(self, machine: nat) -> Seq<char> {
        match self {
            Lang::ZhCn => "未知架构（e_machine=0x"@ + crate::text::numeral(machine, 16) + "）"@,
            Lang::En => "unknown architecture (e_machine=0x"@ + crate::text::numeral(machine, 16) + ")"@,
        }
    }

    /// Name of a machine that is not in the table.
    pub fn unknown_machine(&self, machine: u16) -> (r: String)
        ensures
            r@ == self.unknown_machine_text(machine as nat),
    {
        match self {
            Lang::ZhCn => {
                let mut s = "未知架构（e_machine=0x".to_owned();
                push_numeral(&mut s, machine as u64, 16);
                s.append("）");
                s
            },
            Lang::En => {
                let mut s = "unknown architecture (e_machine=0x".to_owned();
                push_numeral(&mut s, machine as u64, 16);
                s.append(")");
                s
            },
        }
    }

    /// Text of [`Lang::arch_sentence`].
    pub open spec fn arch_sentence_text(self, machine: Seq<char>, bits: nat, native: Seq<char>) -> Seq<char> {
        match self {
            Lang::ZhCn => "该程序是为 "@ + machine + "构建的 "@ + crate::text::numeral(bits, 10) + " 位程序，而本机是 "@ + native,
            Lang::En => "a "@ + crate::text::numeral(bits, 10) + "-bit program built for "@ + machine + ", but this machine is "@ + native,
        }
    }

    /// What the program was built for, and what this machine is.
    pub fn arch_sentence(&self, machine: &str, bits: u32, native: &str) -> (r: String)
        ensures
            r@ == self.arch_sentence_text(machine@, bits as nat, native@),
    {
        match self {
            Lang::ZhCn => {
                let mut s = "该程序是为 ".to_owned();
                s.append(machine);
                s.append("构建的 ");
                push_numeral(&mut s, bits as u64, 10);
                s.append(" 位程序，而本机是 ");
                s.append(native);
                s
            },
            Lang::En => {
                let mut s = "a ".to_owned();
                push_numeral(&mut s, bits as u64, 10);
                s.append("-bit program built for ");
                s.append(machine);
                s.append(", but this machine is ");
                s.append(native);
                s
            },
        }
    }

    /// Text of [`Lang::hint_emulator_installed`].
    pub open spec fn hint_emulator_installed_text(self, entry: Seq<char>) -> Seq<char> {
        match self {
            Lang::ZhCn => "提示：本机已安装 "@ + entry + "，设置 AOSC_EXEC_GUARD_QEMU=always 可让它自动运行（ask=每次询问、never=从不运行）。"@,
            Lang::En => "Hint: "@ + entry + " is installed; set AOSC_EXEC_GUARD_QEMU=always to run it automatically (ask=ask every time, never=never run)."@,
        }
    }

    /// Hint that an emulator is there and how to use it.
    pub fn hint_emulator_installed(&self, entry: &str) -> (r: String)
        ensures
            r@ == self.hint_emulator_installed_text(entry@),
    {
        match self {
            Lang::ZhCn => {
                let mut s = "提示：本机已安装 ".to_owned();
                s.append(entry);
                s.append("，设置 AOSC_EXEC_GUARD_QEMU=always 可让它自动运行（ask=每次询问、never=从不运行）。");
                s
            },
            Lang::En => {
                let mut s = "Hint: ".to_owned();
                s.append(entry);
                s.append(" is installed; set AOSC_EXEC_GUARD_QEMU=always to run it automatically (ask=ask every time, never=never run).");
                s
            },
        }
    }

    /// Text of [`Lang::cannot_run`].
    pub open spec fn cannot_run_text(self, path: Seq<char>, why: Seq<char>, hint: Seq<char>) -> Seq<char> {
        match self {
            Lang::ZhCn => "无法运行“"@ + path + "”："@ + why + "。\n"@ + hint,
            Lang::En => "\""@ + path + "\" cannot run: "@ + why + ".\n"@ + hint,
        }
    }

    /// The explanation for a program of another machine.
    pub fn cannot_run(&self, path: &str, why: &str, hint: &str) -> (r: String)
        ensures
            r@ == self.cannot_run_text(path@, why@, hint@),
    {
        match self {
            Lang::ZhCn => {
                let mut s = "无法运行“".to_owned();
                s.append(path);
                s.append("”：");
                s.append(why);
                s.append("。\n");
                s.append(hint);
                s
            },
            Lang::En => {
                let mut s = "\"".to_owned();
                s.append(path);
                s.append("\" cannot run: ");
                s.append(why);
                s.append(".\n");
                s.append(hint);
                s
            },
        }
    }

    /// Text of [`Lang::native_but_rejected`].
    pub open spec fn native_but_rejected_text(self, path: Seq<char>, machine: Seq<char>) -> Seq<char> {
        match self {
            Lang::ZhCn => "无法运行“"@ + path + "”：程序架构与本机一致（"@ + machine + "），但内核拒绝了它，文件可能已损坏或格式不受支持。"@,
            Lang::En => "\""@ + path + "\" cannot run: it matches this machine ("@ + machine + "), but the kernel rejected it - the file may be corrupted or in an unsupported format."@,
        }
    }

    /// The explanation for a program of this machine that the kernel refused.
    pub fn native_but_rejected(&self, path: &str, machine: &str) -> (r: String)
        ensures
            r@ == self.native_but_rejected_text(path@, machine@),
    {
        match self {
            Lang::ZhCn => {
                let mut s = "无法运行“".to_owned();
                s.append(path);
                s.append("”：程序架构与本机一致（");
                s.append(machine);
                s.append("），但内核拒绝了它，文件可能已损坏或格式不受支持。");
                s
            },
            Lang::En => {
                let mut s = "\"".to_owned();
                s.append(path);
                s.append("\" cannot run: it matches this machine (");
                s.append(machine);
                s.append("), but the kernel rejected it - the file may be corrupted or in an unsupported format.");
                s
            },
        }
    }

    /// Text of [`Lang::cannot_run_notelf`].
    pub open spec fn cannot_run_notelf_text(self, path: Seq<char>, why: Seq<char>) -> Seq<char> {
        match self {
            Lang::ZhCn => "无法运行“"@ + path + "”："@ + why + "。"@,
            Lang::En => "\""@ + path + "\" cannot run: "@ + why + "."@,
        }
    }

    /// The explanation for a file that is no program.
    pub fn cannot_run_notelf(&self, path: &str, why: &str) -> (r: String)
        ensures
            r@ == self.cannot_run_notelf_text(path@, why@),
    {
        match self {
            Lang::ZhCn => {
                let mut s = "无法运行“".to_owned();
                s.append(path);
                s.append("”：");
                s.append(why);
                s.append("。");
                s
            },
            Lang::En => {
                let mut s = "\"".to_owned();
                s.append(path);
                s.append("\" cannot run: ");
                s.append(why);
                s.append(".");
                s
            },
        }
    }

    /// Text of [`Lang::qemu_question`].
    pub open spec fn qemu_question_text(self, path: Seq<char>, sentence: Seq<char>) -> Seq<char> {
        match self {
            Lang::ZhCn => "“"@ + path + "”不能在本机直接运行："@ + sentence + "。"@,
            Lang::En => "\""@ + path + "\" cannot run on this machine directly: "@ + sentence + "."@,
        }
    }

    /// Why the user is being asked.
    pub fn qemu_question(&self, path: &str, sentence: &str) -> (r: String)
        ensures
            r@ == self.qemu_question_text(path@, sentence@),
    {
        match self {
            Lang::ZhCn => {
                let mut s = "“".to_owned();
                s.append(path);
                s.append("”不能在本机直接运行：");
                s.append(sentence);
                s.append("。");
                s
            },
            Lang::En => {
                let mut s = "\"".to_owned();
                s.append(path);
                s.append("\" cannot run on this machine directly: ");
                s.append(sentence);
                s.append(".");
                s
            },
        }
    }

    /// Text of [`Lang::run_with_prompt`].
    pub open spec fn run_with_prompt_text(self, entry: Seq<char>) -> Seq<char> {
        match self {
            Lang::ZhCn => "用 "@ + entry + " 运行吗"@,
            Lang::En => "Run with "@ + entry + "?"@,
        }
    }

    /// Asks whether to run with an emulator.
    pub fn run_with_prompt(&self, entry: &str) -> (r: String)
        ensures
            r@ == self.run_with_prompt_text(entry@),
    {
        match self {
            Lang::ZhCn => {
                let mut s = "用 ".to_owned();
                s.append(entry);
                s.append(" 运行吗");
                s
            },
            Lang::En => {
                let mut s = "Run with ".to_owned();
                s.append(entry);
                s.append("?");
                s
            },
        }
    }

    /// Text of [`Lang::ho_nothing_installed`].
    pub open spec fn ho_nothing_installed_text(self, conf_name: Seq<char>) -> Seq<char> {
        match self {
            Lang::ZhCn => "没找到 guard 的 binfmt 条目，也没找到配置文件（"@ + conf_name + "）：像是没装，无需让位。"@,
            Lang::En => "no guard binfmt entry and no config file ("@ + conf_name + ") found: nothing to hand over."@,
        }
    }

    /// There is nothing to step aside from.
    pub fn ho_nothing_installed(&self, conf_name: &str) -> (r: String)
        ensures
            r@ == self.ho_nothing_installed_text(conf_name@),
    {
        match self {
            Lang::ZhCn => {
                let mut s = "没找到 guard 的 binfmt 条目，也没找到配置文件（".to_owned();
                s.append(conf_name);
                s.append("）：像是没装，无需让位。");
                s
            },
            Lang::En => {
                let mut s = "no guard binfmt entry and no config file (".to_owned();
                s.append(conf_name);
                s.append(") found: nothing to hand over.");
                s
            },
        }
    }

    /// Text of [`Lang::ho_already`].
    pub open spec fn ho_already_text(self, conf_name: Seq<char>, suffix: Seq<char>) -> Seq<char> {
        match self {
            Lang::ZhCn => "guard 已经处于让位状态（"@ + conf_name + suffix + " 还在）；要恢复用 `--handover=off`。"@,
            Lang::En => "the guard is already handed over ("@ + conf_name + suffix + " is still there); use `--handover=off` to restore."@,
        }
    }

    /// Stepped aside already.
    pub fn ho_already(&self, conf_name: &str, suffix: &str) -> (r: String)
        ensures
            r@ == self.ho_already_text(conf_name@, suffix@),
    {
        match self {
            Lang::ZhCn => {
                let mut s = "guard 已经处于让位状态（".to_owned();
                s.append(conf_name);
                s.append(suffix);
                s.append(" 还在）；要恢复用 `--handover=off`。");
                s
            },
            Lang::En => {
                let mut s = "the guard is already handed over (".to_owned();
                s.append(conf_name);
                s.append(suffix);
                s.append(" is still there); use `--handover=off` to restore.");
                s
            },
        }
    }

    /// Text of [`Lang::ho_no_conf_notice`].
    pub open spec fn ho_no_conf_notice_text(self, conf_name: Seq<char>) -> Seq<char> {
        match self {
            Lang::ZhCn => "提醒：没找到配置文件（"@ + conf_name + "），只注销当前条目；如果它是别的方式注册的，重启后可能回来。"@,
            Lang::En => "note: no config file ("@ + conf_name + ") found; only the current entries are unregistered. If they were registered some other way they may come back after a reboot."@,
        }
    }

    /// Only entries were found, no configuration file.
    pub fn ho_no_conf_notice(&self, conf_name: &str) -> (r: String)
        ensures
            r@ == self.ho_no_conf_notice_text(conf_name@),
    {
        match self {
            Lang::ZhCn => {
                let mut s = "提醒：没找到配置文件（".to_owned();
                s.append(conf_name);
                s.append("），只注销当前条目；如果它是别的方式注册的，重启后可能回来。");
                s
            },
            Lang::En => {
                let mut s = "note: no config file (".to_owned();
                s.append(conf_name);
                s.append(") found; only the current entries are unregistered. If they were registered some other way they may come back after a reboot.");
                s
            },
        }
    }

    /// Text of [`Lang::ho_disable_failed`].
    pub open spec fn ho_disable_failed_text(self, path: Seq<char>, err: Seq<char>) -> Seq<char> {
        match self {
            Lang::ZhCn => "停用 "@ + path + " 失败（需要 root？）："@ + err,
            Lang::En => "could not disable "@ + path + " (root needed?): "@ + err,
        }
    }

    /// A configuration file could not be switched off.
    pub fn ho_disable_failed(&self, path: &str, err: &str) -> (r: String)
        ensures
            r@ == self.ho_disable_failed_text(path@, err@),
    {
        match self {
            Lang::ZhCn => {
                let mut s = "停用 ".to_owned();
                s.append(path);
                s.append(" 失败（需要 root？）：");
                s.append(err);
                s
            },
            Lang::En => {
                let mut s = "could not disable ".to_owned();
                s.append(path);
                s.append(" (root needed?): ");
                s.append(err);
                s
            },
        }
    }

    /// Text of [`Lang::ho_disabled`].
    pub open spec fn ho_disabled_text(self, path: Seq<char>) -> Seq<char> {
        match self {
            Lang::ZhCn => "已停用 "@ + path,
            Lang::En => "disabled "@ + path,
        }
    }

    /// A configuration file was switched off.
    pub fn ho_disabled(&self, path: &str) -> (r: String)
        ensures
            r@ == self.ho_disabled_text(path@),
    {
        match self {
            Lang::ZhCn => {
                let mut s = "已停用 ".to_owned();
                s.append(path);
                s
            },
            Lang::En => {
                let mut s = "disabled ".to_owned();
                s.append(path);
                s
            },
        }
    }

    /// Text of [`Lang::ho_unregister_failed`].
    pub open spec fn ho_unregister_failed_text(self, name: Seq<char>, err: Seq<char>) -> Seq<char> {
        match self {
            Lang::ZhCn => "注销条目 "@ + name + " 失败（需要 root？）："@ + err,
            Lang::En => "could not unregister entry "@ + name + " (root needed?): "@ + err,
        }
    }

    /// An entry could not be unregistered.
    pub fn ho_unregister_failed(&self, name: &str, err: &str) -> (r: String)
        ensures
            r@ == self.ho_unregister_failed_text(name@, err@),
    {
        match self {
            Lang::ZhCn => {
                let mut s = "注销条目 ".to_owned();
                s.append(name);
                s.append(" 失败（需要 root？）：");
                s.append(err);
                s
            },
            Lang::En => {
                let mut s = "could not unregister entry ".to_owned();
                s.append(name);
                s.append(" (root needed?): ");
                s.append(err);
                s
            },
        }
    }

    /// Text of [`Lang::ho_unregistered`].
    pub open spec fn ho_unregistered_text(self, name: Seq<char>) -> Seq<char> {
        match self {
            Lang::ZhCn => "已注销条目 "@ + name,
            Lang::En => "unregistered entry "@ + name,
        }
    }

    /// An entry was unregistered.
    pub fn ho_unregistered(&self, name: &str) -> (r: String)
        ensures
            r@ == self.ho_unregistered_text(name@),
    {
        match self {
            Lang::ZhCn => {
                let mut s = "已注销条目 ".to_owned();
                s.append(name);
                s
            },
            Lang::En => {
                let mut s = "unregistered entry ".to_owned();
                s.append(name);
                s
            },
        }
    }

    /// Text of [`Lang::ho_residue`].
    pub open spec fn ho_residue_text(self, list: Seq<char>) -> Seq<char> {
        match self {
            Lang::ZhCn => "注销之后还有残留条目："@ + list,
            Lang::En => "entries left behind after unregistering: "@ + list,
        }
    }

    /// Entries are left after unregistering them all.
    pub fn ho_residue(&self, list: &str) -> (r: String)
        ensures
            r@ == self.ho_residue_text(list@),
    {
        match self {
            Lang::ZhCn => {
                let mut s = "注销之后还有残留条目：".to_owned();
                s.append(list);
                s
            },
            Lang::En => {
                let mut s = "entries left behind after unregistering: ".to_owned();
                s.append(list);
                s
            },
        }
    }

    /// Text of [`Lang::tb_not_handed`].
    pub open spec fn tb_not_handed_text(self, conf_name: Seq<char>, suffix: Seq<char>) -> Seq<char> {
        match self {
            Lang::ZhCn => "没有找到停用的配置文件（"@ + conf_name + suffix + "）：当前不在让位状态。"@,
            Lang::En => "no disabled config file ("@ + conf_name + suffix + ") found: not in the handover state."@,
        }
    }

    /// There is nothing to come back from.
    pub fn tb_not_handed(&self, conf_name: &str, suffix: &str) -> (r: String)
        ensures
            r@ == self.tb_not_handed_text(conf_name@, suffix@),
    {
        match self {
            Lang::ZhCn => {
                let mut s = "没有找到停用的配置文件（".to_owned();
                s.append(conf_name);
                s.append(suffix);
                s.append("）：当前不在让位状态。");
                s
            },
            Lang::En => {
                let mut s = "no disabled config file (".to_owned();
                s.append(conf_name);
                s.append(suffix);
                s.append(") found: not in the handover state.");
                s
            },
        }
    }

    /// Text of [`Lang::tb_restore_failed`].
    pub open spec fn tb_restore_failed_text(self, path: Seq<char>, err: Seq<char>) -> Seq<char> {
        match self {
            Lang::ZhCn => "恢复 "@ + path + " 失败（需要 root？）："@ + err,
            Lang::En => "could not restore "@ + path + " (root needed?): "@ + err,
        }
    }

    /// A configuration file could not be switched on.
    pub fn tb_restore_failed(&self, path: &str, err: &str) -> (r: String)
        ensures
            r@ == self.tb_restore_failed_text(path@, err@),
    {
        match self {
            Lang::ZhCn => {
                let mut s = "恢复 ".to_owned();
                s.append(path);
                s.append(" 失败（需要 root？）：");
                s.append(err);
                s
            },
            Lang::En => {
                let mut s = "could not restore ".to_owned();
                s.append(path);
                s.append(" (root needed?): ");
                s.append(err);
                s
            },
        }
    }

    /// Text of [`Lang::tb_restored`].
    pub open spec fn tb_restored_text(self, path: Seq<char>) -> Seq<char> {
        match self {
            Lang::ZhCn => "已恢复 "@ + path,
            Lang::En => "restored "@ + path,
        }
    }

    /// A configuration file was switched on.
    pub fn tb_restored(&self, path: &str) -> (r: String)
        ensures
            r@ == self.tb_restored_text(path@),
    {
        match self {
            Lang::ZhCn => {
                let mut s = "已恢复 ".to_owned();
                s.append(path);
                s
            },
            Lang::En => {
                let mut s = "restored ".to_owned();
                s.append(path);
                s
            },
        }
    }

    /// Text of [`Lang::tb_done`].
    pub open spec fn tb_done_text(self, count: nat) -> Seq<char> {
        match self {
            Lang::ZhCn => "已恢复：guard 条目回来了（"@ + crate::text::numeral(count, 10) + " 个）。"@,
            Lang::En => "restored: guard entries are back ("@ + crate::text::numeral(count, 10) + ")."@,
        }
    }

    /// Came back, with so many entries.
    pub fn tb_done(&self, count: usize) -> (r: String)
        ensures
            r@ == self.tb_done_text(count as nat),
    {
        match self {
            Lang::ZhCn => {
                let mut s = "已恢复：guard 条目回来了（".to_owned();
                push_numeral(&mut s, count as u64, 10);
                s.append(" 个）。");
                s
            },
            Lang::En => {
                let mut s = "restored: guard entries are back (".to_owned();
                push_numeral(&mut s, count as u64, 10);
                s.append(").");
                s
            },
        }
    }

    /// Text of [`Lang::confirm_failed`].
    pub open spec fn confirm_failed_text(self, err: Seq<char>) -> Seq<char> {
        match self {
            Lang::ZhCn => "询问失败："@ + err,
            Lang::En => "prompt failed: "@ + err,
        }
    }

    /// The question could not be asked.
    pub fn confirm_failed(&self, err: &str) -> (r: String)
        ensures
            r@ == self.confirm_failed_text(err@),
    {
        match self {
            Lang::ZhCn => {
                let mut s = "询问失败：".to_owned();
                s.append(err);
                s
            },
            Lang::En => {
                let mut s = "prompt failed: ".to_owned();
                s.append(err);
                s
            },
        }
    }

    /// Text of [`Lang::restart_failed`].
    pub open spec fn restart_failed_text(self, err: Seq<char>) -> Seq<char> {
        match self {
            Lang::ZhCn => "没法运行 systemctl（"@ + err + "）：请手动 `systemctl restart systemd-binfmt.service`。"@,
            Lang::En => "could not run systemctl ("@ + err + "): please restart manually with `systemctl restart systemd-binfmt.service`."@,
        }
    }

    /// The service manager could not be run.
    pub fn restart_failed(&self, err: &str) -> (r: String)
        ensures
            r@ == self.restart_failed_text(err@),
    {
        match self {
            Lang::ZhCn => {
                let mut s = "没法运行 systemctl（".to_owned();
                s.append(err);
                s.append("）：请手动 `systemctl restart systemd-binfmt.service`。");
                s
            },
            Lang::En => {
                let mut s = "could not run systemctl (".to_owned();
                s.append(err);
                s.append("): please restart manually with `systemctl restart systemd-binfmt.service`.");
                s
            },
        }
    }

    /// Text of [`Lang::user_config_content`].
    pub open spec fn user_config_content_text(self, value: Seq<char>) -> Seq<char> {
        match self {
            Lang::ZhCn => "# aosc-exec-guard 用户设置（“不再询问”时写入）\n"@ + "# qemu: ask=每次询问（默认）/ always=总是用仿真器运行 / never=从不运行\n"@ + "qemu = "@ + value + "\n"@,
            Lang::En => "# aosc-exec-guard user settings (written when \"don't ask again\" was chosen)\n"@ + "# qemu: ask=ask every time (default) / always=always run via the emulator / never=never run\n"@ + "qemu = "@ + value + "\n"@,
        }
    }

    /// The user settings file that holds a choice.
    pub fn user_config_content(&self, value: &str) -> (r: String)
        ensures
            r@ == self.user_config_content_text(value@),
    {
        match self {
            Lang::ZhCn => {
                let mut s = "# aosc-exec-guard 用户设置（“不再询问”时写入）\n".to_owned();
                s.append("# qemu: ask=每次询问（默认）/ always=总是用仿真器运行 / never=从不运行\n");
                s.append("qemu = ");
                s.append(value);
                s.append("\n");
                s
            },
            Lang::En => {
                let mut s = "# aosc-exec-guard user settings (written when \"don't ask again\" was chosen)\n".to_owned();
                s.append("# qemu: ask=ask every time (default) / always=always run via the emulator / never=never run\n");
                s.append("qemu = ");
                s.append(value);
                s.append("\n");
                s
            },
        }
    }
}

} // verus!
