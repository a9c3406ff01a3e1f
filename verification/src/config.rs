//! Settings: what to do when an emulator is there, and where that is kept.

use vstd::prelude::*;
use vstd::string::*;

use crate::i18n::Lang;
use crate::paths::{join, to_bytes};
use crate::text::{chars_of, find, head, reads, split_lines, tail, trim};

verus! {

/// What to do when there is an emulator for the program.
#[derive(Debug, Clone, Copy, PartialEq, Eq, Structural)]
pub enum QemuMode {
    /// Ask first (the default).
    Ask,
    /// Always hand the program to the emulator.
    Always,
    /// Never run it, only explain.
    Never,
}

impl QemuMode {
    /// What the mode is called in settings.
    pub open spec fn name(self) -> Seq<char> {
        match self {
            QemuMode::Ask => "ask"@,
            QemuMode::Always => "always"@,
            QemuMode::Never => "never"@,
        }
    }

    /// What the mode is called in settings.
    pub fn as_str(self) -> (r: &'static str)
        ensures
            r@ == self.name(),
    {
        match self {
            QemuMode::Ask => "ask",
            QemuMode::Always => "always",
            QemuMode::Never => "never",
        }
    }
}

/// The mode that `value` names, if it names one; white space around it does
/// not matter.
pub open spec fn mode_of(value: Seq<char>) -> Option<QemuMode> {
    let v = crate::text::trimmed(value);
    if v == "ask"@ {
        Some(QemuMode::Ask)
    } else if v == "always"@ {
        Some(QemuMode::Always)
    } else if v == "never"@ {
        Some(QemuMode::Never)
    } else {
        None
    }
}

/// The mode that `value` names, if it names one.
fn read_mode(value: &[char]) -> (r: Option<QemuMode>)
    ensures
        r == mode_of(value@),
{
    let v: &[char] = trim(value);
    if reads(v, "ask") {
        Some(QemuMode::Ask)
    } else if reads(v, "always") {
        Some(QemuMode::Always)
    } else if reads(v, "never") {
        Some(QemuMode::Never)
    } else {
        None
    }
}

/// The mode that `value` names, if it names one.
pub fn parse_qemu_mode(value: &str) -> (r: Option<QemuMode>)
    ensures
        r == mode_of(value@),
{
    read_mode(chars_of(value).as_slice())
}

/// The mode that a line of a settings file sets: `qemu = <mode>`, with a
/// comment from `#` on.
pub open spec fn line_setting(line: Seq<char>) -> Option<QemuMode> {
    let l = crate::text::trimmed(crate::text::before(line, '#'));
    if crate::text::position(l, '=') < l.len() && crate::text::trimmed(crate::text::before(l, '='))
        == "qemu"@ {
        mode_of(crate::text::after(l, '='))
    } else {
        None
    }
}

/// The mode that the first of `lines` to set one sets.
pub open spec fn first_setting(lines: Seq<Seq<char>>) -> Option<QemuMode>
    decreases lines.len(),
{
    if lines.len() == 0 {
        None
    } else if line_setting(lines[0]) is Some {
        line_setting(lines[0])
    } else {
        first_setting(lines.drop_first())
    }
}

/// The mode that a settings file sets, if there is a file and it sets one.
pub open spec fn saved_mode(text: Option<Seq<char>>) -> Option<QemuMode> {
    match text {
        Some(t) => first_setting(crate::text::lines(t)),
        None => None,
    }
}

/// The mode that a line of a settings file sets.
fn parse_line(line: &[char]) -> (r: Option<QemuMode>)
    ensures
        r == line_setting(line@),
{
    let l: &[char] = trim(head(line, find(line, '#')));
    let at: usize = find(l, '=');
    if at < l.len() && reads(trim(head(l, at)), "qemu") {
        read_mode(tail(l, at + 1))
    } else {
        None
    }
}

/// The mode that a settings file sets, if it sets one: the first line that
/// names a known mode counts.
pub fn load_saved_qemu_mode(text: &str) -> (r: Option<QemuMode>)
    ensures
        r == saved_mode(Some(text@)),
{
    let chars = chars_of(text);
    let lines = split_lines(chars.as_slice());
    let ghost all = crate::text::views(lines@);
    let mut i: usize = 0;
    proof {
        assert(all.skip(0) =~= all);
    }
    while i < lines.len()
        invariant
            i <= lines@.len(),
            all == crate::text::views(lines@),
            all == crate::text::lines(text@),
            first_setting(all) == first_setting(all.skip(i as int)),
        decreases lines@.len() - i,
    {
        proof {
            assert(all[i as int] == lines@[i as int]@);
            assert(all.skip(i as int).drop_first() =~= all.skip(i + 1));
        }
        let mode = parse_line(lines[i]);
        if mode.is_some() {
            return mode;
        }
        i += 1;
    }
    None
}

/// What to do with a program that an emulator could run. The command line
/// comes before the environment, the environment before the user's settings,
/// and those before the system's. In a chroot, or where the registry is out of
/// sight, settings of the host do not count, nobody is asked, and the emulator
/// gets the program, as if this one were not there.
pub open spec fn resolved(
    cmdline: Option<QemuMode>,
    env: Option<Seq<char>>,
    isolated: bool,
    user: Option<Seq<char>>,
    system: Option<Seq<char>>,
) -> QemuMode {
    if cmdline is Some {
        cmdline->0
    } else if env is Some && mode_of(env->0) is Some {
        mode_of(env->0)->0
    } else if isolated {
        QemuMode::Always
    } else if saved_mode(user) is Some {
        saved_mode(user)->0
    } else if saved_mode(system) is Some {
        saved_mode(system)->0
    } else {
        QemuMode::Ask
    }
}

/// Settings of the host count here: on the host, with the registry in sight.
pub open spec fn settings_count(in_chroot: bool, registry_visible: bool) -> bool {
    !in_chroot && registry_visible
}

/// What to do with a program that an emulator could run, given the command
/// line, what `AOSC_EXEC_GUARD_QEMU` is set to, where we are, and what the
/// settings files of the user and of the system hold.
pub fn resolve_qemu_mode(
    cmdline: Option<QemuMode>,
    env: Option<&str>,
    in_chroot: bool,
    registry_visible: bool,
    user: Option<&str>,
    system: Option<&str>,
) -> (r: QemuMode)
    ensures
        r == resolved(
            cmdline,
            crate::i18n::set_to(env),
            in_chroot || !registry_visible,
            crate::i18n::set_to(user),
            crate::i18n::set_to(system),
        ),
        r == resolved(
            cmdline,
            crate::i18n::set_to(env),
            !settings_count(in_chroot, registry_visible),
            crate::i18n::set_to(user),
            crate::i18n::set_to(system),
        ),
{
    if let Some(mode) = cmdline {
        return mode;
    }
    if let Some(value) = env {
        if let Some(mode) = parse_qemu_mode(value) {
            return mode;
        }
    }
    if in_chroot || !registry_visible {
        return QemuMode::Always;
    }
    if let Some(text) = user {
        if let Some(mode) = load_saved_qemu_mode(text) {
            return mode;
        }
    }
    if let Some(text) = system {
        if let Some(mode) = load_saved_qemu_mode(text) {
            return mode;
        }
    }
    QemuMode::Ask
}

/// Where the system keeps its settings.
pub fn system_config_path() -> (r: Vec<u8>)
    ensures
        r@ == crate::paths::bytes("/etc/aosc-exec-guard.conf"@),
{
    to_bytes("/etc/aosc-exec-guard.conf")
}

/// Where the user keeps settings: in `XDG_CONFIG_HOME`, if that is set and not
/// empty, else in `.config` below `HOME`.
pub open spec fn config_file(xdg: Option<Seq<u8>>, home: Option<Seq<u8>>) -> Option<Seq<u8>> {
    let name = crate::paths::bytes("aosc-exec-guard.conf"@);
    if xdg is Some && xdg->0.len() > 0 {
        Some(crate::paths::joined(xdg->0, name))
    } else if home is Some {
        Some(
            crate::paths::joined(
                crate::paths::joined(home->0, crate::paths::bytes(".config"@)),
                name,
            ),
        )
    } else {
        None
    }
}

/// The bytes of a variable that may be unset.
pub open spec fn bytes_set(value: Option<&[u8]>) -> Option<Seq<u8>> {
    match value {
        Some(v) => Some(v@),
        None => None,
    }
}

/// The path of the user's settings, given what `XDG_CONFIG_HOME` and `HOME`
/// are set to.
pub fn config_path(xdg: Option<&[u8]>, home: Option<&[u8]>) -> (r: Option<Vec<u8>>)
    ensures
        crate::qemu::bytes_view(r) == config_file(bytes_set(xdg), bytes_set(home)),
{
    let name = to_bytes("aosc-exec-guard.conf");
    if let Some(dir) = xdg {
        if dir.len() > 0 {
            return Some(join(dir, name.as_slice()));
        }
    }
    match home {
        Some(dir) => {
            let base = join(dir, to_bytes(".config").as_slice());
            Some(join(base.as_slice(), name.as_slice()))
        },
        None => None,
    }
}

/// A settings file to write.
#[derive(Debug)]
pub struct Settings {
    /// Where it goes.
    pub path: Vec<u8>,
    /// What it holds.
    pub text: String,
}

/// The settings file that keeps a choice, or what to say where there is no
/// place for it.
pub fn save_qemu_mode(
    lang: Lang,
    mode: QemuMode,
    xdg: Option<&[u8]>,
    home: Option<&[u8]>,
) -> (r: Result<Settings, &'static str>)
    ensures
        match (r, config_file(bytes_set(xdg), bytes_set(home))) {
            (Ok(settings), Some(path)) => settings.path@ == path && settings.text@
                == lang.user_config_content_text(mode.name()),
            (Err(why), None) => why@ == lang.no_config_dir_text(),
            _ => false,
        },
{
    match config_path(xdg, home) {
        Some(path) => Ok(Settings { path, text: lang.user_config_content(mode.as_str()) }),
        None => Err(lang.no_config_dir()),
    }
}

/// A comment sets nothing.
proof fn lemma_comment_sets_nothing(line: Seq<char>)
    requires
        line.len() > 0,
        line[0] == '#',
    ensures
        line_setting(line) is None,
{
    assert(crate::text::before(line, '#') =~= Seq::<char>::empty());
    assert(crate::text::trimmed(Seq::<char>::empty()) =~= Seq::<char>::empty());
}

/// The line that is written for a mode sets it.
proof fn lemma_setting_sets(mode: QemuMode)
    ensures
        line_setting("qemu = "@ + mode.name()) == Some(mode),
        forall|i: int|
            0 <= i < ("qemu = "@ + mode.name()).len() ==> ("qemu = "@ + mode.name())[i] != '\n',
        crate::text::without_return("qemu = "@ + mode.name()) == "qemu = "@ + mode.name(),
{
    reveal_strlit("qemu = ");
    reveal_strlit("qemu");
    reveal_strlit("ask");
    reveal_strlit("always");
    reveal_strlit("never");
    let name = mode.name();
    let line = "qemu = "@ + name;
    crate::text::lemma_position_is(line, '#', line.len() as int);
    assert(crate::text::before(line, '#') =~= line);
    crate::text::lemma_trimmed_tight(line);
    crate::text::lemma_position_is(line, '=', 5);
    let key = crate::text::before(line, '=');
    assert(crate::text::trimmed(key) == "qemu"@) by {
        assert(key =~= "qemu"@.push(' '));
        assert(key.drop_last() =~= "qemu"@);
        assert(crate::text::trimmed_start(key) == key);
        reveal_with_fuel(crate::text::trimmed_end, 2);
    }
    let value = crate::text::after(line, '=');
    assert(crate::text::trimmed(value) == name) by {
        assert(value =~= seq![' '] + name);
        assert(value.drop_first() =~= name);
        reveal_with_fuel(crate::text::trimmed_start, 2);
        assert(crate::text::trimmed_start(value) == name);
        assert(crate::text::trimmed_end(name) == name);
    }
}

/// Two comments, and the line that sets a mode.
proof fn lemma_file_sets(first: Seq<char>, second: Seq<char>, mode: QemuMode)
    requires
        first.len() > 1,
        first[0] == '#',
        first.last() == '\n',
        forall|i: int| 0 <= i < first.len() - 1 ==> first[i] != '\n',
        second.len() > 1,
        second[0] == '#',
        second.last() == '\n',
        forall|i: int| 0 <= i < second.len() - 1 ==> second[i] != '\n',
    ensures
        saved_mode(Some(first + second + "qemu = "@ + mode.name() + "\n"@)) == Some(mode),
{
    let text = first + second + "qemu = "@ + mode.name() + "\n"@;
    let line = "qemu = "@ + mode.name();
    let none = Seq::<char>::empty();
    lemma_setting_sets(mode);
    reveal_strlit("\n");
    assert("\n"@ =~= seq!['\n']);
    let third = line.push('\n') + none;
    let a = first.drop_last();
    let b = second.drop_last();
    assert(text =~= a.push('\n') + (b.push('\n') + third));
    crate::text::lemma_lines_of_line(a, b.push('\n') + third);
    crate::text::lemma_lines_of_line(b, third);
    crate::text::lemma_lines_of_line(line, none);
    let all = crate::text::lines(text);
    let x = crate::text::without_return(a);
    let y = crate::text::without_return(b);
    lemma_comment_sets_nothing(x);
    lemma_comment_sets_nothing(y);
    assert(all =~= seq![x, y, line]);
    assert(all.drop_first() =~= seq![y, line]);
    assert(all.drop_first().drop_first() =~= seq![line]);
    reveal_with_fuel(first_setting, 4);
}

/// A choice that was saved, in either language, is read back.
pub proof fn saved_choice_is_read_back(lang: Lang, mode: QemuMode)
    ensures
        saved_mode(Some(lang.user_config_content_text(mode.name()))) == Some(mode),
{
    match lang {
        Lang::ZhCn => {
            reveal_strlit("# aosc-exec-guard 用户设置（“不再询问”时写入）\n");
            reveal_strlit("# qemu: ask=每次询问（默认）/ always=总是用仿真器运行 / never=从不运行\n");
            lemma_file_sets("# aosc-exec-guard 用户设置（“不再询问”时写入）\n"@, "# qemu: ask=每次询问（默认）/ always=总是用仿真器运行 / never=从不运行\n"@, mode);
        },
        Lang::En => {
            reveal_strlit("# aosc-exec-guard user settings (written when \"don't ask again\" was chosen)\n");
            reveal_strlit("# qemu: ask=ask every time (default) / always=always run via the emulator / never=never run\n");
            lemma_file_sets("# aosc-exec-guard user settings (written when \"don't ask again\" was chosen)\n"@, "# qemu: ask=ask every time (default) / always=always run via the emulator / never=never run\n"@, mode);
        },
    }
}

/// A choice that was saved decides from then on, where neither the command
/// line nor the environment says otherwise and settings count.
pub proof fn saved_choice_decides(
    lang: Lang,
    mode: QemuMode,
    env: Option<Seq<char>>,
    system: Option<Seq<char>>,
)
    requires
        env is None || mode_of(env->0) is None,
    ensures
        resolved(
            None,
            env,
            false,
            Some(lang.user_config_content_text(mode.name())),
            system,
        ) == mode,
{
    saved_choice_is_read_back(lang, mode);
}

/// What is said outright counts everywhere: the command line before all else,
/// and then the environment, whatever the settings and wherever we are.
pub proof fn explicit_choice_counts(
    cmdline: Option<QemuMode>,
    env: Option<Seq<char>>,
    isolated: bool,
    user: Option<Seq<char>>,
    system: Option<Seq<char>>,
)
    ensures
        cmdline is Some ==> resolved(cmdline, env, isolated, user, system) == cmdline->0,
        cmdline is None && env is Some && mode_of(env->0) is Some ==> resolved(
            cmdline,
            env,
            isolated,
            user,
            system,
        ) == mode_of(env->0)->0,
{
}

/// In a chroot, or without sight of the registry, no settings file matters.
pub proof fn settings_do_not_count_in_isolation(
    cmdline: Option<QemuMode>,
    env: Option<Seq<char>>,
    user: Option<Seq<char>>,
    system: Option<Seq<char>>,
)
    ensures
        resolved(cmdline, env, true, user, system) == resolved(cmdline, env, true, None, None),
{
}

} // verus!
