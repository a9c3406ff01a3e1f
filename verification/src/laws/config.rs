//! Of settings.

use vstd::prelude::*;

use crate::config::QemuMode;

verus! {

/// The names of the modes.
pub proof fn modes_have_their_names(mode: QemuMode)
    ensures
        mode == QemuMode::Ask ==> mode.name() == "ask"@,
        mode == QemuMode::Always ==> mode.name() == "always"@,
        mode == QemuMode::Never ==> mode.name() == "never"@,
{
}

/// A mode is read from its name, with blanks around it or without, and from
/// nothing else.
pub proof fn modes_are_read_by_name(a: Seq<char>, word: Seq<char>, b: Seq<char>, mode: QemuMode)
    requires
        crate::laws::text::is_blank(a),
        crate::laws::text::is_tight(word),
        crate::laws::text::is_blank(b),
    ensures
        crate::config::mode_of(a + word + b) == Some(mode) <==> word == mode.name(),
{
    crate::laws::text::trimming_takes_the_ends_off(a, word, b);
    reveal_strlit("ask");
    reveal_strlit("always");
    reveal_strlit("never");
    assert("ask"@.len() == 3 && "always"@.len() == 6 && "never"@.len() == 5);
}

/// What is in the middle is blank, or has a tight core.
proof fn lemma_core(s: Seq<char>)
    ensures
        ({
            let m = crate::text::trimmed(s);
            exists|a: Seq<char>, b: Seq<char>|
                crate::laws::text::is_blank(a) && crate::laws::text::is_blank(b)
                    && crate::laws::text::is_tight(m) && s == #[trigger] (a + m + b)
        }),
    decreases s.len(),
{
    let none = Seq::<char>::empty();
    if s.len() == 0 {
        assert(crate::text::trimmed(s) =~= none);
        assert(s =~= none + crate::text::trimmed(s) + none);
    } else if crate::text::white_space(s[0]) {
        let rest = s.drop_first();
        lemma_core(rest);
        let m = crate::text::trimmed(rest);
        assert(crate::text::trimmed(s) == m);
        let (a, b) = choose|a: Seq<char>, b: Seq<char>|
            crate::laws::text::is_blank(a) && crate::laws::text::is_blank(b)
                && crate::laws::text::is_tight(m) && rest == #[trigger] (a + m + b);
        let more = seq![s[0]] + a;
        assert(crate::laws::text::is_blank(more)) by {
            assert forall|i: int| 0 <= i < more.len() implies crate::text::white_space(
                #[trigger] more[i],
            ) by {
                if i > 0 {
                    assert(more[i] == a[i - 1]);
                }
            }
        }
        assert(s =~= seq![s[0]] + rest);
        assert(rest == a + m + b);
        assert(seq![s[0]] + (a + m + b) =~= more + m + b);
    } else if crate::text::white_space(s.last()) {
        let rest = s.drop_last();
        lemma_core(rest);
        assert(rest[0] == s[0]);
        assert(crate::text::trimmed_start(rest) == rest);
        let m = crate::text::trimmed(rest);
        assert(crate::text::trimmed(s) == m);
        let (a, b) = choose|a: Seq<char>, b: Seq<char>|
            crate::laws::text::is_blank(a) && crate::laws::text::is_blank(b)
                && crate::laws::text::is_tight(m) && rest == #[trigger] (a + m + b);
        let more = b.push(s.last());
        assert(crate::laws::text::is_blank(more)) by {
            assert forall|i: int| 0 <= i < more.len() implies crate::text::white_space(
                #[trigger] more[i],
            ) by {
                if i < b.len() {
                    assert(more[i] == b[i]);
                }
            }
        }
        assert(s =~= rest.push(s.last()));
        assert(rest == a + m + b);
        assert((a + m + b).push(s.last()) =~= a + m + more);
    } else {
        crate::text::lemma_trimmed_tight(s);
        assert(s =~= none + s + none);
    }
}

/// A line sets a mode where the key before its first `=` is `qemu` and what
/// follows, up to a comment, names the mode; blanks around either, and whatever
/// the comment says, do not matter.
pub proof fn lines_set_by_key_and_value(
    a: Seq<char>,
    key: Seq<char>,
    b: Seq<char>,
    c: Seq<char>,
    value: Seq<char>,
    d: Seq<char>,
    comment: Seq<char>,
)
    requires
        crate::laws::text::is_blank(a),
        crate::laws::text::is_blank(b),
        crate::laws::text::is_blank(c),
        crate::laws::text::is_blank(d),
        crate::laws::text::is_tight(key),
        crate::laws::text::is_tight(value),
        key.len() > 0,
        value.len() > 0,
        crate::laws::text::is_free_of(key, '='),
        crate::laws::text::is_free_of(key, '#'),
        crate::laws::text::is_free_of(value, '#'),
    ensures
        ({
            let line = a + (key + b).push('=') + (c + value) + d;
            let set = if key == "qemu"@ {
                crate::config::mode_of(value)
            } else {
                None
            };
            &&& crate::config::line_setting(line) == set
            &&& crate::config::line_setting(line.push('#') + comment) == set
        }),
{
    let none = Seq::<char>::empty();
    let core = (key + b).push('=') + (c + value);
    let line = a + (key + b).push('=') + (c + value) + d;
    assert(line =~= a + core + d);
    assert(core[0] == key[0]);
    assert(core.last() == value.last());
    crate::laws::text::trimming_takes_the_ends_off(a, core, d);
    lemma_blank_is_free(a);
    lemma_blank_is_free(b);
    lemma_blank_is_free(c);
    lemma_blank_is_free(d);
    assert(crate::laws::text::is_free_of(line, '#')) by {
        assert forall|i: int| 0 <= i < line.len() implies #[trigger] line[i] != '#' by {
            let n = a.len() as int;
            let m = key.len() as int;
            let k = b.len() as int;
            if i < n {
                assert(line[i] == a[i]);
            } else if i < n + m {
                assert(line[i] == key[i - n]);
            } else if i < n + m + k {
                assert(line[i] == b[i - n - m]);
            } else if i == n + m + k {
                assert(line[i] == '=');
            } else if i < n + m + k + 1 + c.len() {
                assert(line[i] == c[i - n - m - k - 1]);
            } else if i < n + m + k + 1 + c.len() + value.len() {
                assert(line[i] == value[i - n - m - k - 1 - c.len()]);
            } else {
                assert(line[i] == d[i - n - m - k - 1 - c.len() - value.len()]);
            }
        }
    }
    crate::laws::text::text_is_cut_at_the_first(line, '#', comment);
    let left = key + b;
    assert(crate::laws::text::is_free_of(left, '=')) by {
        assert forall|i: int| 0 <= i < left.len() implies #[trigger] left[i] != '=' by {
            if i < key.len() {
                assert(left[i] == key[i]);
            } else {
                assert(left[i] == b[i - key.len()]);
            }
        }
    }
    crate::laws::text::text_is_cut_at_the_first(left, '=', c + value);
    assert(none + key + b =~= left);
    crate::laws::text::trimming_takes_the_ends_off(none, key, b);
    assert(c + value + none =~= c + value);
    crate::laws::text::trimming_takes_the_ends_off(c, value, none);
    assert(none + value + none =~= value);
    crate::laws::text::trimming_takes_the_ends_off(none, value, none);
}

/// White space is neither `=` nor `#`.
proof fn lemma_blank_is_free(s: Seq<char>)
    requires
        crate::laws::text::is_blank(s),
    ensures
        crate::laws::text::is_free_of(s, '='),
        crate::laws::text::is_free_of(s, '#'),
{
    assert forall|i: int| 0 <= i < s.len() implies #[trigger] s[i] != '=' && s[i] != '#' by {
        assert(crate::text::white_space(s[i]));
    }
}

/// A line without `=` sets nothing.
pub proof fn lines_without_a_value_set_nothing(line: Seq<char>)
    requires
        crate::laws::text::is_free_of(line, '='),
    ensures
        crate::config::line_setting(line) is None,
{
    let said = crate::text::before(line, '#');
    crate::text::lemma_position(line, '#');
    let l = crate::text::trimmed(said);
    lemma_core(said);
    let (a, b) = choose|a: Seq<char>, b: Seq<char>|
        crate::laws::text::is_blank(a) && crate::laws::text::is_blank(b)
            && crate::laws::text::is_tight(l) && said == #[trigger] (a + l + b);
    assert forall|i: int| 0 <= i < l.len() implies #[trigger] l[i] != '=' by {
        assert(said[a.len() + i] == l[i]);
        assert(line[a.len() + i] == l[i]);
    }
    crate::text::lemma_position_is(l, '=', l.len() as int);
}

/// Of the lines that set a mode, the first counts.
pub proof fn the_first_setting_counts(lines: Seq<Seq<char>>, i: int)
    requires
        0 <= i <= lines.len(),
        forall|k: int| 0 <= k < i ==> crate::config::line_setting(#[trigger] lines[k]) is None,
        i < lines.len() ==> crate::config::line_setting(lines[i]) is Some,
    ensures
        i < lines.len() ==> crate::config::first_setting(lines) == crate::config::line_setting(
            lines[i],
        ),
        i == lines.len() ==> crate::config::first_setting(lines) is None,
    decreases lines.len(),
{
    if i > 0 {
        let rest = lines.drop_first();
        assert(crate::config::line_setting(lines[0]) is None);
        assert forall|k: int| 0 <= k < i - 1 implies crate::config::line_setting(
            #[trigger] rest[k],
        ) is None by {
            assert(rest[k] == lines[k + 1]);
        }
        the_first_setting_counts(rest, i - 1);
    }
}

/// The text of a settings file is read line by line; without a file nothing is set.
pub proof fn settings_are_read_by_line(text: Seq<char>)
    ensures
        crate::config::saved_mode(Some(text)) == crate::config::first_setting(
            crate::text::lines(text),
        ),
        crate::config::saved_mode(None) is None,
{
}

/// Each source of a mode gives way to those before it and to no other: the
/// command line, the environment, then, where settings count, the user's and
/// the system's. Where nothing is said, the user is asked on the host, and the
/// emulator gets the program elsewhere.
pub proof fn sources_come_in_order(
    mode: QemuMode,
    env: Option<Seq<char>>,
    isolated: bool,
    user: Option<Seq<char>>,
    system: Option<Seq<char>>,
)
    ensures
        crate::config::resolved(Some(mode), env, isolated, user, system) == mode,
        env is Some && crate::config::mode_of(env->0) == Some(mode) ==> crate::config::resolved(
            None,
            env,
            isolated,
            user,
            system,
        ) == mode,
        (env is None || crate::config::mode_of(env->0) is None) ==> {
            &&& crate::config::resolved(None, env, true, user, system) == QemuMode::Always
            &&& crate::config::saved_mode(user) == Some(mode) ==> crate::config::resolved(
                None,
                env,
                false,
                user,
                system,
            ) == mode
            &&& crate::config::saved_mode(user) is None && crate::config::saved_mode(system)
                == Some(mode) ==> crate::config::resolved(None, env, false, user, system) == mode
            &&& crate::config::saved_mode(user) is None && crate::config::saved_mode(
                system,
            ) is None ==> crate::config::resolved(None, env, false, user, system) == QemuMode::Ask
        },
{
}

/// Settings count on the host with the registry in sight, and nowhere else.
pub proof fn settings_count_on_the_host_alone(chroot: bool, visible: bool)
    ensures
        crate::config::settings_count(false, true),
        !crate::config::settings_count(true, visible),
        !crate::config::settings_count(chroot, false),
{
}

/// Whatever the directory, the settings file has its name in it.
pub proof fn settings_have_their_name(dir: Seq<u8>, home: Option<Seq<u8>>)
    requires
        dir.len() > 0,
    ensures
        crate::config::config_file(Some(dir), home) == Some(
            crate::paths::joined(dir, crate::paths::bytes("aosc-exec-guard.conf"@)),
        ),
        crate::config::config_file(None, Some(dir)) == Some(
            crate::paths::joined(
                crate::paths::joined(dir, crate::paths::bytes(".config"@)),
                crate::paths::bytes("aosc-exec-guard.conf"@),
            ),
        ),
{
}

/// Settings go to the configuration directory that is named by something, else
/// to `.config` at home, and nowhere where there is no home.
pub proof fn settings_have_their_place(
    xdg: Option<Seq<u8>>,
    home: Option<Seq<u8>>,
    dir: Seq<u8>,
)
    requires
        dir.len() > 0,
        dir.last() != 0x2f,
    ensures
        crate::config::config_file(Some(dir), home) == Some(
            dir + seq![0x2fu8] + crate::paths::bytes("aosc-exec-guard.conf"@),
        ),
        xdg is None || xdg->0.len() == 0 ==> crate::config::config_file(xdg, Some(dir)) == Some(
            dir + seq![0x2fu8] + crate::paths::bytes(".config"@) + seq![0x2fu8]
                + crate::paths::bytes("aosc-exec-guard.conf"@),
        ),
        xdg is None || xdg->0.len() == 0 ==> crate::config::config_file(xdg, None) is None,
        crate::config::config_file(xdg, home) is None <==> (xdg is None || xdg->0.len() == 0)
            && home is None,
{
    reveal_strlit("aosc-exec-guard.conf");
    reveal_strlit(".config");
    crate::paths::lemma_ascii_bytes("aosc-exec-guard.conf"@);
    crate::paths::lemma_ascii_bytes(".config"@);
    let name = crate::paths::bytes("aosc-exec-guard.conf"@);
    let sub = crate::paths::bytes(".config"@);
    assert(name[0] == "aosc-exec-guard.conf"@[0] as u8);
    assert(sub[0] == ".config"@[0] as u8);
    assert(sub[6] == ".config"@[6] as u8);
    crate::laws::text::paths_are_joined_by_a_slash(dir, name);
    crate::laws::text::paths_are_joined_by_a_slash(dir, sub);
    let base = crate::paths::joined(dir, sub);
    assert(base.last() == sub[6]);
    crate::laws::text::paths_are_joined_by_a_slash(base, name);
}

} // verus!
