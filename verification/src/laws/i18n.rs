//! Of what is said, and in which language.

use vstd::prelude::*;

use crate::i18n::Lang;

verus! {

/// The first variable that is set decides, whatever the ones behind it say and
/// even where it is set to nothing; with none set it is Chinese.
pub proof fn first_variable_set_decides(
    locale: Seq<char>,
    a: Option<Seq<char>>,
    b: Option<Seq<char>>,
    c: Option<Seq<char>>,
)
    ensures
        crate::i18n::lang_for(Some(locale), a, b, c) == Lang::of_locale(locale),
        crate::i18n::lang_for(None, Some(locale), b, c) == Lang::of_locale(locale),
        crate::i18n::lang_for(None, None, Some(locale), c) == Lang::of_locale(locale),
        crate::i18n::lang_for(None, None, None, Some(locale)) == Lang::of_locale(locale),
        crate::i18n::lang_for(None, None, None, None) == Lang::ZhCn,
{
}

/// A locale is Chinese exactly where it starts with `zh`, in either case.
pub proof fn chinese_locales_start_with_zh(locale: Seq<char>)
    ensures
        Lang::of_locale(locale) == Lang::ZhCn <==> locale.len() >= 2 && (locale[0] == 'z'
            || locale[0] == 'Z') && (locale[1] == 'h' || locale[1] == 'H'),
        Lang::of_locale(locale) != Lang::ZhCn ==> Lang::of_locale(locale) == Lang::En,
{
    reveal_strlit("zh");
    let low = crate::text::lowered(locale);
    if locale.len() >= 2 {
        assert(low.take(2)[0] == low[0] && low.take(2)[1] == low[1]);
        if low[0] == 'z' && low[1] == 'h' {
            assert(low.take(2) =~= "zh"@);
        }
    }
}

/// The words on buttons, boxes and menus, in both languages: what the user
/// picks is what is meant.
pub proof fn labels_say_what_they_do(lang: Lang)
    ensures
        lang == Lang::ZhCn ==> lang.run_label_text() == "运行"@ && lang.decline_label_text()
            == "不运行"@ && lang.dont_ask_again_text() == "不再询问"@ && lang.menu_run_once_text()
            == "运行（这次）"@ && lang.menu_decline_text() == "不运行（这次）"@
            && lang.menu_always_text() == "总是运行（不再询问）"@,
        lang == Lang::En ==> lang.run_label_text() == "Run"@ && lang.decline_label_text()
            == "Don't run"@ && lang.dont_ask_again_text() == "Don't ask again"@
            && lang.menu_run_once_text() == "Run (once)"@ && lang.menu_decline_text()
            == "Don't run (once)"@ && lang.menu_always_text() == "Always run (don't ask again)"@,
{
}

/// Whatever [`crate::i18n::Lang::cannot_start`] is told, it says.
pub proof fn cannot_start_holds(lang: Lang, entry: Seq<char>, err: Seq<char>)
    ensures
        crate::text::has_part(lang.cannot_start_text(entry, err), entry),
        crate::text::has_part(lang.cannot_start_text(entry, err), err),
{
    let all = lang.cannot_start_text(entry, err);
    match lang {
        Lang::ZhCn => {
            lemma_holds(all, "无法启动 "@, entry, "："@ + err);
            lemma_holds(all, "无法启动 "@ + entry + "："@, err, Seq::<char>::empty());
        },
        Lang::En => {
            lemma_holds(all, "cannot start "@, entry, ": "@ + err);
            lemma_holds(all, "cannot start "@ + entry + ": "@, err, Seq::<char>::empty());
        },
    }
}

/// Whatever [`crate::i18n::Lang::cannot_remember`] is told, it says.
pub proof fn cannot_remember_holds(lang: Lang, err: Seq<char>)
    ensures
        crate::text::has_part(lang.cannot_remember_text(err), err),
{
    let all = lang.cannot_remember_text(err);
    match lang {
        Lang::ZhCn => {
            lemma_holds(all, "无法记住“不再询问”的选择："@, err, Seq::<char>::empty());
        },
        Lang::En => {
            lemma_holds(all, "could not remember the \"don't ask again\" choice: "@, err, Seq::<char>::empty());
        },
    }
}

/// Whatever [`crate::i18n::Lang::arch_sentence`] is told, it says.
pub proof fn arch_sentence_holds(lang: Lang, machine: Seq<char>, bits: nat, native: Seq<char>)
    ensures
        crate::text::has_part(lang.arch_sentence_text(machine, bits, native), machine),
        crate::text::has_part(lang.arch_sentence_text(machine, bits, native), crate::text::numeral(bits, 10)),
        crate::text::has_part(lang.arch_sentence_text(machine, bits, native), native),
{
    let all = lang.arch_sentence_text(machine, bits, native);
    match lang {
        Lang::ZhCn => {
            lemma_holds(all, "该程序是为 "@, machine, "构建的 "@ + crate::text::numeral(bits, 10) + " 位程序，而本机是 "@ + native);
            lemma_holds(all, "该程序是为 "@ + machine + "构建的 "@, crate::text::numeral(bits, 10), " 位程序，而本机是 "@ + native);
            lemma_holds(all, "该程序是为 "@ + machine + "构建的 "@ + crate::text::numeral(bits, 10) + " 位程序，而本机是 "@, native, Seq::<char>::empty());
        },
        Lang::En => {
            lemma_holds(all, "a "@ + crate::text::numeral(bits, 10) + "-bit program built for "@, machine, ", but this machine is "@ + native);
            lemma_holds(all, "a "@, crate::text::numeral(bits, 10), "-bit program built for "@ + machine + ", but this machine is "@ + native);
            lemma_holds(all, "a "@ + crate::text::numeral(bits, 10) + "-bit program built for "@ + machine + ", but this machine is "@, native, Seq::<char>::empty());
        },
    }
}

/// Whatever [`crate::i18n::Lang::hint_emulator_installed`] is told, it says.
pub proof fn hint_emulator_installed_holds(lang: Lang, entry: Seq<char>)
    ensures
        crate::text::has_part(lang.hint_emulator_installed_text(entry), entry),
{
    let all = lang.hint_emulator_installed_text(entry);
    match lang {
        Lang::ZhCn => {
            lemma_holds(all, "提示：本机已安装 "@, entry, "，设置 AOSC_EXEC_GUARD_QEMU=always 可让它自动运行（ask=每次询问、never=从不运行）。"@);
        },
        Lang::En => {
            lemma_holds(all, "Hint: "@, entry, " is installed; set AOSC_EXEC_GUARD_QEMU=always to run it automatically (ask=ask every time, never=never run)."@);
        },
    }
}

/// Whatever [`crate::i18n::Lang::cannot_run`] is told, it says.
pub proof fn cannot_run_holds(lang: Lang, path: Seq<char>, why: Seq<char>, hint: Seq<char>)
    ensures
        crate::text::has_part(lang.cannot_run_text(path, why, hint), path),
        crate::text::has_part(lang.cannot_run_text(path, why, hint), why),
        crate::text::has_part(lang.cannot_run_text(path, why, hint), hint),
{
    let all = lang.cannot_run_text(path, why, hint);
    match lang {
        Lang::ZhCn => {
            lemma_holds(all, "无法运行“"@, path, "”："@ + why + "。\n"@ + hint);
            lemma_holds(all, "无法运行“"@ + path + "”："@, why, "。\n"@ + hint);
            lemma_holds(all, "无法运行“"@ + path + "”："@ + why + "。\n"@, hint, Seq::<char>::empty());
        },
        Lang::En => {
            lemma_holds(all, "\""@, path, "\" cannot run: "@ + why + ".\n"@ + hint);
            lemma_holds(all, "\""@ + path + "\" cannot run: "@, why, ".\n"@ + hint);
            lemma_holds(all, "\""@ + path + "\" cannot run: "@ + why + ".\n"@, hint, Seq::<char>::empty());
        },
    }
}

/// Whatever [`crate::i18n::Lang::native_but_rejected`] is told, it says.
pub proof fn native_but_rejected_holds(lang: Lang, path: Seq<char>, machine: Seq<char>)
    ensures
        crate::text::has_part(lang.native_but_rejected_text(path, machine), path),
        crate::text::has_part(lang.native_but_rejected_text(path, machine), machine),
{
    let all = lang.native_but_rejected_text(path, machine);
    match lang {
        Lang::ZhCn => {
            lemma_holds(all, "无法运行“"@, path, "”：程序架构与本机一致（"@ + machine + "），但内核拒绝了它，文件可能已损坏或格式不受支持。"@);
            lemma_holds(all, "无法运行“"@ + path + "”：程序架构与本机一致（"@, machine, "），但内核拒绝了它，文件可能已损坏或格式不受支持。"@);
        },
        Lang::En => {
            lemma_holds(all, "\""@, path, "\" cannot run: it matches this machine ("@ + machine + "), but the kernel rejected it - the file may be corrupted or in an unsupported format."@);
            lemma_holds(all, "\""@ + path + "\" cannot run: it matches this machine ("@, machine, "), but the kernel rejected it - the file may be corrupted or in an unsupported format."@);
        },
    }
}

/// Whatever [`crate::i18n::Lang::cannot_run_notelf`] is told, it says.
pub proof fn cannot_run_notelf_holds(lang: Lang, path: Seq<char>, why: Seq<char>)
    ensures
        crate::text::has_part(lang.cannot_run_notelf_text(path, why), path),
        crate::text::has_part(lang.cannot_run_notelf_text(path, why), why),
{
    let all = lang.cannot_run_notelf_text(path, why);
    match lang {
        Lang::ZhCn => {
            lemma_holds(all, "无法运行“"@, path, "”："@ + why + "。"@);
            lemma_holds(all, "无法运行“"@ + path + "”："@, why, "。"@);
        },
        Lang::En => {
            lemma_holds(all, "\""@, path, "\" cannot run: "@ + why + "."@);
            lemma_holds(all, "\""@ + path + "\" cannot run: "@, why, "."@);
        },
    }
}

/// Whatever [`crate::i18n::Lang::qemu_question`] is told, it says.
pub proof fn qemu_question_holds(lang: Lang, path: Seq<char>, sentence: Seq<char>)
    ensures
        crate::text::has_part(lang.qemu_question_text(path, sentence), path),
        crate::text::has_part(lang.qemu_question_text(path, sentence), sentence),
{
    let all = lang.qemu_question_text(path, sentence);
    match lang {
        Lang::ZhCn => {
            lemma_holds(all, "“"@, path, "”不能在本机直接运行："@ + sentence + "。"@);
            lemma_holds(all, "“"@ + path + "”不能在本机直接运行："@, sentence, "。"@);
        },
        Lang::En => {
            lemma_holds(all, "\""@, path, "\" cannot run on this machine directly: "@ + sentence + "."@);
            lemma_holds(all, "\""@ + path + "\" cannot run on this machine directly: "@, sentence, "."@);
        },
    }
}

/// Whatever [`crate::i18n::Lang::run_with_prompt`] is told, it says.
pub proof fn run_with_prompt_holds(lang: Lang, entry: Seq<char>)
    ensures
        crate::text::has_part(lang.run_with_prompt_text(entry), entry),
{
    let all = lang.run_with_prompt_text(entry);
    match lang {
        Lang::ZhCn => {
            lemma_holds(all, "用 "@, entry, " 运行吗"@);
        },
        Lang::En => {
            lemma_holds(all, "Run with "@, entry, "?"@);
        },
    }
}

/// Whatever [`crate::i18n::Lang::ho_nothing_installed`] is told, it says.
pub proof fn ho_nothing_installed_holds(lang: Lang, conf_name: Seq<char>)
    ensures
        crate::text::has_part(lang.ho_nothing_installed_text(conf_name), conf_name),
{
    let all = lang.ho_nothing_installed_text(conf_name);
    match lang {
        Lang::ZhCn => {
            lemma_holds(all, "没找到 guard 的 binfmt 条目，也没找到配置文件（"@, conf_name, "）：像是没装，无需让位。"@);
        },
        Lang::En => {
            lemma_holds(all, "no guard binfmt entry and no config file ("@, conf_name, ") found: nothing to hand over."@);
        },
    }
}

/// Whatever [`crate::i18n::Lang::ho_already`] is told, it says.
pub proof fn ho_already_holds(lang: Lang, conf_name: Seq<char>, suffix: Seq<char>)
    ensures
        crate::text::has_part(lang.ho_already_text(conf_name, suffix), conf_name),
        crate::text::has_part(lang.ho_already_text(conf_name, suffix), suffix),
{
    let all = lang.ho_already_text(conf_name, suffix);
    match lang {
        Lang::ZhCn => {
            lemma_holds(all, "guard 已经处于让位状态（"@, conf_name, suffix + " 还在）；要恢复用 `--handover=off`。"@);
            lemma_holds(all, "guard 已经处于让位状态（"@ + conf_name, suffix, " 还在）；要恢复用 `--handover=off`。"@);
        },
        Lang::En => {
            lemma_holds(all, "the guard is already handed over ("@, conf_name, suffix + " is still there); use `--handover=off` to restore."@);
            lemma_holds(all, "the guard is already handed over ("@ + conf_name, suffix, " is still there); use `--handover=off` to restore."@);
        },
    }
}

/// Whatever [`crate::i18n::Lang::ho_no_conf_notice`] is told, it says.
pub proof fn ho_no_conf_notice_holds(lang: Lang, conf_name: Seq<char>)
    ensures
        crate::text::has_part(lang.ho_no_conf_notice_text(conf_name), conf_name),
{
    let all = lang.ho_no_conf_notice_text(conf_name);
    match lang {
        Lang::ZhCn => {
            lemma_holds(all, "提醒：没找到配置文件（"@, conf_name, "），只注销当前条目；如果它是别的方式注册的，重启后可能回来。"@);
        },
        Lang::En => {
            lemma_holds(all, "note: no config file ("@, conf_name, ") found; only the current entries are unregistered. If they were registered some other way they may come back after a reboot."@);
        },
    }
}

/// Whatever [`crate::i18n::Lang::ho_disable_failed`] is told, it says.
pub proof fn ho_disable_failed_holds(lang: Lang, path: Seq<char>, err: Seq<char>)
    ensures
        crate::text::has_part(lang.ho_disable_failed_text(path, err), path),
        crate::text::has_part(lang.ho_disable_failed_text(path, err), err),
{
    let all = lang.ho_disable_failed_text(path, err);
    match lang {
        Lang::ZhCn => {
            lemma_holds(all, "停用 "@, path, " 失败（需要 root？）："@ + err);
            lemma_holds(all, "停用 "@ + path + " 失败（需要 root？）："@, err, Seq::<char>::empty());
        },
        Lang::En => {
            lemma_holds(all, "could not disable "@, path, " (root needed?): "@ + err);
            lemma_holds(all, "could not disable "@ + path + " (root needed?): "@, err, Seq::<char>::empty());
        },
    }
}

/// Whatever [`crate::i18n::Lang::ho_disabled`] is told, it says.
pub proof fn ho_disabled_holds(lang: Lang, path: Seq<char>)
    ensures
        crate::text::has_part(lang.ho_disabled_text(path), path),
{
    let all = lang.ho_disabled_text(path);
    match lang {
        Lang::ZhCn => {
            lemma_holds(all, "已停用 "@, path, Seq::<char>::empty());
        },
        Lang::En => {
            lemma_holds(all, "disabled "@, path, Seq::<char>::empty());
        },
    }
}

/// Whatever [`crate::i18n::Lang::ho_unregister_failed`] is told, it says.
pub proof fn ho_unregister_failed_holds(lang: Lang, name: Seq<char>, err: Seq<char>)
    ensures
        crate::text::has_part(lang.ho_unregister_failed_text(name, err), name),
        crate::text::has_part(lang.ho_unregister_failed_text(name, err), err),
{
    let all = lang.ho_unregister_failed_text(name, err);
    match lang {
        Lang::ZhCn => {
            lemma_holds(all, "注销条目 "@, name, " 失败（需要 root？）："@ + err);
            lemma_holds(all, "注销条目 "@ + name + " 失败（需要 root？）："@, err, Seq::<char>::empty());
        },
        Lang::En => {
            lemma_holds(all, "could not unregister entry "@, name, " (root needed?): "@ + err);
            lemma_holds(all, "could not unregister entry "@ + name + " (root needed?): "@, err, Seq::<char>::empty());
        },
    }
}

/// Whatever [`crate::i18n::Lang::ho_unregistered`] is told, it says.
pub proof fn ho_unregistered_holds(lang: Lang, name: Seq<char>)
    ensures
        crate::text::has_part(lang.ho_unregistered_text(name), name),
{
    let all = lang.ho_unregistered_text(name);
    match lang {
        Lang::ZhCn => {
            lemma_holds(all, "已注销条目 "@, name, Seq::<char>::empty());
        },
        Lang::En => {
            lemma_holds(all, "unregistered entry "@, name, Seq::<char>::empty());
        },
    }
}

/// Whatever [`crate::i18n::Lang::ho_residue`] is told, it says.
pub proof fn ho_residue_holds(lang: Lang, list: Seq<char>)
    ensures
        crate::text::has_part(lang.ho_residue_text(list), list),
{
    let all = lang.ho_residue_text(list);
    match lang {
        Lang::ZhCn => {
            lemma_holds(all, "注销之后还有残留条目："@, list, Seq::<char>::empty());
        },
        Lang::En => {
            lemma_holds(all, "entries left behind after unregistering: "@, list, Seq::<char>::empty());
        },
    }
}

/// Whatever [`crate::i18n::Lang::tb_not_handed`] is told, it says.
pub proof fn tb_not_handed_holds(lang: Lang, conf_name: Seq<char>, suffix: Seq<char>)
    ensures
        crate::text::has_part(lang.tb_not_handed_text(conf_name, suffix), conf_name),
        crate::text::has_part(lang.tb_not_handed_text(conf_name, suffix), suffix),
{
    let all = lang.tb_not_handed_text(conf_name, suffix);
    match lang {
        Lang::ZhCn => {
            lemma_holds(all, "没有找到停用的配置文件（"@, conf_name, suffix + "）：当前不在让位状态。"@);
            lemma_holds(all, "没有找到停用的配置文件（"@ + conf_name, suffix, "）：当前不在让位状态。"@);
        },
        Lang::En => {
            lemma_holds(all, "no disabled config file ("@, conf_name, suffix + ") found: not in the handover state."@);
            lemma_holds(all, "no disabled config file ("@ + conf_name, suffix, ") found: not in the handover state."@);
        },
    }
}

/// Whatever [`crate::i18n::Lang::tb_restore_failed`] is told, it says.
pub proof fn tb_restore_failed_holds(lang: Lang, path: Seq<char>, err: Seq<char>)
    ensures
        crate::text::has_part(lang.tb_restore_failed_text(path, err), path),
        crate::text::has_part(lang.tb_restore_failed_text(path, err), err),
{
    let all = lang.tb_restore_failed_text(path, err);
    match lang {
        Lang::ZhCn => {
            lemma_holds(all, "恢复 "@, path, " 失败（需要 root？）："@ + err);
            lemma_holds(all, "恢复 "@ + path + " 失败（需要 root？）："@, err, Seq::<char>::empty());
        },
        Lang::En => {
            lemma_holds(all, "could not restore "@, path, " (root needed?): "@ + err);
            lemma_holds(all, "could not restore "@ + path + " (root needed?): "@, err, Seq::<char>::empty());
        },
    }
}

/// Whatever [`crate::i18n::Lang::tb_restored`] is told, it says.
pub proof fn tb_restored_holds(lang: Lang, path: Seq<char>)
    ensures
        crate::text::has_part(lang.tb_restored_text(path), path),
{
    let all = lang.tb_restored_text(path);
    match lang {
        Lang::ZhCn => {
            lemma_holds(all, "已恢复 "@, path, Seq::<char>::empty());
        },
        Lang::En => {
            lemma_holds(all, "restored "@, path, Seq::<char>::empty());
        },
    }
}

/// Whatever [`crate::i18n::Lang::tb_done`] is told, it says.
pub proof fn tb_done_holds(lang: Lang, count: nat)
    ensures
        crate::text::has_part(lang.tb_done_text(count), crate::text::numeral(count, 10)),
{
    let all = lang.tb_done_text(count);
    match lang {
        Lang::ZhCn => {
            lemma_holds(all, "已恢复：guard 条目回来了（"@, crate::text::numeral(count, 10), " 个）。"@);
        },
        Lang::En => {
            lemma_holds(all, "restored: guard entries are back ("@, crate::text::numeral(count, 10), ")."@);
        },
    }
}

/// Whatever [`crate::i18n::Lang::confirm_failed`] is told, it says.
pub proof fn confirm_failed_holds(lang: Lang, err: Seq<char>)
    ensures
        crate::text::has_part(lang.confirm_failed_text(err), err),
{
    let all = lang.confirm_failed_text(err);
    match lang {
        Lang::ZhCn => {
            lemma_holds(all, "询问失败："@, err, Seq::<char>::empty());
        },
        Lang::En => {
            lemma_holds(all, "prompt failed: "@, err, Seq::<char>::empty());
        },
    }
}

/// Whatever [`crate::i18n::Lang::restart_failed`] is told, it says.
pub proof fn restart_failed_holds(lang: Lang, err: Seq<char>)
    ensures
        crate::text::has_part(lang.restart_failed_text(err), err),
{
    let all = lang.restart_failed_text(err);
    match lang {
        Lang::ZhCn => {
            lemma_holds(all, "没法运行 systemctl（"@, err, "）：请手动 `systemctl restart systemd-binfmt.service`。"@);
        },
        Lang::En => {
            lemma_holds(all, "could not run systemctl ("@, err, "): please restart manually with `systemctl restart systemd-binfmt.service`."@);
        },
    }
}

/// Whatever [`crate::i18n::Lang::user_config_content`] is told, it says.
pub proof fn user_config_content_holds(lang: Lang, value: Seq<char>)
    ensures
        crate::text::has_part(lang.user_config_content_text(value), value),
{
    let all = lang.user_config_content_text(value);
    match lang {
        Lang::ZhCn => {
            lemma_holds(all, "# aosc-exec-guard 用户设置（“不再询问”时写入）\n"@ + "# qemu: ask=每次询问（默认）/ always=总是用仿真器运行 / never=从不运行\n"@ + "qemu = "@, value, "\n"@);
        },
        Lang::En => {
            lemma_holds(all, "# aosc-exec-guard user settings (written when \"don't ask again\" was chosen)\n"@ + "# qemu: ask=ask every time (default) / always=always run via the emulator / never=never run\n"@ + "qemu = "@, value, "\n"@);
        },
    }
}

/// A machine without a name is called by its number in hexadecimal.
pub proof fn unknown_machines_are_numbered(lang: Lang, machine: nat)
    ensures
        crate::text::has_part(
            lang.unknown_machine_text(machine),
            "0x"@ + crate::text::numeral(machine, 16),
        ),
{
    reveal_strlit("0x");
    let all = lang.unknown_machine_text(machine);
    let number = crate::text::numeral(machine, 16);
    match lang {
        Lang::ZhCn => {
            reveal_strlit("未知架构（e_machine=0x");
            let a = "未知架构（e_machine=0x"@.drop_last().drop_last();
            assert("未知架构（e_machine=0x"@ =~= a + "0x"@);
            lemma_holds(all, a, "0x"@ + number, "）"@);
        },
        Lang::En => {
            reveal_strlit("unknown architecture (e_machine=0x");
            let a = "unknown architecture (e_machine=0x"@.drop_last().drop_last();
            assert("unknown architecture (e_machine=0x"@ =~= a + "0x"@);
            lemma_holds(all, a, "0x"@ + number, ")"@);
        },
    }
}

/// Where emulators are out of reach, the way out is named.
#[verifier::spinoff_prover]
pub proof fn hint_isolated_advises(lang: Lang)
    ensures
        crate::text::has_part(lang.hint_isolated_text(), "--handover"@),
{
    reveal_strlit("--handover");
    let all = lang.hint_isolated_text();
    match lang {
        Lang::ZhCn => {
            reveal_strlit("提示：看起来在 chroot / 容器 里（或者看不到 binfmt_misc 注册表）：这里找不到能用的模拟器条目，guard 转不了。如果宿主机装了 qemu-user：到外面（宿主机）上运行 `sudo aosc-exec-guard --handover`，让 guard 退出、由内核的 qemu 条目接管——qemu 条目用 F 直接打开宿主机的解释器，chroot / 容器 里不需要放 qemu。");
            assert(all.subrange(121, 131) =~= "--handover"@);
            assert(crate::text::stands_at(all, "--handover"@, 121));
        },
        Lang::En => {
            reveal_strlit("Hint: this looks like a chroot / container (or the binfmt_misc registry is not visible): there is no usable emulator entry here, so the guard cannot forward. If qemu-user is installed on the host, run `sudo aosc-exec-guard --handover` outside: the guard steps aside and the kernel's qemu entries take over - they use F to open the host interpreter, so no qemu needs to exist inside the chroot / container.");
            assert(all.subrange(223, 233) =~= "--handover"@);
            assert(crate::text::stands_at(all, "--handover"@, 223));
        },
    }
}

/// Where an emulator could be had, one is named.
#[verifier::spinoff_prover]
pub proof fn hint_install_emulator_advises(lang: Lang)
    ensures
        crate::text::has_part(lang.hint_install_emulator_text(), "qemu-user-static"@),
{
    reveal_strlit("qemu-user-static");
    let all = lang.hint_install_emulator_text();
    match lang {
        Lang::ZhCn => {
            reveal_strlit("提示：可以安装对应架构的模拟器（qemu-user-static、box64 等）后重试，或改用 AOSC OS 原生版本。");
            assert(all.subrange(16, 32) =~= "qemu-user-static"@);
            assert(crate::text::stands_at(all, "qemu-user-static"@, 16));
        },
        Lang::En => {
            reveal_strlit("Hint: install an emulator for that architecture (qemu-user-static, box64, ...) and retry, or use the native AOSC OS build.");
            assert(all.subrange(49, 65) =~= "qemu-user-static"@);
            assert(crate::text::stands_at(all, "qemu-user-static"@, 49));
        },
    }
}

/// How to come back is named.
#[verifier::spinoff_prover]
pub proof fn ho_restore_hint_advises(lang: Lang)
    ensures
        crate::text::has_part(lang.ho_restore_hint_text(), "--handover=off"@),
{
    reveal_strlit("--handover=off");
    let all = lang.ho_restore_hint_text();
    match lang {
        Lang::ZhCn => {
            reveal_strlit("恢复：`sudo aosc-exec-guard --handover=off`，或重新运行安装脚本。");
            assert(all.subrange(25, 39) =~= "--handover=off"@);
            assert(crate::text::stands_at(all, "--handover=off"@, 25));
        },
        Lang::En => {
            reveal_strlit("to restore: `sudo aosc-exec-guard --handover=off`, or rerun the installer.");
            assert(all.subrange(34, 48) =~= "--handover=off"@);
            assert(crate::text::stands_at(all, "--handover=off"@, 34));
        },
    }
}

/// How to do without a terminal is named.
#[verifier::spinoff_prover]
pub proof fn confirm_needs_tty_advises(lang: Lang)
    ensures
        crate::text::has_part(lang.confirm_needs_tty_text(), "--yes"@),
{
    reveal_strlit("--yes");
    let all = lang.confirm_needs_tty_text();
    match lang {
        Lang::ZhCn => {
            reveal_strlit("需要确认，但这里没有终端：请加 --yes（或到终端里运行）。");
            assert(all.subrange(16, 21) =~= "--yes"@);
            assert(crate::text::stands_at(all, "--yes"@, 16));
        },
        Lang::En => {
            reveal_strlit("confirmation needed, but there is no terminal here: pass --yes (or run it in a terminal).");
            assert(all.subrange(57, 62) =~= "--yes"@);
            assert(crate::text::stands_at(all, "--yes"@, 57));
        },
    }
}

/// What did not restart is named.
#[verifier::spinoff_prover]
pub proof fn restart_status_failed_advises(lang: Lang)
    ensures
        crate::text::has_part(lang.restart_status_failed_text(), "systemctl restart systemd-binfmt.service"@),
{
    reveal_strlit("systemctl restart systemd-binfmt.service");
    let all = lang.restart_status_failed_text();
    match lang {
        Lang::ZhCn => {
            reveal_strlit("`systemctl restart systemd-binfmt.service` 失败：请手动重启后再看。");
            assert(all.subrange(1, 41) =~= "systemctl restart systemd-binfmt.service"@);
            assert(crate::text::stands_at(all, "systemctl restart systemd-binfmt.service"@, 1));
        },
        Lang::En => {
            reveal_strlit("`systemctl restart systemd-binfmt.service` failed: please restart it manually and check.");
            assert(all.subrange(1, 41) =~= "systemctl restart systemd-binfmt.service"@);
            assert(crate::text::stands_at(all, "systemctl restart systemd-binfmt.service"@, 1));
        },
    }
}

/// What will happen without an emulator is named.
#[verifier::spinoff_prover]
pub proof fn ho_no_qemu_warning_advises(lang: Lang)
    ensures
        crate::text::has_part(lang.ho_no_qemu_warning_text(), "Exec format error"@),
{
    reveal_strlit("Exec format error");
    let all = lang.ho_no_qemu_warning_text();
    match lang {
        Lang::ZhCn => {
            reveal_strlit("警告：注册表里没有已启用的 qemu-* 条目——让位后外架构程序会直接以 `Exec format error` 失败（没人解释，也没人模拟）。");
            assert(all.subrange(39, 56) =~= "Exec format error"@);
            assert(crate::text::stands_at(all, "Exec format error"@, 39));
        },
        Lang::En => {
            reveal_strlit("warning: no enabled qemu-* entry in the registry - after the handover foreign binaries will simply fail with `Exec format error` (nothing explains, nothing emulates).");
            assert(all.subrange(110, 127) =~= "Exec format error"@);
            assert(crate::text::stands_at(all, "Exec format error"@, 110));
        },
    }
}

/// What is missing is named before it is agreed to.
#[verifier::spinoff_prover]
pub proof fn ho_question_no_qemu_advises(lang: Lang)
    ensures
        crate::text::has_part(lang.ho_question_no_qemu_text(), "qemu"@),
{
    reveal_strlit("qemu");
    let all = lang.ho_question_no_qemu_text();
    match lang {
        Lang::ZhCn => {
            reveal_strlit("让 guard 退出（注销它的 binfmt 条目、停用配置文件）？注意：注册表里没有可用的 qemu 条目。");
            assert(all.subrange(47, 51) =~= "qemu"@);
            assert(crate::text::stands_at(all, "qemu"@, 47));
        },
        Lang::En => {
            reveal_strlit("Let the guard step aside (unregister its binfmt entries, disable its config file)? Note: there is no usable qemu entry in the registry.");
            assert(all.subrange(108, 112) =~= "qemu"@);
            assert(crate::text::stands_at(all, "qemu"@, 108));
        },
    }
}

/// A text made of three holds the second.
proof fn lemma_holds(all: Seq<char>, a: Seq<char>, part: Seq<char>, b: Seq<char>)
    requires
        all =~= a + part + b,
    ensures
        crate::text::has_part(all, part),
{
    crate::laws::text::parts_stand_between(a, part, b, all);
}

} // verus!
