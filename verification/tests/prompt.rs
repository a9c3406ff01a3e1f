use aosc_exec_guard::elf::{ElfClass, ElfInfo, Endian};
use aosc_exec_guard::i18n::Lang;
use aosc_exec_guard::platform::DisplayMode;
use aosc_exec_guard::prompt::{
    ask_args, ask_outcome, ask_run_via_qemu, can_ask_terminal, dialog_chain, dialog_text, dialog_tools,
    escape_markup, kde_session, kdialog_args, kirigami_args, kirigami_outcome, menu_items,
    menu_outcome, qemu_question, qml_file, qml_runtime, session_variables, show_dialog, tool_outcome, was_shown,
    zenity_args,
    AskOutcome, AskStep, DialogTool, QmlProbe, QmlStep, MENU_DEFAULT,
};

#[test]
fn dialog_answers_are_parsed_from_exit_code_and_output() {
    let run = ask_outcome(Lang::ZhCn, Some(0), "不再询问\n").unwrap();
    assert!(run.run && run.remember);
    let run = ask_outcome(Lang::ZhCn, Some(0), "1\n").unwrap();
    assert!(run.run && run.remember);
    let run = ask_outcome(Lang::ZhCn, Some(0), "").unwrap();
    assert!(run.run && !run.remember);
    let run = ask_outcome(Lang::En, Some(0), "Don't ask again\n").unwrap();
    assert!(run.run && run.remember);
    let declined = ask_outcome(Lang::ZhCn, Some(1), "").unwrap();
    assert!(!declined.run && !declined.remember);
    assert!(ask_outcome(Lang::ZhCn, Some(255), "").is_none());
    assert!(ask_outcome(Lang::ZhCn, None, "1\n").is_none());
}

#[test]
fn markup_is_escaped_for_zenity() {
    assert_eq!(escape_markup("a < b & c > d"), "a &lt; b &amp; c &gt; d");
}

#[test]
fn escaping_is_not_applied_twice_or_lost() {
    assert_eq!(escape_markup("&lt;"), "&amp;lt;");
    assert_eq!(escape_markup("“中”"), "“中”");
    assert_eq!(escape_markup(""), "");
    assert!(!escape_markup("<b>&</b>").contains(|c| c == '<' || c == '>'));
}

#[test]
fn tools_follow_the_session_and_the_pin() {
    assert_eq!(dialog_tools(None, true), [DialogTool::Kirigami, DialogTool::Kdialog, DialogTool::Zenity]);
    assert_eq!(dialog_tools(None, false), [DialogTool::Zenity, DialogTool::Kdialog]);
    assert_eq!(dialog_tools(Some("qml"), false), [DialogTool::Kirigami]);
    assert_eq!(dialog_tools(Some("kirigami"), false), [DialogTool::Kirigami]);
    assert_eq!(dialog_tools(Some("kdialog"), true), [DialogTool::Kdialog]);
    assert_eq!(dialog_tools(Some("zenity"), true), [DialogTool::Zenity]);
    assert_eq!(dialog_tools(Some("xmessage"), false), [DialogTool::Zenity, DialogTool::Kdialog]);
    assert_eq!(dialog_chain(&dialog_tools(None, true)), "qml,kdialog,zenity");
    assert_eq!(dialog_chain(&vec![DialogTool::Zenity]), "zenity");
    assert_eq!(dialog_chain(&vec![]), "");
}

#[test]
fn kde_sessions_are_told_by_their_variables() {
    let set = |v: &[&str]| -> Vec<String> { v.iter().map(|s| s.to_string()).collect() };
    assert!(kde_session(&set(&["GNOME", "X:KDE"])));
    assert!(kde_session(&set(&["/usr/share/xsessions/Plasmawayland"])));
    assert!(!kde_session(&set(&["GNOME", "true", ""])));
    assert!(!kde_session(&set(&[])));
    assert_eq!(
        session_variables(),
        ["XDG_CURRENT_DESKTOP", "XDG_SESSION_DESKTOP", "DESKTOP_SESSION", "KDE_FULL_SESSION"]
    );
}

#[test]
fn ways_of_asking_are_tried_in_turn() {
    let tools = vec![DialogTool::Zenity, DialogTool::Kdialog];
    let yes = AskOutcome { run: true, remember: false };
    let dialog = |answers: Vec<Option<AskOutcome>>| {
        ask_run_via_qemu(DisplayMode::Dialog, &tools, &answers)
    };
    assert_eq!(dialog(vec![]), AskStep::Dialog(DialogTool::Zenity));
    assert_eq!(dialog(vec![None]), AskStep::Dialog(DialogTool::Kdialog));
    assert_eq!(dialog(vec![None, None]), AskStep::Terminal);
    assert_eq!(dialog(vec![None, None, None]), AskStep::Done(None));
    assert_eq!(dialog(vec![None, Some(yes)]), AskStep::Done(Some(yes)));
    let text = |answers: Vec<Option<AskOutcome>>| {
        ask_run_via_qemu(DisplayMode::Text, &tools, &answers)
    };
    assert_eq!(text(vec![]), AskStep::Terminal);
    assert_eq!(text(vec![None]), AskStep::Done(None));
    assert_eq!(text(vec![Some(yes)]), AskStep::Done(Some(yes)));
}

#[test]
fn own_dialog_answers_by_its_exit_status() {
    let outcome = |run, remember| Some(AskOutcome { run, remember });
    assert_eq!(kirigami_outcome(Some(10)), outcome(true, false));
    assert_eq!(kirigami_outcome(Some(12)), outcome(true, true));
    assert_eq!(kirigami_outcome(Some(11)), outcome(false, false));
    for code in [Some(0), Some(1), Some(2), None] {
        assert_eq!(kirigami_outcome(code), None);
    }
}

#[test]
fn dialogs_are_worded_and_called() {
    let info = ElfInfo { class: ElfClass::Bits64, endian: Endian::Little, machine: 0xf3 };
    assert_eq!(
        qemu_question(Lang::ZhCn, "/a<b", &info, "x86_64"),
        "“/a<b”不能在本机直接运行：该程序是为 RISC-V构建的 64 位程序，而本机是 x86_64。"
    );
    let text = dialog_text(Lang::En, "qemu-riscv64", "/a<b", &info, "x86_64");
    let question = "\"/a<b\" cannot run on this machine directly: a 64-bit program built for \
                    RISC-V, but this machine is x86_64.\n\nRun with qemu-riscv64?";
    assert_eq!(text.question, question);
    assert_eq!(
        kirigami_args(&text),
        [
            "--", "--title", "Cannot run this program", "--text", question, "--checkbox",
            "Don't ask again", "--ok", "Run", "--cancel", "Don't run",
        ]
    );
    let zenity = zenity_args(&text);
    assert_eq!(zenity.len(), 12);
    assert_eq!(zenity[3], "--title=Cannot run this program");
    assert_eq!(zenity[5], "--column=Don't ask again");
    assert_eq!(zenity[7], "--ok-label=Run");
    assert!(zenity[9].starts_with("--text=\"/a&lt;b\""));
    assert_eq!(zenity[10..], ["FALSE", "Don't ask again"]);
    assert_eq!(
        kdialog_args(&text),
        [
            "--title=Cannot run this program", "--ok-label=Run", "--cancel-label=Don't run",
            "--checklist", question, "1", "Don't ask again", "off",
        ]
    );
}

#[test]
fn a_qt6_runtime_is_looked_for() {
    let probe = |is_file, version: Option<&str>| QmlProbe {
        is_file,
        version: version.map(str::to_string),
    };
    let step = |probes: Vec<QmlProbe>| qml_runtime(None, &probes);
    assert!(matches!(step(vec![]), QmlStep::Probe("/usr/lib/qt6/bin/qml")));
    assert!(matches!(step(vec![probe(false, None)]), QmlStep::Probe("/usr/bin/qml6")));
    let old = || probe(true, Some("Qml Runtime 5.15.2\n"));
    assert!(matches!(step(vec![old(), old()]), QmlStep::Probe("/usr/bin/qml")));
    assert!(matches!(step(vec![old(), old(), old()]), QmlStep::Missing));
    match step(vec![old(), probe(true, Some("Qml Runtime 6.7.2\n"))]) {
        QmlStep::Use(path) => assert_eq!(path, b"/usr/bin/qml6"),
        other => panic!("{other:?}"),
    }
    match qml_runtime(Some(b"/my/qml".to_vec()), &vec![]) {
        QmlStep::Use(path) => assert_eq!(path, b"/my/qml"),
        other => panic!("{other:?}"),
    }
    assert_eq!(qml_file(None), b"/usr/share/aosc-exec-guard/dialog.qml");
    assert_eq!(qml_file(Some(b"/d.qml".to_vec())), b"/d.qml");
}

#[test]
fn the_menu_runs_once_declines_or_always_runs() {
    assert_eq!(menu_items(Lang::En), ["Run (once)", "Don't run (once)", "Always run (don't ask again)"]);
    assert_eq!(menu_outcome(Some(0)), AskOutcome { run: true, remember: false });
    assert_eq!(menu_outcome(Some(MENU_DEFAULT)), AskOutcome { run: false, remember: false });
    assert_eq!(menu_outcome(Some(2)), AskOutcome { run: true, remember: true });
    assert_eq!(menu_outcome(None), AskOutcome { run: false, remember: false });
    assert!(can_ask_terminal(true, true));
    assert!(!can_ask_terminal(true, false));
    assert!(!can_ask_terminal(false, true));
}

fn box_tools(tools: &Vec<DialogTool>) -> Vec<DialogTool> {
    (0..)
        .map_while(|failures| show_dialog("T", "a & b", tools, failures))
        .map(|dialog| dialog.tool)
        .collect()
}

#[test]
fn messages_are_shown_by_the_tools_of_the_session() {
    let kde = dialog_tools(None, true);
    assert_eq!(
        box_tools(&kde),
        [DialogTool::Kirigami, DialogTool::Kdialog, DialogTool::Zenity]
    );
    let other = dialog_tools(None, false);
    assert_eq!(box_tools(&other), [DialogTool::Zenity, DialogTool::Kdialog]);
    for (pin, tool) in [
        ("qml", DialogTool::Kirigami),
        ("kdialog", DialogTool::Kdialog),
        ("zenity", DialogTool::Zenity),
    ] {
        for kde in [true, false] {
            assert_eq!(box_tools(&dialog_tools(Some(pin), kde)), [tool]);
        }
    }
    assert!(show_dialog("T", "a & b", &vec![], 0).is_none());

    let own = show_dialog("T", "a & b", &kde, 0).unwrap();
    assert_eq!(own.args, ["--", "--title", "T", "--text", "a & b"]);
    let kdialog = show_dialog("T", "a & b", &kde, 1).unwrap();
    assert_eq!(kdialog.tool.name(), "kdialog");
    assert_eq!(kdialog.args, ["--title", "T", "--error", "a & b"]);
    let zenity = show_dialog("T", "a & b", &kde, 2).unwrap();
    assert_eq!(zenity.tool.name(), "zenity");
    assert_eq!(zenity.args, ["--error", "--no-wrap", "--title=T", "--text=a &amp; b"]);
}

#[test]
fn our_own_dialog_was_shown_only_where_it_says_so() {
    for code in [Some(10), Some(11), Some(12)] {
        assert!(was_shown(DialogTool::Kirigami, code));
    }
    for code in [Some(0), Some(1), Some(2), None] {
        assert!(!was_shown(DialogTool::Kirigami, code));
        assert!(was_shown(DialogTool::Kdialog, code));
        assert!(was_shown(DialogTool::Zenity, code));
    }
}

#[test]
fn refusals_are_never_kept() {
    let kept_only_to_run = |answer: AskOutcome| assert!(answer.run || !answer.remember);
    for code in (-1..20).map(Some).chain([None]) {
        if let Some(answer) = kirigami_outcome(code) {
            kept_only_to_run(answer);
        }
        for printed in ["", "1", "Don't ask again"] {
            if let Some(answer) = ask_outcome(Lang::En, code, printed) {
                kept_only_to_run(answer);
            }
        }
    }
    for choice in [None, Some(0), Some(1), Some(2), Some(3)] {
        kept_only_to_run(menu_outcome(choice));
    }
}

#[test]
fn each_tool_is_asked_and_read_in_its_own_way() {
    let info = ElfInfo { class: ElfClass::Bits64, endian: Endian::Little, machine: 0xf3 };
    let text = dialog_text(Lang::En, "qemu-riscv64", "/a", &info, "x86_64");
    assert_eq!(ask_args(DialogTool::Kirigami, &text), kirigami_args(&text));
    assert_eq!(ask_args(DialogTool::Kdialog, &text), kdialog_args(&text));
    assert_eq!(ask_args(DialogTool::Zenity, &text), zenity_args(&text));

    let outcome = |run, remember| Some(AskOutcome { run, remember });
    let own = |code, printed| tool_outcome(Lang::En, DialogTool::Kirigami, code, printed);
    assert_eq!(own(Some(10), "1"), outcome(true, false));
    assert_eq!(own(Some(12), ""), outcome(true, true));
    assert_eq!(own(Some(11), ""), outcome(false, false));
    assert_eq!(own(Some(0), "1"), None);
    for tool in [DialogTool::Kdialog, DialogTool::Zenity] {
        let other = |code, printed| tool_outcome(Lang::En, tool, code, printed);
        assert_eq!(other(Some(0), "1"), outcome(true, true));
        assert_eq!(other(Some(0), "Don't ask again\n"), outcome(true, true));
        assert_eq!(other(Some(0), ""), outcome(true, false));
        assert_eq!(other(Some(1), "1"), outcome(false, false));
        assert_eq!(other(Some(10), ""), None);
        assert_eq!(other(None, "1"), None);
    }
}
