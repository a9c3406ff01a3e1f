//! Asking the user: which dialogs to try, what to say in them, and what an
//! answer means; the menu on a terminal; and the dialog that explains.

use vstd::prelude::*;
use vstd::string::*;

use crate::elf::{arch_sentence, ElfInfo};
use crate::i18n::Lang;
use crate::paths::to_bytes;
use crate::platform::DisplayMode;
use crate::text::{chars_of, contains, same_str, to_lower};

verus! {

/// What the user answered.
#[derive(Debug, Clone, Copy, PartialEq, Eq, Structural)]
pub struct AskOutcome {
    /// Run the program.
    pub run: bool,
    /// Do not ask again: the answer is to be kept.
    pub remember: bool,
}

/// A program that shows dialogs.
#[derive(Debug, Clone, Copy, PartialEq, Eq, Structural)]
pub enum DialogTool {
    /// Our own dialog, run by the QML runtime of Qt 6.
    Kirigami,
    /// `kdialog`, of KDE.
    Kdialog,
    /// `zenity`, of GNOME.
    Zenity,
}

impl DialogTool {
    /// What the tool is called.
    pub open spec fn label(self) -> Seq<char> {
        match self {
            DialogTool::Kirigami => "qml"@,
            DialogTool::Kdialog => "kdialog"@,
            DialogTool::Zenity => "zenity"@,
        }
    }

    /// What the tool is called.
    pub fn name(self) -> (r: &'static str)
        ensures
            r@ == self.label(),
    {
        match self {
            DialogTool::Kirigami => "qml",
            DialogTool::Kdialog => "kdialog",
            DialogTool::Zenity => "zenity",
        }
    }
}

/// The next thing to do when asking.
#[derive(Debug, Clone, Copy, PartialEq, Eq, Structural)]
pub enum AskStep {
    /// Ask with this tool.
    Dialog(DialogTool),
    /// Ask on the terminal.
    Terminal,
    /// Stop: this is the answer, or nobody could be asked.
    Done(Option<AskOutcome>),
}

/// The first of `answers` that is one.
pub open spec fn first_answer(answers: Seq<Option<AskOutcome>>) -> Option<AskOutcome>
    decreases answers.len(),
{
    if answers.len() == 0 {
        None
    } else if answers[0] is Some {
        answers[0]
    } else {
        first_answer(answers.drop_first())
    }
}

/// The next thing to do after `answers`: where dialogs are in order, each of
/// the `tools` in turn, then the terminal, until one of them has an answer.
pub open spec fn next_step(
    mode: DisplayMode,
    tools: Seq<DialogTool>,
    answers: Seq<Option<AskOutcome>>,
) -> AskStep {
    let dialogs = if mode == DisplayMode::Dialog {
        tools.len()
    } else {
        0
    };
    if first_answer(answers) is Some {
        AskStep::Done(first_answer(answers))
    } else if answers.len() < dialogs {
        AskStep::Dialog(tools[answers.len() as int])
    } else if answers.len() == dialogs {
        AskStep::Terminal
    } else {
        AskStep::Done(None)
    }
}

/// Asks whether to hand a program to an emulator, one step at a time:
/// `answers` are what came of the steps so far, `None` where a way of asking
/// was not to be had.
pub fn ask_run_via_qemu(
    mode: DisplayMode,
    tools: &Vec<DialogTool>,
    answers: &Vec<Option<AskOutcome>>,
) -> (r: AskStep)
    ensures
        r == next_step(mode, tools@, answers@),
{
    let mut i: usize = 0;
    proof {
        assert(answers@.skip(0) =~= answers@);
    }
    while i < answers.len()
        invariant
            i <= answers@.len(),
            first_answer(answers@) == first_answer(answers@.skip(i as int)),
        decreases answers@.len() - i,
    {
        if let Some(outcome) = answers[i] {
            return AskStep::Done(Some(outcome));
        }
        proof {
            assert(answers@.skip(i as int).drop_first() =~= answers@.skip(i + 1));
        }
        i += 1;
    }
    let dialogs: usize = match mode {
        DisplayMode::Dialog => tools.len(),
        DisplayMode::Text => 0,
    };
    if answers.len() < dialogs {
        AskStep::Dialog(tools[answers.len()])
    } else if answers.len() == dialogs {
        AskStep::Terminal
    } else {
        AskStep::Done(None)
    }
}

/// The tools to try, in order: the pinned one, if a known one is; else, in a
/// KDE session our own dialog first, and elsewhere none that looks like KDE's
/// before its own.
pub open spec fn tools_for(pinned: Option<Seq<char>>, kde: bool) -> Seq<DialogTool> {
    if pinned == Some("qml"@) || pinned == Some("kirigami"@) {
        seq![DialogTool::Kirigami]
    } else if pinned == Some("kdialog"@) {
        seq![DialogTool::Kdialog]
    } else if pinned == Some("zenity"@) {
        seq![DialogTool::Zenity]
    } else if kde {
        seq![DialogTool::Kirigami, DialogTool::Kdialog, DialogTool::Zenity]
    } else {
        seq![DialogTool::Zenity, DialogTool::Kdialog]
    }
}

/// Whether a variable is set to `text`.
fn is_set_to(value: Option<&str>, text: &str) -> (r: bool)
    ensures
        r == (crate::i18n::set_to(value) == Some(text@)),
{
    match value {
        Some(v) => same_str(v, text),
        None => false,
    }
}

/// The tools to try, given what `AOSC_EXEC_GUARD_DIALOG` is set to and whether
/// this is a KDE session.
pub fn dialog_tools(pinned: Option<&str>, kde: bool) -> (r: Vec<DialogTool>)
    ensures
        r@ == tools_for(crate::i18n::set_to(pinned), kde),
{
    let mut r: Vec<DialogTool> = Vec::new();
    if is_set_to(pinned, "qml") || is_set_to(pinned, "kirigami") {
        r.push(DialogTool::Kirigami);
    } else if is_set_to(pinned, "kdialog") {
        r.push(DialogTool::Kdialog);
    } else if is_set_to(pinned, "zenity") {
        r.push(DialogTool::Zenity);
    } else if kde {
        r.push(DialogTool::Kirigami);
        r.push(DialogTool::Kdialog);
        r.push(DialogTool::Zenity);
    } else {
        r.push(DialogTool::Zenity);
        r.push(DialogTool::Kdialog);
    }
    proof {
        assert(r@ =~= tools_for(crate::i18n::set_to(pinned), kde));
    }
    r
}

/// The names of `tools`, with commas between.
pub open spec fn chain(tools: Seq<DialogTool>) -> Seq<char>
    decreases tools.len(),
{
    if tools.len() == 0 {
        Seq::empty()
    } else if tools.len() == 1 {
        tools[0].label()
    } else {
        chain(tools.drop_last()) + ","@ + tools.last().label()
    }
}

/// The names of `tools`, with commas between, for `--debug`.
pub fn dialog_chain(tools: &Vec<DialogTool>) -> (r: String)
    ensures
        r@ == chain(tools@),
{
    let mut r = String::new();
    let mut i: usize = 0;
    while i < tools.len()
        invariant
            i <= tools@.len(),
            r@ == chain(tools@.take(i as int)),
        decreases tools@.len() - i,
    {
        proof {
            assert(tools@.take(i + 1).drop_last() =~= tools@.take(i as int));
        }
        if i > 0 {
            r.append(",");
        }
        r.append(tools[i].name());
        proof {
            assert(r@ =~= chain(tools@.take(i + 1)));
        }
        i += 1;
    }
    proof {
        assert(tools@.take(i as int) =~= tools@);
    }
    r
}

/// The variables that tell a KDE session.
pub open spec fn session_keys() -> Seq<Seq<char>> {
    seq![
        "XDG_CURRENT_DESKTOP"@,
        "XDG_SESSION_DESKTOP"@,
        "DESKTOP_SESSION"@,
        "KDE_FULL_SESSION"@,
    ]
}

/// The variables that tell a KDE session.
pub fn session_variables() -> (r: Vec<&'static str>)
    ensures
        crate::qemu::str_views(r@) == session_keys(),
{
    let mut r: Vec<&'static str> = Vec::new();
    r.push("XDG_CURRENT_DESKTOP");
    r.push("XDG_SESSION_DESKTOP");
    r.push("DESKTOP_SESSION");
    r.push("KDE_FULL_SESSION");
    proof {
        assert(crate::qemu::str_views(r@) =~= session_keys());
    }
    r
}

/// A value that speaks of KDE, in either case.
pub open spec fn speaks_of_kde(value: Seq<char>) -> bool {
    crate::text::has_part(crate::text::lowered(value), "kde"@) || crate::text::has_part(
        crate::text::lowered(value),
        "plasma"@,
    )
}

/// One of `values` speaks of KDE.
pub open spec fn any_speaks_of_kde(values: Seq<Seq<char>>) -> bool {
    exists|i: int| 0 <= i < values.len() && speaks_of_kde(#[trigger] values[i])
}

/// Whether this is a KDE session, given what those of [`session_variables`]
/// that are set are set to.
pub fn kde_session(values: &Vec<String>) -> (r: bool)
    ensures
        r == exists|i: int| 0 <= i < values@.len() && speaks_of_kde(#[trigger] values@[i]@),
        r == any_speaks_of_kde(crate::qemu::string_views(values@)),
{
    let ghost all = crate::qemu::string_views(values@);
    let mut i: usize = 0;
    while i < values.len()
        invariant
            i <= values@.len(),
            all == crate::qemu::string_views(values@),
            forall|j: int| 0 <= j < i ==> !speaks_of_kde(#[trigger] values@[j]@),
            forall|j: int| 0 <= j < i ==> !speaks_of_kde(#[trigger] all[j]),
        decreases values@.len() - i,
    {
        let lower = to_lower(chars_of(values[i].as_str()).as_slice());
        if contains(lower.as_slice(), "kde") || contains(lower.as_slice(), "plasma") {
            proof {
                assert(speaks_of_kde(values@[i as int]@));
                assert(speaks_of_kde(all[i as int]));
            }
            return true;
        }
        i += 1;
    }
    false
}

/// Why the user is being asked.
pub open spec fn question(lang: Lang, target: Seq<char>, info: ElfInfo, native: Seq<char>) -> Seq<
    char,
> {
    lang.qemu_question_text(target, crate::elf::sentence(lang, info, native))
}

/// Why the user is being asked: `target` cannot run on this machine, which is
/// called `native_label`.
pub fn qemu_question(lang: Lang, target: &str, info: &ElfInfo, native_label: &str) -> (r: String)
    ensures
        r@ == question(lang, target@, *info, native_label@),
{
    lang.qemu_question(target, arch_sentence(lang, info, native_label).as_str())
}

/// What a dialog says.
#[derive(Debug)]
pub struct DialogText {
    /// Its title.
    pub title: String,
    /// The question.
    pub question: String,
    /// The button that runs the program.
    pub run: String,
    /// The button that does not.
    pub decline: String,
    /// The check box that keeps the answer.
    pub dont_ask_again: String,
}

/// What the dialog asks: why the user is being asked, and whether to run the
/// program with the emulator.
pub open spec fn asked(
    lang: Lang,
    emulator: Seq<char>,
    target: Seq<char>,
    info: ElfInfo,
    native: Seq<char>,
) -> Seq<char> {
    question(lang, target, info, native) + "\n\n"@ + lang.run_with_prompt_text(emulator)
}

/// What the dialog says that asks whether to run `target` with the emulator
/// called `emulator`.
pub fn dialog_text(
    lang: Lang,
    emulator: &str,
    target: &str,
    info: &ElfInfo,
    native_label: &str,
) -> (r: DialogText)
    ensures
        r.title@ == lang.dialog_title_text(),
        r.question@ == question(lang, target@, *info, native_label@) + "\n\n"@
            + lang.run_with_prompt_text(emulator@),
        r.question@ == asked(lang, emulator@, target@, *info, native_label@),
        r.run@ == lang.run_label_text(),
        r.decline@ == lang.decline_label_text(),
        r.dont_ask_again@ == lang.dont_ask_again_text(),
{
    let mut text = qemu_question(lang, target, info, native_label);
    text.append("\n\n");
    text.append(lang.run_with_prompt(emulator).as_str());
    DialogText {
        title: lang.dialog_title().to_owned(),
        question: text,
        run: lang.run_label().to_owned(),
        decline: lang.decline_label().to_owned(),
        dont_ask_again: lang.dont_ask_again().to_owned(),
    }
}

/// Our own dialog's exit status for "run".
pub const QML_RUN: i32 = 10;

/// Our own dialog's exit status for "do not run".
pub const QML_DECLINE: i32 = 11;

/// Our own dialog's exit status for "run, and do not ask again".
pub const QML_RUN_REMEMBER: i32 = 12;

/// What our own dialog's exit status means. The runtime has statuses of its
/// own, and those are no answer.
pub open spec fn kirigami_answer(code: Option<i32>) -> Option<AskOutcome> {
    if code == Some(QML_RUN) {
        Some(AskOutcome { run: true, remember: false })
    } else if code == Some(QML_RUN_REMEMBER) {
        Some(AskOutcome { run: true, remember: true })
    } else if code == Some(QML_DECLINE) {
        Some(AskOutcome { run: false, remember: false })
    } else {
        None
    }
}

/// What our own dialog's exit status means.
pub fn kirigami_outcome(code: Option<i32>) -> (r: Option<AskOutcome>)
    ensures
        r == kirigami_answer(code),
{
    match code {
        Some(c) => if c == QML_RUN {
            Some(AskOutcome { run: true, remember: false })
        } else if c == QML_RUN_REMEMBER {
            Some(AskOutcome { run: true, remember: true })
        } else if c == QML_DECLINE {
            Some(AskOutcome { run: false, remember: false })
        } else {
            None
        },
        None => None,
    }
}

/// What the exit status of zenity or kdialog means, and what they printed: the
/// box is checked where zenity printed its label or kdialog its number.
pub open spec fn outcome(lang: Lang, code: Option<i32>, printed: Seq<char>) -> Option<AskOutcome> {
    if code == Some(0i32) {
        Some(
            AskOutcome {
                run: true,
                remember: crate::text::has_part(printed, "1"@) || crate::text::has_part(
                    printed,
                    lang.dont_ask_again_text(),
                ),
            },
        )
    } else if code == Some(1i32) {
        Some(AskOutcome { run: false, remember: false })
    } else {
        None
    }
}

/// What the exit status of zenity or kdialog and what they printed mean: 0 is
/// "run", 1 is "do not run", and anything else is no answer.
pub fn ask_outcome(lang: Lang, code: Option<i32>, printed: &str) -> (r: Option<AskOutcome>)
    ensures
        r == outcome(lang, code, printed@),
{
    match code {
        Some(c) => if c == 0 {
            let chars = chars_of(printed);
            Some(
                AskOutcome {
                    run: true,
                    remember: contains(chars.as_slice(), "1") || contains(
                        chars.as_slice(),
                        lang.dont_ask_again(),
                    ),
                },
            )
        } else if c == 1 {
            Some(AskOutcome { run: false, remember: false })
        } else {
            None
        },
        None => None,
    }
}

/// What stands for `c` in markup.
pub open spec fn escape(c: char) -> Seq<char> {
    if c == '&' {
        "&amp;"@
    } else if c == '<' {
        "&lt;"@
    } else if c == '>' {
        "&gt;"@
    } else {
        seq![c]
    }
}

/// What stands for `s` in markup.
pub open spec fn escaped(s: Seq<char>) -> Seq<char>
    decreases s.len(),
{
    if s.len() == 0 {
        Seq::empty()
    } else {
        escaped(s.drop_last()) + escape(s.last())
    }
}

/// Writes text so that a tool that reads markup shows it as it is.
pub fn escape_markup(input: &str) -> (r: String)
    ensures
        r@ == escaped(input@),
{
    let chars = chars_of(input);
    let mut r = String::new();
    let mut i: usize = 0;
    while i < chars.len()
        invariant
            i <= chars@.len(),
            r@ == escaped(chars@.take(i as int)),
        decreases chars@.len() - i,
    {
        let c: char = chars[i];
        let ghost was = r@;
        proof {
            assert(chars@.take(i + 1).drop_last() =~= chars@.take(i as int));
        }
        if c == '&' {
            r.append("&amp;");
        } else if c == '<' {
            r.append("&lt;");
        } else if c == '>' {
            r.append("&gt;");
        } else {
            r.push(c);
            proof {
                assert(r@ =~= was + seq![c]);
            }
        }
        i += 1;
    }
    proof {
        assert(chars@.take(i as int) =~= chars@);
    }
    r
}

/// An option and its value.
fn option(name: &str, value: &str) -> (r: String)
    ensures
        r@ == name@ + value@,
{
    let mut r = name.to_owned();
    r.append(value);
    r
}

/// The arguments of our own dialog, behind its file: what stands behind `--`
/// reaches the dialog as it is.
pub open spec fn kirigami_list(text: DialogText) -> Seq<Seq<char>> {
    seq![
        "--"@,
        "--title"@,
        text.title@,
        "--text"@,
        text.question@,
        "--checkbox"@,
        text.dont_ask_again@,
        "--ok"@,
        text.run@,
        "--cancel"@,
        text.decline@,
    ]
}

/// The arguments of our own dialog, behind its file.
pub fn kirigami_args(text: &DialogText) -> (r: Vec<String>)
    ensures
        crate::qemu::string_views(r@) == kirigami_list(*text),
{
    let mut r: Vec<String> = Vec::new();
    r.push("--".to_owned());
    r.push("--title".to_owned());
    r.push(text.title.clone());
    r.push("--text".to_owned());
    r.push(text.question.clone());
    r.push("--checkbox".to_owned());
    r.push(text.dont_ask_again.clone());
    r.push("--ok".to_owned());
    r.push(text.run.clone());
    r.push("--cancel".to_owned());
    r.push(text.decline.clone());
    proof {
        assert(crate::qemu::string_views(r@) =~= kirigami_list(*text));
    }
    r
}

/// The arguments of zenity. Its question dialog has no check box: a list of
/// one item to check stands in for it.
pub open spec fn zenity_list(text: DialogText) -> Seq<Seq<char>> {
    seq![
        "--list"@,
        "--checklist"@,
        "--hide-header"@,
        "--title="@ + text.title@,
        "--column= "@,
        "--column="@ + text.dont_ask_again@,
        "--print-column=2"@,
        "--ok-label="@ + text.run@,
        "--cancel-label="@ + text.decline@,
        "--text="@ + escaped(text.question@),
        "FALSE"@,
        text.dont_ask_again@,
    ]
}

/// The arguments of zenity, which reads the question as markup.
pub fn zenity_args(text: &DialogText) -> (r: Vec<String>)
    ensures
        crate::qemu::string_views(r@) == zenity_list(*text),
{
    let mut r: Vec<String> = Vec::new();
    r.push("--list".to_owned());
    r.push("--checklist".to_owned());
    r.push("--hide-header".to_owned());
    r.push(option("--title=", text.title.as_str()));
    r.push("--column= ".to_owned());
    r.push(option("--column=", text.dont_ask_again.as_str()));
    r.push("--print-column=2".to_owned());
    r.push(option("--ok-label=", text.run.as_str()));
    r.push(option("--cancel-label=", text.decline.as_str()));
    r.push(option("--text=", escape_markup(text.question.as_str()).as_str()));
    r.push("FALSE".to_owned());
    r.push(text.dont_ask_again.clone());
    proof {
        assert(crate::qemu::string_views(r@) =~= zenity_list(*text));
    }
    r
}

/// The arguments of kdialog. Its message box has a check box but fixed
/// buttons: a list of one item to check stands in for it.
pub open spec fn kdialog_list(text: DialogText) -> Seq<Seq<char>> {
    seq![
        "--title="@ + text.title@,
        "--ok-label="@ + text.run@,
        "--cancel-label="@ + text.decline@,
        "--checklist"@,
        text.question@,
        "1"@,
        text.dont_ask_again@,
        "off"@,
    ]
}

/// The arguments of kdialog.
pub fn kdialog_args(text: &DialogText) -> (r: Vec<String>)
    ensures
        crate::qemu::string_views(r@) == kdialog_list(*text),
{
    let mut r: Vec<String> = Vec::new();
    r.push(option("--title=", text.title.as_str()));
    r.push(option("--ok-label=", text.run.as_str()));
    r.push(option("--cancel-label=", text.decline.as_str()));
    r.push("--checklist".to_owned());
    r.push(text.question.clone());
    r.push("1".to_owned());
    r.push(text.dont_ask_again.clone());
    r.push("off".to_owned());
    proof {
        assert(crate::qemu::string_views(r@) =~= kdialog_list(*text));
    }
    r
}

/// The arguments with which a tool asks; for our own dialog, those behind its file.
pub open spec fn question_args(tool: DialogTool, text: DialogText) -> Seq<Seq<char>> {
    match tool {
        DialogTool::Kirigami => kirigami_list(text),
        DialogTool::Kdialog => kdialog_list(text),
        DialogTool::Zenity => zenity_list(text),
    }
}

/// The arguments with which a tool asks; for our own dialog, those behind its file.
pub fn ask_args(tool: DialogTool, text: &DialogText) -> (r: Vec<String>)
    ensures
        crate::qemu::string_views(r@) == question_args(tool, *text),
{
    match tool {
        DialogTool::Kirigami => kirigami_args(text),
        DialogTool::Kdialog => kdialog_args(text),
        DialogTool::Zenity => zenity_args(text),
    }
}

/// What a tool answered, by its exit status and, but for our own dialog, by
/// what it printed.
pub open spec fn tool_answer(
    lang: Lang,
    tool: DialogTool,
    code: Option<i32>,
    printed: Seq<char>,
) -> Option<AskOutcome> {
    if tool == DialogTool::Kirigami {
        kirigami_answer(code)
    } else {
        outcome(lang, code, printed)
    }
}

/// What a tool that was asked with [`ask_args`] answered, if it did.
pub fn tool_outcome(
    lang: Lang,
    tool: DialogTool,
    code: Option<i32>,
    printed: &str,
) -> (r: Option<AskOutcome>)
    ensures
        r == tool_answer(lang, tool, code, printed@),
{
    match tool {
        DialogTool::Kirigami => kirigami_outcome(code),
        _ => ask_outcome(lang, code, printed),
    }
}

/// What came of trying a QML runtime.
#[derive(Debug)]
pub struct QmlProbe {
    /// It is a regular file.
    pub is_file: bool,
    /// What it printed when asked for its version, if it could be run.
    pub version: Option<String>,
}

/// The next thing to do when looking for a QML runtime.
#[derive(Debug)]
pub enum QmlStep {
    /// Try this one.
    Probe(&'static str),
    /// Use this one.
    Use(Vec<u8>),
    /// Stop: there is none.
    Missing,
}

/// Where a QML runtime may be.
pub open spec fn qml_places() -> Seq<Seq<char>> {
    seq!["/usr/lib/qt6/bin/qml"@, "/usr/bin/qml6"@, "/usr/bin/qml"@]
}

/// A runtime that can show our dialog: one of Qt 6.
pub open spec fn is_usable(probe: QmlProbe) -> bool {
    probe.is_file && probe.version is Some && crate::text::has_part(
        probe.version->0@,
        "Qml Runtime 6"@,
    )
}

/// Which of `probes` is the first usable one; their number if none is.
pub open spec fn first_usable(probes: Seq<QmlProbe>) -> int
    decreases probes.len(),
{
    if probes.len() == 0 || is_usable(probes[0]) {
        0
    } else {
        1 + first_usable(probes.drop_first())
    }
}

/// Whether a runtime can show our dialog.
fn usable(probe: &QmlProbe) -> (r: bool)
    ensures
        r == is_usable(*probe),
{
    match &probe.version {
        Some(version) => probe.is_file && contains(
            chars_of(version.as_str()).as_slice(),
            "Qml Runtime 6",
        ),
        None => false,
    }
}

/// The place of a runtime.
fn qml_place(i: usize) -> (r: &'static str)
    requires
        i < 3,
    ensures
        r@ == qml_places()[i as int],
{
    if i == 0 {
        "/usr/lib/qt6/bin/qml"
    } else if i == 1 {
        "/usr/bin/qml6"
    } else {
        "/usr/bin/qml"
    }
}

/// Looks for a QML runtime, one step at a time: `probes` are what came of the
/// places tried so far, in order. A pinned one is used as it is.
pub fn qml_runtime(pinned: Option<Vec<u8>>, probes: &Vec<QmlProbe>) -> (r: QmlStep)
    ensures
        match r {
            QmlStep::Use(path) => if pinned is Some {
                path@ == pinned->0@
            } else {
                first_usable(probes@) < probes@.len() && first_usable(probes@) < 3 && path@
                    == crate::paths::bytes(qml_places()[first_usable(probes@)])
            },
            QmlStep::Probe(place) => pinned is None && first_usable(probes@) == probes@.len()
                && probes@.len() < 3 && place@ == qml_places()[probes@.len() as int],
            QmlStep::Missing => pinned is None && first_usable(probes@) >= 3,
        },
{
    if let Some(path) = pinned {
        return QmlStep::Use(path);
    }
    let mut i: usize = 0;
    proof {
        assert(probes@.skip(0) =~= probes@);
    }
    while i < probes.len() && i < 3
        invariant
            i <= probes@.len(),
            i <= 3,
            pinned is None,
            first_usable(probes@) == i + first_usable(probes@.skip(i as int)),
        decreases probes@.len() - i,
    {
        if usable(&probes[i]) {
            return QmlStep::Use(to_bytes(qml_place(i)));
        }
        proof {
            assert(probes@.skip(i as int).drop_first() =~= probes@.skip(i + 1));
        }
        i += 1;
    }
    proof {
        lemma_first_usable(probes@.skip(i as int));
    }
    if i < 3 {
        QmlStep::Probe(qml_place(i))
    } else {
        QmlStep::Missing
    }
}

/// The number of the first usable probe is in bounds.
proof fn lemma_first_usable(probes: Seq<QmlProbe>)
    ensures
        0 <= first_usable(probes) <= probes.len(),
    decreases probes.len(),
{
    if probes.len() > 0 {
        lemma_first_usable(probes.drop_first());
    }
}

/// Where our own dialog is: at `/usr/share/aosc-exec-guard/dialog.qml`, unless
/// it is pinned to another place.
pub fn qml_file(pinned: Option<Vec<u8>>) -> (r: Vec<u8>)
    ensures
        r@ == match pinned {
            Some(path) => path@,
            None => crate::paths::bytes("/usr/share/aosc-exec-guard/dialog.qml"@),
        },
        r@ == crate::qemu::place_of(
            crate::qemu::bytes_view(pinned),
            "/usr/share/aosc-exec-guard/dialog.qml"@,
        ),
{
    match pinned {
        Some(path) => path,
        None => to_bytes("/usr/share/aosc-exec-guard/dialog.qml"),
    }
}

/// The user can be asked on the terminal.
pub open spec fn answers_on_terminal(stdin_is_terminal: bool, stderr_is_terminal: bool) -> bool {
    stdin_is_terminal && stderr_is_terminal
}

/// Whether the user can be asked on the terminal: keys must be read from it
/// and the menu drawn on it.
pub fn can_ask_terminal(stdin_is_terminal: bool, stderr_is_terminal: bool) -> (r: bool)
    ensures
        r == (stdin_is_terminal && stderr_is_terminal),
        r == answers_on_terminal(stdin_is_terminal, stderr_is_terminal),
{
    stdin_is_terminal && stderr_is_terminal
}

/// The menu item that is chosen at first: do not run.
pub const MENU_DEFAULT: usize = 1;

/// The items of the menu.
pub open spec fn menu_texts(lang: Lang) -> Seq<Seq<char>> {
    seq![lang.menu_run_once_text(), lang.menu_decline_text(), lang.menu_always_text()]
}

/// The items of the menu.
pub fn menu_items(lang: Lang) -> (r: Vec<&'static str>)
    ensures
        crate::qemu::str_views(r@) == seq![
            lang.menu_run_once_text(),
            lang.menu_decline_text(),
            lang.menu_always_text(),
        ],
        crate::qemu::str_views(r@) == menu_texts(lang),
{
    let mut r: Vec<&'static str> = Vec::new();
    r.push(lang.menu_run_once());
    r.push(lang.menu_decline());
    r.push(lang.menu_always());
    proof {
        assert(crate::qemu::str_views(r@) =~= seq![
            lang.menu_run_once_text(),
            lang.menu_decline_text(),
            lang.menu_always_text(),
        ]);
    }
    r
}

/// What the chosen item of the menu means; leaving the menu is not to run.
pub open spec fn menu_answer(choice: Option<usize>) -> AskOutcome {
    AskOutcome {
        run: choice == Some(0usize) || choice == Some(2usize),
        remember: choice == Some(2usize),
    }
}

/// What the chosen item of the menu means.
pub fn menu_outcome(choice: Option<usize>) -> (r: AskOutcome)
    ensures
        r == menu_answer(choice),
{
    match choice {
        Some(item) => AskOutcome { run: item == 0 || item == 2, remember: item == 2 },
        None => AskOutcome { run: false, remember: false },
    }
}

/// A tool, and the arguments with which it shows a message.
#[derive(Debug)]
pub struct DialogCommand {
    /// The tool.
    pub tool: DialogTool,
    /// Its arguments; for our own dialog, those behind its file.
    pub args: Vec<String>,
}

/// The arguments with which a tool shows a message. Zenity reads it as markup.
pub open spec fn box_args(tool: DialogTool, title: Seq<char>, body: Seq<char>) -> Seq<Seq<char>> {
    match tool {
        DialogTool::Kirigami => seq!["--"@, "--title"@, title, "--text"@, body],
        DialogTool::Kdialog => seq!["--title"@, title, "--error"@, body],
        DialogTool::Zenity => seq![
            "--error"@,
            "--no-wrap"@,
            "--title="@ + title,
            "--text="@ + escaped(body),
        ],
    }
}

/// The tool to show a message with, after `failures` of `tools` did not show it.
pub open spec fn box_tool(tools: Seq<DialogTool>, failures: nat) -> Option<DialogTool> {
    if failures < tools.len() {
        Some(tools[failures as int])
    } else {
        None
    }
}

/// How to show a message with the next of `tools`, after `failures` of them
/// did not show it.
pub fn show_dialog(
    title: &str,
    body: &str,
    tools: &Vec<DialogTool>,
    failures: usize,
) -> (r: Option<DialogCommand>)
    ensures
        r is Some == (failures < tools@.len()),
        r is Some == box_tool(tools@, failures as nat) is Some,
        r is Some ==> Some(r->0.tool) == box_tool(tools@, failures as nat),
        r is Some ==> r->0.tool == tools@[failures as int] && crate::qemu::string_views(
            r->0.args@,
        ) == box_args(tools@[failures as int], title@, body@),
{
    if failures >= tools.len() {
        return None;
    }
    let tool = tools[failures];
    let mut args: Vec<String> = Vec::new();
    match tool {
        DialogTool::Kirigami => {
            args.push("--".to_owned());
            args.push("--title".to_owned());
            args.push(title.to_owned());
            args.push("--text".to_owned());
            args.push(body.to_owned());
        },
        DialogTool::Kdialog => {
            args.push("--title".to_owned());
            args.push(title.to_owned());
            args.push("--error".to_owned());
            args.push(body.to_owned());
        },
        DialogTool::Zenity => {
            args.push("--error".to_owned());
            args.push("--no-wrap".to_owned());
            args.push(option("--title=", title));
            args.push(option("--text=", escape_markup(body).as_str()));
        },
    }
    proof {
        assert(crate::qemu::string_views(args@) =~= box_args(tool, title@, body@));
    }
    Some(DialogCommand { tool, args })
}

/// A tool that was started, and ended with `code`, has shown a message.
pub open spec fn counts_as_shown(tool: DialogTool, code: Option<i32>) -> bool {
    tool == DialogTool::Kirigami ==> kirigami_answer(code) is Some
}

/// Whether a tool that was started, and ended with `code`, has shown a message.
/// Of our own dialog only a status of its own says so: with any other, the
/// runtime could not run it.
pub fn was_shown(tool: DialogTool, code: Option<i32>) -> (r: bool)
    ensures
        r == (tool == DialogTool::Kirigami ==> kirigami_answer(code) is Some),
        r == counts_as_shown(tool, code),
{
    match tool {
        DialogTool::Kirigami => kirigami_outcome(code).is_some(),
        _ => true,
    }
}

/// A known tool that is pinned is the only one to be tried, in any session.
pub proof fn pinned_tool_stands_alone(tool: DialogTool, kde: bool)
    ensures
        tools_for(Some(tool.label()), kde) == seq![tool],
{
    reveal_strlit("qml");
    reveal_strlit("kirigami");
    reveal_strlit("kdialog");
    reveal_strlit("zenity");
    assert("qml"@.len() == 3 && "kirigami"@.len() == 8 && "kdialog"@.len() == 7 && "zenity"@.len()
        == 6);
}

/// Without a known tool pinned, each session tries its own tools first: KDE's
/// ends with zenity, and no other starts with a tool of KDE's, nor shows our
/// own dialog.
pub proof fn sessions_try_their_own_tools_first(pinned: Option<Seq<char>>)
    requires
        pinned is None || (pinned->0 != "qml"@ && pinned->0 != "kirigami"@ && pinned->0
            != "kdialog"@ && pinned->0 != "zenity"@),
    ensures
        tools_for(pinned, true) == seq![
            DialogTool::Kirigami,
            DialogTool::Kdialog,
            DialogTool::Zenity,
        ],
        tools_for(pinned, false) == seq![DialogTool::Zenity, DialogTool::Kdialog],
{
}

/// Not to run is never to be kept, however the user says it: only a settings
/// file says so for good.
pub proof fn refusals_are_not_kept(
    lang: Lang,
    tool: DialogTool,
    code: Option<i32>,
    printed: Seq<char>,
    choice: Option<usize>,
)
    ensures
        tool_answer(lang, tool, code, printed) is Some && tool_answer(
            lang,
            tool,
            code,
            printed,
        )->0.remember ==> tool_answer(lang, tool, code, printed)->0.run,
        menu_answer(choice).remember ==> menu_answer(choice).run,
{
}

/// The terminal is the last resort: it comes up only where every dialog that
/// was in order has been tried and none had an answer.
pub proof fn terminal_comes_last(
    mode: DisplayMode,
    tools: Seq<DialogTool>,
    answers: Seq<Option<AskOutcome>>,
)
    requires
        next_step(mode, tools, answers) is Terminal,
    ensures
        answers.len() == if mode == DisplayMode::Dialog {
            tools.len()
        } else {
            0
        },
        forall|i: int| 0 <= i < answers.len() ==> #[trigger] answers[i] is None,
{
    assert forall|i: int| 0 <= i < answers.len() implies #[trigger] answers[i] is None by {
        lemma_first_answer(answers, i);
    }
}

/// The first answer ends the asking, and without one it ends after the
/// dialogs that are in order and the terminal.
pub proof fn asking_ends(
    mode: DisplayMode,
    tools: Seq<DialogTool>,
    answers: Seq<Option<AskOutcome>>,
    answer: AskOutcome,
)
    ensures
        (forall|i: int| 0 <= i < answers.len() ==> #[trigger] answers[i] is None) ==> next_step(
            mode,
            tools,
            answers.push(Some(answer)),
        ) == AskStep::Done(Some(answer)),
        answers.len() > tools.len() ==> next_step(mode, tools, answers) is Done,
{
    if forall|i: int| 0 <= i < answers.len() ==> #[trigger] answers[i] is None {
        lemma_answer_found(answers, answer);
    }
}

/// The first answer is found behind any number of none.
proof fn lemma_answer_found(answers: Seq<Option<AskOutcome>>, answer: AskOutcome)
    requires
        forall|i: int| 0 <= i < answers.len() ==> #[trigger] answers[i] is None,
    ensures
        first_answer(answers.push(Some(answer))) == Some(answer),
    decreases answers.len(),
{
    if answers.len() > 0 {
        let all = answers.push(Some(answer));
        assert(all[0] == answers[0]);
        assert(all.drop_first() =~= answers.drop_first().push(Some(answer)));
        lemma_answer_found(answers.drop_first(), answer);
    }
}

/// There is no answer only where no answer is one.
proof fn lemma_first_answer(answers: Seq<Option<AskOutcome>>, i: int)
    requires
        first_answer(answers) is None,
        0 <= i < answers.len(),
    ensures
        answers[i] is None,
    decreases answers.len(),
{
    if i > 0 {
        lemma_first_answer(answers.drop_first(), i - 1);
    }
}

/// Writing text as markup goes character by character, from the front as from
/// the back.
proof fn lemma_escaped_front(s: Seq<char>)
    requires
        s.len() > 0,
    ensures
        escaped(s) == escape(s[0]) + escaped(s.drop_first()),
    decreases s.len(),
{
    if s.len() == 1 {
        assert(s.drop_last() =~= Seq::<char>::empty());
        assert(s.drop_first() =~= Seq::<char>::empty());
        assert(escaped(s) =~= escape(s[0]) + escaped(s.drop_first()));
    } else {
        lemma_escaped_front(s.drop_last());
        assert(s.drop_first().drop_last() =~= s.drop_last().drop_first());
        assert(escaped(s) =~= escape(s[0]) + escaped(s.drop_first()));
    }
}

/// Text written as markup opens and closes no tag.
pub proof fn escaped_text_holds_no_tag(s: Seq<char>, i: int)
    requires
        0 <= i < escaped(s).len(),
    ensures
        escaped(s)[i] != '<',
        escaped(s)[i] != '>',
    decreases s.len(),
{
    reveal_strlit("&amp;");
    reveal_strlit("&lt;");
    reveal_strlit("&gt;");
    let front = escaped(s.drop_last());
    if i < front.len() {
        escaped_text_holds_no_tag(s.drop_last(), i);
    } else {
        assert(escaped(s)[i] == escape(s.last())[i - front.len()]);
    }
}

/// What stands for a character is never nothing.
proof fn lemma_escape_is_filled(c: char)
    ensures
        escape(c).len() > 0,
{
    reveal_strlit("&amp;");
    reveal_strlit("&lt;");
    reveal_strlit("&gt;");
}

/// Where what stands for two characters starts alike, in its first character
/// and, behind `&`, in its second, the characters are the same.
#[verifier::spinoff_prover]
proof fn lemma_escape_tells(c: char, d: char)
    requires
        escape(c)[0] == escape(d)[0],
        escape(c)[0] == '&' ==> escape(c)[1] == escape(d)[1],
    ensures
        c == d,
{
    reveal_strlit("&amp;");
    reveal_strlit("&lt;");
    reveal_strlit("&gt;");
}

/// What stands for a character has a second character behind `&`.
proof fn lemma_escape_second(c: char)
    ensures
        escape(c)[0] == '&' ==> escape(c).len() > 1,
{
    reveal_strlit("&amp;");
    reveal_strlit("&lt;");
    reveal_strlit("&gt;");
}

/// Texts that differ are written differently: the reader of the markup is
/// shown the text that was meant.
#[verifier::spinoff_prover]
pub proof fn escaping_loses_nothing(a: Seq<char>, b: Seq<char>)
    requires
        escaped(a) == escaped(b),
    ensures
        a == b,
    decreases a.len(),
{
    if a.len() > 0 {
        lemma_escaped_front(a);
        lemma_escape_is_filled(a[0]);
        lemma_escape_second(a[0]);
        assert(escaped(a).len() > 0);
    }
    if b.len() > 0 {
        lemma_escaped_front(b);
        lemma_escape_is_filled(b[0]);
        lemma_escape_second(b[0]);
        assert(escaped(b).len() > 0);
    }
    if a.len() == 0 || b.len() == 0 {
        assert(escaped(Seq::<char>::empty()).len() == 0);
        assert(a.len() == 0 ==> a =~= Seq::<char>::empty());
        assert(b.len() == 0 ==> b =~= Seq::<char>::empty());
        assert(a =~= b);
    } else {
        let x = escaped(a);
        let y = escaped(b);
        assert(x[0] == escape(a[0])[0]);
        assert(y[0] == escape(b[0])[0]);
        if x[0] == '&' {
            assert(x[1] == escape(a[0])[1]);
            assert(y[1] == escape(b[0])[1]);
        }
        lemma_escape_tells(a[0], b[0]);
        let n = escape(a[0]).len() as int;
        assert(x.skip(n) =~= escaped(a.drop_first()));
        assert(y.skip(n) =~= escaped(b.drop_first()));
        escaping_loses_nothing(a.drop_first(), b.drop_first());
        assert(a =~= seq![a[0]] + a.drop_first());
        assert(b =~= seq![b[0]] + b.drop_first());
    }
}

} // verus!
