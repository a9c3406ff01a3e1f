//! Of asking, and of what answers mean.

use vstd::prelude::*;

use crate::elf::ElfInfo;
use crate::i18n::Lang;
use crate::platform::DisplayMode;
use crate::prompt::{AskOutcome, AskStep, DialogText, DialogTool, QmlProbe};

verus! {

/// Nobody has answered yet.
pub open spec fn unanswered(answers: Seq<Option<AskOutcome>>) -> bool {
    forall|i: int| 0 <= i < answers.len() ==> #[trigger] answers[i] is None
}

/// There is a first answer exactly where there is one, and it is the first.
proof fn lemma_first_answer_is(answers: Seq<Option<AskOutcome>>, i: int)
    requires
        0 <= i <= answers.len(),
        forall|k: int| 0 <= k < i ==> #[trigger] answers[k] is None,
        i < answers.len() ==> answers[i] is Some,
    ensures
        i < answers.len() ==> crate::prompt::first_answer(answers) == answers[i],
        i == answers.len() ==> crate::prompt::first_answer(answers) is None,
    decreases answers.len(),
{
    if i > 0 {
        let rest = answers.drop_first();
        assert(answers[0] is None);
        assert forall|k: int| 0 <= k < i - 1 implies #[trigger] rest[k] is None by {
            assert(rest[k] == answers[k + 1]);
        }
        lemma_first_answer_is(rest, i - 1);
    }
}

/// Where dialogs are in order the tools are tried one after the other, then
/// the terminal, and then no more; where they are not, only the terminal is.
pub proof fn ways_of_asking_come_in_turn(
    tools: Seq<DialogTool>,
    answers: Seq<Option<AskOutcome>>,
)
    requires
        unanswered(answers),
    ensures
        answers.len() < tools.len() ==> crate::prompt::next_step(
            DisplayMode::Dialog,
            tools,
            answers,
        ) == AskStep::Dialog(tools[answers.len() as int]),
        answers.len() == tools.len() ==> crate::prompt::next_step(
            DisplayMode::Dialog,
            tools,
            answers,
        ) == AskStep::Terminal,
        answers.len() > tools.len() ==> crate::prompt::next_step(
            DisplayMode::Dialog,
            tools,
            answers,
        ) == AskStep::Done(None),
        answers.len() == 0 ==> crate::prompt::next_step(DisplayMode::Text, tools, answers)
            == AskStep::Terminal,
        answers.len() > 0 ==> crate::prompt::next_step(DisplayMode::Text, tools, answers)
            == AskStep::Done(None),
{
    lemma_first_answer_is(answers, answers.len() as int);
}

/// The first answer is the answer, whoever gave it and whatever came later.
pub proof fn the_first_answer_counts(
    mode: DisplayMode,
    tools: Seq<DialogTool>,
    answers: Seq<Option<AskOutcome>>,
    i: int,
)
    requires
        0 <= i < answers.len(),
        answers[i] is Some,
        forall|k: int| 0 <= k < i ==> #[trigger] answers[k] is None,
    ensures
        crate::prompt::next_step(mode, tools, answers) == AskStep::Done(answers[i]),
{
    lemma_first_answer_is(answers, i);
}

/// What the tools are called.
pub proof fn tools_have_their_names(tool: DialogTool)
    ensures
        tool == DialogTool::Kirigami ==> tool.label() == "qml"@,
        tool == DialogTool::Kdialog ==> tool.label() == "kdialog"@,
        tool == DialogTool::Zenity ==> tool.label() == "zenity"@,
{
}

/// A pin names one tool, and our own goes by two names.
pub proof fn pins_name_one_tool(kde: bool)
    ensures
        crate::prompt::tools_for(Some("qml"@), kde) == seq![DialogTool::Kirigami],
        crate::prompt::tools_for(Some("kirigami"@), kde) == seq![DialogTool::Kirigami],
        crate::prompt::tools_for(Some("kdialog"@), kde) == seq![DialogTool::Kdialog],
        crate::prompt::tools_for(Some("zenity"@), kde) == seq![DialogTool::Zenity],
{
    reveal_strlit("qml");
    reveal_strlit("kirigami");
    reveal_strlit("kdialog");
    reveal_strlit("zenity");
    assert("qml"@.len() == 3 && "kirigami"@.len() == 8 && "kdialog"@.len() == 7 && "zenity"@.len()
        == 6);
}

/// The names of tools are listed in order, with commas between.
pub proof fn chains_have_commas_between(tools: Seq<DialogTool>, tool: DialogTool)
    ensures
        crate::prompt::chain(Seq::empty()).len() == 0,
        crate::prompt::chain(seq![tool]) == tool.label(),
        tools.len() > 0 ==> crate::prompt::chain(tools.push(tool)) == crate::prompt::chain(tools)
            + ","@ + tool.label(),
{
    assert(tools.push(tool).drop_last() =~= tools);
}

/// A value speaks of KDE exactly where it holds one of the two words, in
/// whatever case.
pub proof fn kde_is_told_in_any_case(
    a: Seq<char>,
    word: Seq<char>,
    b: Seq<char>,
    values: Seq<Seq<char>>,
    i: int,
)
    ensures
        crate::text::lowered(word) == "kde"@ || crate::text::lowered(word) == "plasma"@
            ==> crate::prompt::speaks_of_kde(a + word + b),
        crate::prompt::speaks_of_kde(a) ==> exists|x: Seq<char>, y: Seq<char>|
            crate::text::lowered(a) == #[trigger] (x + "kde"@ + y) || crate::text::lowered(a) == (x
                + "plasma"@ + y),
        0 <= i < values.len() && crate::prompt::speaks_of_kde(values[i])
            ==> crate::prompt::any_speaks_of_kde(values),
        (forall|k: int|
            0 <= k < values.len() ==> !crate::prompt::speaks_of_kde(#[trigger] values[k]))
            ==> !crate::prompt::any_speaks_of_kde(values),
{
    let low = crate::text::lowered(a + word + b);
    assert(low =~= crate::text::lowered(a) + crate::text::lowered(word) + crate::text::lowered(b));
    crate::laws::text::parts_stand_between(
        crate::text::lowered(a),
        crate::text::lowered(word),
        crate::text::lowered(b),
        low,
    );
    let none = Seq::<char>::empty();
    crate::laws::text::parts_stand_between(none, "kde"@, none, crate::text::lowered(a));
    crate::laws::text::parts_stand_between(none, "plasma"@, none, crate::text::lowered(a));
    if crate::text::has_part(crate::text::lowered(a), "plasma"@) {
        let (x, y) = choose|x: Seq<char>, y: Seq<char>|
            crate::text::lowered(a) == #[trigger] (x + "plasma"@ + y);
        let other = x + "kde"@ + y;
        assert(crate::text::lowered(a) == other || crate::text::lowered(a) == x + "plasma"@ + y);
    }
}

/// The question names the program, the machines and the emulator.
pub proof fn questions_name_all(
    lang: Lang,
    emulator: Seq<char>,
    target: Seq<char>,
    info: ElfInfo,
    native: Seq<char>,
)
    ensures
        ({
            let q = crate::prompt::question(lang, target, info, native);
            let all = crate::prompt::asked(lang, emulator, target, info, native);
            &&& crate::text::has_part(q, target)
            &&& crate::text::has_part(q, crate::elf::sentence(lang, info, native))
            &&& crate::text::has_prefix(all, q)
            &&& crate::text::has_part(all, lang.run_with_prompt_text(emulator))
            &&& crate::text::has_part(lang.run_with_prompt_text(emulator), emulator)
        }),
{
    let q = crate::prompt::question(lang, target, info, native);
    let all = crate::prompt::asked(lang, emulator, target, info, native);
    let prompt = lang.run_with_prompt_text(emulator);
    let none = Seq::<char>::empty();
    crate::laws::i18n::qemu_question_holds(
        lang,
        target,
        crate::elf::sentence(lang, info, native),
    );
    crate::laws::i18n::run_with_prompt_holds(lang, emulator);
    assert(all =~= q + ("\n\n"@ + prompt));
    crate::laws::text::prefixes_come_first(q, "\n\n"@ + prompt, all);
    assert(all =~= (q + "\n\n"@) + prompt + none);
    crate::laws::text::parts_stand_between(q + "\n\n"@, prompt, none, all);
}

/// Our own dialog answers with 10 to run, 12 to run and be remembered, and 11
/// not to run; any other status, or none, is no answer.
pub proof fn own_statuses_are_the_answers(code: Option<i32>)
    ensures
        code == Some(10i32) <==> crate::prompt::kirigami_answer(code) == Some(
            AskOutcome { run: true, remember: false },
        ),
        code == Some(12i32) <==> crate::prompt::kirigami_answer(code) == Some(
            AskOutcome { run: true, remember: true },
        ),
        code == Some(11i32) <==> crate::prompt::kirigami_answer(code) == Some(
            AskOutcome { run: false, remember: false },
        ),
        crate::prompt::kirigami_answer(code) is Some ==> code == Some(10i32) || code == Some(11i32)
            || code == Some(12i32),
        crate::prompt::counts_as_shown(DialogTool::Kirigami, code) <==> code == Some(10i32) || code
            == Some(11i32) || code == Some(12i32),
        crate::prompt::counts_as_shown(DialogTool::Kdialog, code),
        crate::prompt::counts_as_shown(DialogTool::Zenity, code),
{
}

/// The other tools answer with 0 to run and 1 not to; the box was checked
/// exactly where they printed a `1` or its label.
pub proof fn statuses_and_output_are_the_answers(
    lang: Lang,
    code: Option<i32>,
    printed: Seq<char>,
)
    ensures
        ({
            let answer = crate::prompt::outcome(lang, code, printed);
            let checked = (exists|i: int| 0 <= i < printed.len() && #[trigger] printed[i] == '1')
                || crate::text::has_part(printed, lang.dont_ask_again_text());
            &&& answer is Some <==> code == Some(0i32) || code == Some(1i32)
            &&& code == Some(0i32) ==> answer == Some(
                AskOutcome { run: true, remember: checked },
            )
            &&& code == Some(1i32) ==> answer == Some(AskOutcome { run: false, remember: false })
        }),
{
    reveal_strlit("1");
    assert("1"@ =~= seq!['1']);
    let one = exists|i: int| 0 <= i < printed.len() && #[trigger] printed[i] == '1';
    if one {
        let i = choose|i: int| 0 <= i < printed.len() && #[trigger] printed[i] == '1';
        assert(printed.subrange(i, i + 1) =~= "1"@);
        assert(crate::text::stands_at(printed, "1"@, i));
    }
    if crate::text::has_part(printed, "1"@) {
        let at = choose|at: int| crate::text::stands_at(printed, "1"@, at);
        assert(printed.subrange(at, at + 1)[0] == printed[at]);
    }
}

/// Each tool is read in its own way.
pub proof fn tools_are_read_in_their_own_way(
    lang: Lang,
    code: Option<i32>,
    printed: Seq<char>,
)
    ensures
        crate::prompt::tool_answer(lang, DialogTool::Kirigami, code, printed)
            == crate::prompt::kirigami_answer(code),
        crate::prompt::tool_answer(lang, DialogTool::Kdialog, code, printed)
            == crate::prompt::outcome(lang, code, printed),
        crate::prompt::tool_answer(lang, DialogTool::Zenity, code, printed)
            == crate::prompt::outcome(lang, code, printed),
{
}

/// Writing as markup goes piece by piece.
proof fn lemma_escaped_concat(a: Seq<char>, b: Seq<char>)
    ensures
        crate::prompt::escaped(a + b) == crate::prompt::escaped(a) + crate::prompt::escaped(b),
    decreases b.len(),
{
    if b.len() > 0 {
        assert((a + b).drop_last() =~= a + b.drop_last());
        assert((a + b).last() == b.last());
        lemma_escaped_concat(a, b.drop_last());
        assert(crate::prompt::escaped(a + b) =~= crate::prompt::escaped(a)
            + crate::prompt::escaped(b));
    } else {
        assert(a + b =~= a);
        assert(crate::prompt::escaped(a + b) =~= crate::prompt::escaped(a)
            + crate::prompt::escaped(b));
    }
}

/// In markup, wherever they stand, `&`, `<` and `>` are written as `&amp;`,
/// `&lt;` and `&gt;`, and any other character as itself.
pub proof fn characters_are_written_as_markup(a: Seq<char>, c: char, b: Seq<char>)
    ensures
        ({
            let written = if c == '&' {
                "&amp;"@
            } else if c == '<' {
                "&lt;"@
            } else if c == '>' {
                "&gt;"@
            } else {
                seq![c]
            };
            crate::prompt::escaped(a.push(c) + b) == crate::prompt::escaped(a) + written
                + crate::prompt::escaped(b)
        }),
        crate::prompt::escaped(Seq::empty()).len() == 0,
{
    lemma_escaped_concat(a.push(c), b);
    assert(a.push(c).drop_last() =~= a);
}

/// Our own dialog is given each of the words behind its option, all behind `--`.
pub proof fn own_dialog_is_given_the_words(text: DialogText)
    ensures
        crate::prompt::question_args(DialogTool::Kirigami, text) == seq![
            "--"@,
            "--title"@,
            text.title@,
            "--text"@,
            text.question@,
            "--checkbox"@,
            text.dont_ask_again@,
            "--ok"@,
            text.run@,
            "--cancel"@,
            text.decline@,
        ],
{
}

/// Kdialog is given the words on its buttons, the question, and one box that
/// is not checked.
pub proof fn kdialog_is_given_the_words(text: DialogText)
    ensures
        crate::prompt::question_args(DialogTool::Kdialog, text) == seq![
            "--title="@ + text.title@,
            "--ok-label="@ + text.run@,
            "--cancel-label="@ + text.decline@,
            "--checklist"@,
            text.question@,
            "1"@,
            text.dont_ask_again@,
            "off"@,
        ],
{
}

/// Zenity is given the words on its buttons, the question as markup, and one
/// box that is not checked, whose label it prints.
pub proof fn zenity_is_given_the_words(text: DialogText)
    ensures
        crate::prompt::question_args(DialogTool::Zenity, text) == seq![
            "--list"@,
            "--checklist"@,
            "--hide-header"@,
            "--title="@ + text.title@,
            "--column= "@,
            "--column="@ + text.dont_ask_again@,
            "--print-column=2"@,
            "--ok-label="@ + text.run@,
            "--cancel-label="@ + text.decline@,
            "--text="@ + crate::prompt::escaped(text.question@),
            "FALSE"@,
            text.dont_ask_again@,
        ],
{
}

/// A box shows the message under its title: our own and kdialog's as it is,
/// and zenity's as markup.
pub proof fn boxes_show_title_and_message(title: Seq<char>, body: Seq<char>)
    ensures
        crate::prompt::box_args(DialogTool::Kirigami, title, body) == seq![
            "--"@,
            "--title"@,
            title,
            "--text"@,
            body,
        ],
        crate::prompt::box_args(DialogTool::Kdialog, title, body) == seq![
            "--title"@,
            title,
            "--error"@,
            body,
        ],
        crate::prompt::box_args(DialogTool::Zenity, title, body) == seq![
            "--error"@,
            "--no-wrap"@,
            "--title="@ + title,
            "--text="@ + crate::prompt::escaped(body),
        ],
{
}

/// A runtime is usable exactly where it is a file and says that it is of Qt 6.
pub proof fn runtimes_say_their_version(probe: QmlProbe, a: Seq<char>, b: Seq<char>)
    ensures
        crate::prompt::is_usable(probe) ==> probe.is_file && probe.version is Some && exists|
            x: Seq<char>,
            y: Seq<char>,
        |
            probe.version->0@ == #[trigger] (x + "Qml Runtime 6"@ + y),
        probe.is_file && probe.version is Some && probe.version->0@ == a + "Qml Runtime 6"@ + b
            ==> crate::prompt::is_usable(probe),
{
    let said = if probe.version is Some {
        probe.version->0@
    } else {
        a
    };
    crate::laws::text::parts_stand_between(a, "Qml Runtime 6"@, b, said);
}

/// Of the runtimes that were tried, the first usable one is used.
pub proof fn the_first_usable_runtime_is_used(probes: Seq<QmlProbe>, i: int)
    requires
        0 <= i <= probes.len(),
        forall|k: int| 0 <= k < i ==> !crate::prompt::is_usable(#[trigger] probes[k]),
        i < probes.len() ==> crate::prompt::is_usable(probes[i]),
    ensures
        crate::prompt::first_usable(probes) == i,
        crate::prompt::qml_places() == seq![
            "/usr/lib/qt6/bin/qml"@,
            "/usr/bin/qml6"@,
            "/usr/bin/qml"@,
        ],
    decreases probes.len(),
{
    if i > 0 {
        let rest = probes.drop_first();
        assert(!crate::prompt::is_usable(probes[0]));
        assert forall|k: int| 0 <= k < i - 1 implies !crate::prompt::is_usable(
            #[trigger] rest[k],
        ) by {
            assert(rest[k] == probes[k + 1]);
        }
        the_first_usable_runtime_is_used(rest, i - 1);
    }
}

/// The menu: its items mean what they say, leaving it and what is chosen at
/// first are not to run, and it takes a terminal both ways.
pub proof fn menus_mean_what_they_say(lang: Lang, item: usize, other: bool)
    ensures
        crate::prompt::menu_texts(lang) == seq![
            lang.menu_run_once_text(),
            lang.menu_decline_text(),
            lang.menu_always_text(),
        ],
        crate::prompt::menu_answer(Some(0usize)) == (AskOutcome { run: true, remember: false }),
        crate::prompt::menu_answer(Some(2usize)) == (AskOutcome { run: true, remember: true }),
        item != 0 && item != 2 ==> crate::prompt::menu_answer(Some(item)) == (AskOutcome {
            run: false,
            remember: false,
        }),
        crate::prompt::menu_answer(None) == (AskOutcome { run: false, remember: false }),
        !crate::prompt::menu_answer(Some(crate::prompt::MENU_DEFAULT)).run,
        crate::prompt::MENU_DEFAULT < crate::prompt::menu_texts(lang).len(),
        crate::prompt::answers_on_terminal(true, true),
        !crate::prompt::answers_on_terminal(false, other),
        !crate::prompt::answers_on_terminal(other, false),
{
}

/// The variables that tell a session.
pub proof fn sessions_are_told_by_four_variables()
    ensures
        crate::prompt::session_keys() == seq![
            "XDG_CURRENT_DESKTOP"@,
            "XDG_SESSION_DESKTOP"@,
            "DESKTOP_SESSION"@,
            "KDE_FULL_SESSION"@,
        ],
{
}

/// A message is shown with one tool after the other, in their order, until
/// none is left.
pub proof fn boxes_try_the_tools_in_turn(tools: Seq<DialogTool>, failures: nat)
    ensures
        failures < tools.len() ==> crate::prompt::box_tool(tools, failures) == Some(
            tools[failures as int],
        ),
        failures >= tools.len() ==> crate::prompt::box_tool(tools, failures) is None,
{
}

} // verus!
