//! What becomes of a program that did not start: it is handed to an emulator,
//! or explained.

use vstd::prelude::*;
use vstd::string::*;

use crate::config::QemuMode;
use crate::elf::Verdict;
use crate::platform::DisplayMode;
use crate::prompt::AskOutcome;

verus! {

/// The exit status for a program that was found and cannot be executed, by
/// the convention of shells.
pub const EXIT_CANNOT_EXEC: i32 = 126;

/// What to do with a program.
#[derive(Debug, Clone, Copy, PartialEq, Eq, Structural)]
pub enum Forward {
    /// Say why it cannot run.
    Explain,
    /// Hand it to the emulator.
    Run,
    /// Ask the user which.
    Ask,
}

/// What to do with a program: only one of another machine, for which there is
/// an emulator, is handed over or asked about.
pub open spec fn forward_for(verdict: Verdict, emulator: bool, mode: QemuMode) -> Forward {
    if verdict is ArchMismatch && emulator {
        match mode {
            QemuMode::Ask => Forward::Ask,
            QemuMode::Always => Forward::Run,
            QemuMode::Never => Forward::Explain,
        }
    } else {
        Forward::Explain
    }
}

/// What to do with a program, given the verdict on it, whether there is an
/// emulator, and the mode.
pub fn decide(verdict: &Verdict, emulator: bool, mode: QemuMode) -> (r: Forward)
    ensures
        r == forward_for(*verdict, emulator, mode),
{
    match verdict {
        Verdict::ArchMismatch(_) => if emulator {
            match mode {
                QemuMode::Ask => Forward::Ask,
                QemuMode::Always => Forward::Run,
                QemuMode::Never => Forward::Explain,
            }
        } else {
            Forward::Explain
        },
        _ => Forward::Explain,
    }
}

/// What follows from an answer.
#[derive(Debug, Clone, Copy, PartialEq, Eq, Structural)]
pub struct Decision {
    /// Hand the program to the emulator.
    pub run: bool,
    /// Keep this as the mode from now on.
    pub remember: Option<QemuMode>,
}

/// What follows from an answer. Where nobody could be asked, the emulator gets
/// the program, as it would if this program were not there.
pub open spec fn decision_on(answer: Option<AskOutcome>) -> Decision {
    match answer {
        Some(outcome) => Decision {
            run: outcome.run,
            remember: if outcome.remember {
                Some(
                    if outcome.run {
                        QemuMode::Always
                    } else {
                        QemuMode::Never
                    },
                )
            } else {
                None
            },
        },
        None => Decision { run: true, remember: None },
    }
}

/// What follows from an answer, or from there being none.
pub fn settle(answer: Option<AskOutcome>) -> (r: Decision)
    ensures
        r == decision_on(answer),
{
    match answer {
        Some(outcome) => {
            let remember = if outcome.remember {
                if outcome.run {
                    Some(QemuMode::Always)
                } else {
                    Some(QemuMode::Never)
                }
            } else {
                None
            };
            Decision { run: outcome.run, remember }
        },
        None => Decision { run: true, remember: None },
    }
}

/// A line with the program's name before it.
pub open spec fn signed(text: Seq<char>) -> Seq<char> {
    "aosc-exec-guard: "@ + text
}

/// Puts the program's name before a line.
pub fn sign(text: &str) -> (r: String)
    ensures
        r@ == signed(text@),
{
    let mut r = "aosc-exec-guard: ".to_owned();
    r.append(text);
    r
}

/// What was found out on the way, for `--debug`.
#[derive(Debug)]
pub struct Findings {
    /// How the user is talked to.
    pub mode: DisplayMode,
    /// The name of the emulator's entry, if there is one.
    pub emulator: Option<String>,
    /// What to do when there is an emulator.
    pub qemu_mode: QemuMode,
    /// The registry is in sight.
    pub registry_visible: bool,
    /// This is a container.
    pub container: bool,
    /// There is a graphical session.
    pub gui: bool,
    /// Output goes to a terminal.
    pub terminal: bool,
    /// This is a service.
    pub service: bool,
    /// The dialog tools that would be tried.
    pub dialogs: String,
}

/// A yes or no.
pub open spec fn truth(b: bool) -> Seq<char> {
    if b {
        "true"@
    } else {
        "false"@
    }
}

/// A yes or no.
fn truth_word(b: bool) -> (r: &'static str)
    ensures
        r@ == truth(b),
{
    if b {
        "true"
    } else {
        "false"
    }
}

/// The line that `--debug` prints.
pub open spec fn debug_text(f: Findings) -> Seq<char> {
    "[debug] mode="@ + (match f.mode {
        DisplayMode::Dialog => "Dialog"@,
        DisplayMode::Text => "Text"@,
    }) + " qemu="@ + (match f.emulator {
        Some(name) => name@,
        None => "-"@,
    }) + " qemu_mode="@ + (match f.qemu_mode {
        QemuMode::Ask => "Ask"@,
        QemuMode::Always => "Always"@,
        QemuMode::Never => "Never"@,
    }) + " registry="@ + (if f.registry_visible {
        "visible"@
    } else {
        "invisible"@
    }) + " container="@ + truth(f.container) + " gui="@ + truth(f.gui) + " tty="@ + truth(
        f.terminal,
    ) + " in_service="@ + truth(f.service) + " dialog="@ + f.dialogs@
}

/// The line that `--debug` prints: all that decides how the program behaves.
pub fn debug_line(f: &Findings) -> (r: String)
    ensures
        r@ == debug_text(*f),
{
    let mut r = "[debug] mode=".to_owned();
    r.append(
        match f.mode {
            DisplayMode::Dialog => "Dialog",
            DisplayMode::Text => "Text",
        },
    );
    r.append(" qemu=");
    match &f.emulator {
        Some(name) => r.append(name.as_str()),
        None => r.append("-"),
    }
    r.append(" qemu_mode=");
    r.append(
        match f.qemu_mode {
            QemuMode::Ask => "Ask",
            QemuMode::Always => "Always",
            QemuMode::Never => "Never",
        },
    );
    r.append(" registry=");
    if f.registry_visible {
        r.append("visible");
    } else {
        r.append("invisible");
    }
    r.append(" container=");
    r.append(truth_word(f.container));
    r.append(" gui=");
    r.append(truth_word(f.gui));
    r.append(" tty=");
    r.append(truth_word(f.terminal));
    r.append(" in_service=");
    r.append(truth_word(f.service));
    r.append(" dialog=");
    r.append(f.dialogs.as_str());
    r
}

/// An answer that was to be kept is what happens from then on, without asking:
/// the settings that are saved for it decide the same way.
pub proof fn kept_answer_is_repeated(
    lang: crate::i18n::Lang,
    answer: AskOutcome,
    verdict: Verdict,
    system: Option<Seq<char>>,
)
    requires
        answer.remember,
        verdict is ArchMismatch,
    ensures
        ({
            let kept = decision_on(Some(answer)).remember->0;
            let text = lang.user_config_content_text(kept.name());
            let mode = crate::config::resolved(None, None, false, Some(text), system);
            forward_for(verdict, true, mode) == if answer.run {
                Forward::Run
            } else {
                Forward::Explain
            }
        }),
{
    let kept = decision_on(Some(answer)).remember->0;
    crate::config::saved_choice_decides(lang, kept, None, system);
}

/// In a chroot, or without sight of the registry, nobody is asked who did not
/// ask for it: whatever the settings, a program of another machine goes to the
/// emulator if there is one, as it would if this program were not there.
pub proof fn nobody_is_asked_in_isolation(
    verdict: Verdict,
    emulator: bool,
    user: Option<Seq<char>>,
    system: Option<Seq<char>>,
)
    ensures
        ({
            let mode = crate::config::resolved(None, None, true, user, system);
            forward_for(verdict, emulator, mode) == if verdict is ArchMismatch && emulator {
                Forward::Run
            } else {
                Forward::Explain
            }
        }),
{
}

} // verus!
