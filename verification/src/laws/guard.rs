//! Of what becomes of a program.

use vstd::prelude::*;

use crate::config::QemuMode;
use crate::elf::Verdict;
use crate::guard::{Decision, Findings, Forward};
use crate::platform::DisplayMode;
use crate::prompt::AskOutcome;

verus! {

/// What to do with a program of another machine depends on the mode alone, and
/// not on the program: where there is an emulator, `ask` asks, `always` runs
/// and `never` explains.
pub proof fn the_mode_decides_for_foreign_programs(verdict: Verdict, mode: QemuMode)
    requires
        verdict is ArchMismatch,
    ensures
        mode == QemuMode::Ask <==> crate::guard::forward_for(verdict, true, mode) == Forward::Ask,
        mode == QemuMode::Always <==> crate::guard::forward_for(verdict, true, mode)
            == Forward::Run,
        mode == QemuMode::Never <==> crate::guard::forward_for(verdict, true, mode)
            == Forward::Explain,
{
}

/// Any two programs of other machines are treated alike.
pub proof fn foreign_programs_are_treated_alike(
    one: Verdict,
    other: Verdict,
    emulator: bool,
    mode: QemuMode,
)
    requires
        one is ArchMismatch,
        other is ArchMismatch,
    ensures
        crate::guard::forward_for(one, emulator, mode) == crate::guard::forward_for(
            other,
            emulator,
            mode,
        ),
{
}

/// Without an emulator, and for any program that is not of another machine,
/// there is only an explanation.
pub proof fn all_else_is_explained(verdict: Verdict, emulator: bool, mode: QemuMode)
    ensures
        !emulator ==> crate::guard::forward_for(verdict, emulator, mode) == Forward::Explain,
        !(verdict is ArchMismatch) ==> crate::guard::forward_for(verdict, emulator, mode)
            == Forward::Explain,
{
}

/// Nothing runs without a question unless the mode is `always`, and nobody is
/// asked unless it is `ask`.
pub proof fn nothing_runs_unasked(verdict: Verdict, emulator: bool, mode: QemuMode)
    ensures
        crate::guard::forward_for(verdict, emulator, mode) == Forward::Run ==> mode
            == QemuMode::Always && emulator && verdict is ArchMismatch,
        crate::guard::forward_for(verdict, emulator, mode) == Forward::Ask ==> mode
            == QemuMode::Ask && emulator && verdict is ArchMismatch,
{
}

/// An answer is followed; it is kept exactly where it was to be, as the mode
/// that repeats it; and where nobody could be asked the program runs and
/// nothing is kept.
pub proof fn answers_are_followed(answer: Option<AskOutcome>)
    ensures
        answer is None ==> crate::guard::decision_on(answer) == (Decision {
            run: true,
            remember: None,
        }),
        answer is Some ==> crate::guard::decision_on(answer).run == answer->0.run,
        answer is Some ==> (crate::guard::decision_on(answer).remember is Some
            <==> answer->0.remember),
        answer is Some && answer->0.remember && answer->0.run ==> crate::guard::decision_on(
            answer,
        ).remember == Some(QemuMode::Always),
        answer is Some && answer->0.remember && !answer->0.run ==> crate::guard::decision_on(
            answer,
        ).remember == Some(QemuMode::Never),
{
}

/// Lines are signed with the program's name, and are told as they are.
pub proof fn lines_are_signed(text: Seq<char>)
    ensures
        crate::guard::signed(text) == "aosc-exec-guard: "@ + text,
        crate::guard::EXIT_CANNOT_EXEC == 126,
{
}

/// A yes or no.
pub open spec fn word(b: bool) -> Seq<char> {
    if b {
        "true"@
    } else {
        "false"@
    }
}

/// The debug line tells each finding behind its name, in a fixed order.
pub proof fn debug_line_tells_all(f: Findings)
    ensures
        ({
            let mode = if f.mode == DisplayMode::Dialog {
                "Dialog"@
            } else {
                "Text"@
            };
            let emulator = if f.emulator is Some {
                f.emulator->0@
            } else {
                "-"@
            };
            let qemu_mode = if f.qemu_mode == QemuMode::Ask {
                "Ask"@
            } else if f.qemu_mode == QemuMode::Always {
                "Always"@
            } else {
                "Never"@
            };
            let registry = if f.registry_visible {
                "visible"@
            } else {
                "invisible"@
            };
            crate::guard::debug_text(f) == "[debug] mode="@ + mode + " qemu="@ + emulator
                + " qemu_mode="@ + qemu_mode + " registry="@ + registry + " container="@ + word(
                f.container,
            ) + " gui="@ + word(f.gui) + " tty="@ + word(f.terminal) + " in_service="@ + word(
                f.service,
            ) + " dialog="@ + f.dialogs@
        }),
{
}

} // verus!
