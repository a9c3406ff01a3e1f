//! Of stepping aside and coming back.

use vstd::prelude::*;

use crate::handover::{
    Action, ConfDir, EventView, HostView, NoticeView, ProgressView, Question, RefusalView, TaskView,
};
use crate::i18n::Lang;

verus! {

/// In any tidy directory, a file is switched off by putting `.disabled` behind
/// its name, and switched on by taking it off; one without it is on already.
pub proof fn files_are_switched_by_their_suffix(dir: Seq<u8>, name: Seq<u8>)
    requires
        crate::paths::is_tidy(dir),
        crate::paths::is_plain(name),
        vstd::utf8::valid_utf8(name),
    ensures
        crate::handover::disabled(crate::paths::joined(dir, name)) == crate::paths::joined(
            dir,
            name + crate::paths::bytes(".disabled"@),
        ),
        crate::handover::enabled(
            crate::paths::joined(dir, name + crate::paths::bytes(".disabled"@)),
        ) == Some(crate::paths::joined(dir, name)),
        (forall|stem: Seq<u8>| name != #[trigger] (stem + crate::paths::bytes(".disabled"@)))
            ==> crate::handover::enabled(crate::paths::joined(dir, name)) is None,
{
    let suffix = crate::paths::bytes(".disabled"@);
    crate::handover::lemma_suffixed(name);
    crate::paths::lemma_join_tidy(dir, name);
    crate::paths::lemma_join_tidy(dir, name + suffix);
    if crate::paths::has_suffix(name, suffix) {
        let stem = name.take(name.len() - suffix.len());
        assert(name =~= stem + suffix);
    }
}

/// The configuration file has one name in every directory, and another while
/// it is not applied.
pub proof fn the_file_has_its_name(dir: Seq<u8>)
    requires
        dir.len() > 0,
        dir.last() != 0x2f,
    ensures
        crate::handover::conf_in(dir) == dir + seq![0x2fu8] + crate::paths::bytes(
            "zz-aosc-exec-guard.conf"@,
        ),
        crate::handover::disabled_in(dir) == dir + seq![0x2fu8] + (crate::paths::bytes(
            "zz-aosc-exec-guard.conf"@,
        ) + crate::paths::bytes(".disabled"@)),
{
    reveal_strlit("zz-aosc-exec-guard.conf");
    crate::paths::lemma_ascii_bytes("zz-aosc-exec-guard.conf"@);
    let name = crate::paths::bytes("zz-aosc-exec-guard.conf"@);
    let off = name + crate::paths::bytes(".disabled"@);
    assert(name[0] == "zz-aosc-exec-guard.conf"@[0] as u8);
    assert(off[0] == name[0]);
    crate::laws::text::paths_are_joined_by_a_slash(dir, name);
    crate::laws::text::paths_are_joined_by_a_slash(dir, off);
}

/// Whatever the directory, the file has its names in it, and whatever the file,
/// the suffix goes behind its name and comes off it again. Only a name that is
/// text and has the suffix loses it.
pub proof fn names_get_and_lose_the_suffix(dir: Seq<u8>, path: Seq<u8>)
    ensures
        ({
            let conf = crate::paths::bytes("zz-aosc-exec-guard.conf"@);
            let suffix = crate::paths::bytes(".disabled"@);
            let name = crate::paths::file_name(path);
            &&& crate::handover::conf_in(dir) == crate::paths::joined(dir, conf)
            &&& crate::handover::disabled_in(dir) == crate::paths::joined(dir, conf + suffix)
            &&& name is Some ==> crate::handover::disabled(path) == crate::paths::renamed(
                path,
                name->0 + suffix,
            )
            &&& name is None ==> crate::handover::disabled(path) == crate::paths::renamed(
                path,
                suffix,
            )
            &&& crate::handover::enabled(path) is Some <==> name is Some
                && vstd::utf8::valid_utf8(name->0) && name->0.len() >= suffix.len()
                && name->0.skip(name->0.len() - suffix.len()) == suffix
            &&& crate::handover::enabled(path) is Some ==> crate::handover::enabled(path)->0
                == crate::paths::renamed(path, name->0.take(name->0.len() - suffix.len()))
        }),
{
    let suffix = crate::paths::bytes(".disabled"@);
    assert(Seq::<u8>::empty() + suffix =~= suffix);
}

/// A list of paths is cut at its colons, at all of them.
pub proof fn lists_are_cut_at_colons(a: Seq<u8>, b: Seq<u8>)
    ensures
        crate::handover::split_paths(a + seq![0x3au8] + b) == crate::handover::split_paths(a)
            + crate::handover::split_paths(b),
        (forall|i: int| 0 <= i < a.len() ==> #[trigger] a[i] != 0x3a)
            ==> crate::handover::split_paths(a) == seq![a],
    decreases a.len() + b.len(),
{
    let all = a + seq![0x3au8] + b;
    lemma_split_is_filled(a);
    lemma_split_is_filled(b);
    if b.len() > 0 {
        let shorter = b.drop_last();
        assert(all.drop_last() =~= a + seq![0x3au8] + shorter);
        assert(all.last() == b.last());
        lists_are_cut_at_colons(a, shorter);
        lemma_split_is_filled(shorter);
        assert(crate::handover::split_paths(all) =~= crate::handover::split_paths(a)
            + crate::handover::split_paths(b));
    } else {
        assert(all.drop_last() =~= a);
        assert(all.last() == 0x3a);
        assert(b =~= Seq::<u8>::empty());
        assert(crate::handover::split_paths(all) =~= crate::handover::split_paths(a)
            + crate::handover::split_paths(b));
    }
    if forall|i: int| 0 <= i < a.len() ==> #[trigger] a[i] != 0x3a {
        lemma_whole(a);
    }
}

/// There is at least one piece.
proof fn lemma_split_is_filled(list: Seq<u8>)
    ensures
        crate::handover::split_paths(list).len() > 0,
    decreases list.len(),
{
    if list.len() > 0 {
        lemma_split_is_filled(list.drop_last());
    }
}

/// A list without a colon is one path.
proof fn lemma_whole(list: Seq<u8>)
    requires
        forall|i: int| 0 <= i < list.len() ==> #[trigger] list[i] != 0x3a,
    ensures
        crate::handover::split_paths(list) == seq![list],
    decreases list.len(),
{
    if list.len() > 0 {
        let shorter = list.drop_last();
        assert forall|i: int| 0 <= i < shorter.len() implies #[trigger] shorter[i] != 0x3a by {
            assert(shorter[i] == list[i]);
        }
        lemma_whole(shorter);
        assert(list.last() == list[list.len() - 1]);
        assert(shorter.push(list.last()) =~= list);
        assert(crate::handover::split_paths(list) =~= seq![list]);
    }
}

/// The directories in which rules are looked for, the most important first.
pub proof fn rules_are_looked_for_in_four_places()
    ensures
        crate::handover::rule_dirs() == seq![
            crate::paths::bytes("/etc/binfmt.d"@),
            crate::paths::bytes("/run/binfmt.d"@),
            crate::paths::bytes("/usr/local/lib/binfmt.d"@),
            crate::paths::bytes("/usr/lib/binfmt.d"@),
        ],
{
}

/// The configuration files that are applied are those of the directories that
/// have one, whatever else is there.
pub proof fn applied_files_are_those_that_are_there(dirs: Seq<ConfDir>, path: Seq<u8>)
    ensures
        crate::handover::installed_in(dirs).contains(path) <==> exists|i: int|
            0 <= i < dirs.len() && (#[trigger] dirs[i]).has_conf && path
                == crate::handover::conf_in(dirs[i].path@),
    decreases dirs.len(),
{
    if dirs.len() > 0 {
        let shorter = dirs.drop_last();
        let front = crate::handover::installed_in(shorter);
        let all = crate::handover::installed_in(dirs);
        applied_files_are_those_that_are_there(shorter, path);
        if all.contains(path) {
            let k = choose|k: int| 0 <= k < all.len() && all[k] == path;
            if k < front.len() {
                assert(front[k] == path);
                let i = choose|i: int|
                    0 <= i < shorter.len() && (#[trigger] shorter[i]).has_conf && path
                        == crate::handover::conf_in(shorter[i].path@);
                assert(dirs[i] == shorter[i]);
            } else {
                assert(dirs[dirs.len() - 1].has_conf);
            }
        }
        if exists|i: int|
            0 <= i < dirs.len() && (#[trigger] dirs[i]).has_conf && path
                == crate::handover::conf_in(dirs[i].path@) {
            let i = choose|i: int|
                0 <= i < dirs.len() && (#[trigger] dirs[i]).has_conf && path
                    == crate::handover::conf_in(dirs[i].path@);
            if i < shorter.len() {
                assert(shorter[i] == dirs[i]);
                let k = choose|k: int| 0 <= k < front.len() && front[k] == path;
                assert(all[k] == path);
            } else {
                assert(all.last() == path);
            }
        }
    }
}

/// The configuration files that are not applied are those of the directories
/// that have one, whatever else is there.
pub proof fn switched_off_files_are_those_that_are_there(dirs: Seq<ConfDir>, path: Seq<u8>)
    ensures
        crate::handover::switched_off_in(dirs).contains(path) <==> exists|i: int|
            0 <= i < dirs.len() && (#[trigger] dirs[i]).has_disabled && path
                == crate::handover::disabled_in(dirs[i].path@),
    decreases dirs.len(),
{
    if dirs.len() > 0 {
        let shorter = dirs.drop_last();
        let front = crate::handover::switched_off_in(shorter);
        let all = crate::handover::switched_off_in(dirs);
        switched_off_files_are_those_that_are_there(shorter, path);
        if all.contains(path) {
            let k = choose|k: int| 0 <= k < all.len() && all[k] == path;
            if k < front.len() {
                assert(front[k] == path);
                let i = choose|i: int|
                    0 <= i < shorter.len() && (#[trigger] shorter[i]).has_disabled && path
                        == crate::handover::disabled_in(shorter[i].path@);
                assert(dirs[i] == shorter[i]);
            } else {
                assert(dirs[dirs.len() - 1].has_disabled);
            }
        }
        if exists|i: int|
            0 <= i < dirs.len() && (#[trigger] dirs[i]).has_disabled && path
                == crate::handover::disabled_in(dirs[i].path@) {
            let i = choose|i: int|
                0 <= i < dirs.len() && (#[trigger] dirs[i]).has_disabled && path
                    == crate::handover::disabled_in(dirs[i].path@);
            if i < shorter.len() {
                assert(shorter[i] == dirs[i]);
                let k = choose|k: int| 0 <= k < front.len() && front[k] == path;
                assert(all[k] == path);
            } else {
                assert(all.last() == path);
            }
        }
    }
}

/// A directory more adds at most its own file, behind all others.
pub proof fn files_are_listed_by_directory(dirs: Seq<ConfDir>, dir: ConfDir)
    ensures
        dir.has_conf ==> crate::handover::installed_in(dirs.push(dir))
            == crate::handover::installed_in(dirs).push(crate::handover::conf_in(dir.path@)),
        !dir.has_conf ==> crate::handover::installed_in(dirs.push(dir))
            == crate::handover::installed_in(dirs),
        dir.has_disabled ==> crate::handover::switched_off_in(dirs.push(dir))
            == crate::handover::switched_off_in(dirs).push(
            crate::handover::disabled_in(dir.path@),
        ),
        !dir.has_disabled ==> crate::handover::switched_off_in(dirs.push(dir))
            == crate::handover::switched_off_in(dirs),
{
    assert(dirs.push(dir).drop_last() =~= dirs);
}

/// Each directory that has the configuration file has it switched off by
/// stepping aside.
pub proof fn every_applied_file_is_switched_off(
    dirs: Seq<ConfDir>,
    host: HostView,
    assume_yes: bool,
    i: int,
)
    requires
        crate::paths::byte_views(host.installed@) == crate::handover::installed_in(dirs),
        0 <= i < dirs.len(),
        dirs[i].has_conf,
    ensures
        crate::handover::aside_tasks(host, assume_yes).contains(
            (TaskView::Disable {
                from: crate::handover::conf_in(dirs[i].path@),
                to: crate::handover::disabled(crate::handover::conf_in(dirs[i].path@)),
            }),
        ),
{
    let path = crate::handover::conf_in(dirs[i].path@);
    let all = crate::paths::byte_views(host.installed@);
    applied_files_are_those_that_are_there(dirs, path);
    let k = choose|k: int| 0 <= k < all.len() && all[k] == path;
    assert(host.installed@[k]@ == path);
    crate::handover::stepping_aside_is_complete(host, assume_yes);
}

/// Each directory that has the file switched off has it switched on by coming back.
pub proof fn every_switched_off_file_is_switched_on(
    dirs: Seq<ConfDir>,
    host: HostView,
    assume_yes: bool,
    i: int,
)
    requires
        crate::paths::byte_views(host.switched_off@) == crate::handover::switched_off_in(dirs),
        0 <= i < dirs.len(),
        dirs[i].has_disabled,
    ensures
        crate::handover::enabled(crate::handover::disabled_in(dirs[i].path@)) is Some,
        crate::handover::back_tasks(host, assume_yes).contains(
            (TaskView::Restore {
                from: crate::handover::disabled_in(dirs[i].path@),
                to: crate::handover::enabled(crate::handover::disabled_in(dirs[i].path@))->0,
            }),
        ),
{
    let path = crate::handover::disabled_in(dirs[i].path@);
    let all = crate::paths::byte_views(host.switched_off@);
    switched_off_files_are_those_that_are_there(dirs, path);
    let k = choose|k: int| 0 <= k < all.len() && all[k] == path;
    assert(host.switched_off@[k]@ == path);
    crate::handover::no_file_stays_switched_off(dirs, host, assume_yes);
}

/// The number of conditions that hold, of one.
pub open spec fn count(condition: bool) -> int {
    if condition {
        1
    } else {
        0
    }
}

/// Stepping aside is these tasks and no others: a warning where no qemu entry
/// is enabled, one where no file is applied, a question that fits unless it was
/// agreed before, each file switched off in its order, each entry unregistered
/// in its order, and a look at what is left.
pub proof fn stepping_aside_is_this_and_no_more(host: HostView, assume_yes: bool)
    ensures
        ({
            let tasks = crate::handover::aside_tasks(host, assume_yes);
            let no_qemu = count(host.qemu@.len() == 0);
            let told = no_qemu + count(host.installed@.len() == 0);
            let front = told + count(!assume_yes);
            let files = host.installed@.len();
            let entries = host.guard@.len();
            &&& tasks.len() == front + files + entries + 1
            &&& host.qemu@.len() == 0 ==> tasks[0] == TaskView::Tell(NoticeView::NoQemu)
            &&& host.installed@.len() == 0 ==> tasks[no_qemu] == TaskView::Tell(NoticeView::NoConf)
            &&& !assume_yes && host.qemu@.len() == 0 ==> tasks[told] == TaskView::Confirm(
                Question::StepAsideWithoutQemu,
            )
            &&& !assume_yes && host.qemu@.len() > 0 ==> tasks[told] == TaskView::Confirm(
                Question::StepAside,
            )
            &&& forall|i: int|
                0 <= i < files ==> tasks[front + i] == (TaskView::Disable {
                    from: #[trigger] host.installed@[i]@,
                    to: crate::handover::disabled(host.installed@[i]@),
                })
            &&& forall|j: int|
                0 <= j < entries ==> tasks[front + files + j] == TaskView::Unregister(
                    #[trigger] host.guard@[j]@,
                )
            &&& tasks[tasks.len() - 1] == TaskView::CheckGone
        }),
{
}

/// What is to be switched on is each file that can be, in its order.
pub proof fn restoring_goes_file_by_file(paths: Seq<Seq<u8>>, path: Seq<u8>)
    ensures
        crate::handover::restore_tasks(Seq::empty()).len() == 0,
        crate::handover::enabled(path) is Some ==> crate::handover::restore_tasks(paths.push(path))
            == crate::handover::restore_tasks(paths).push(
            (TaskView::Restore { from: path, to: crate::handover::enabled(path)->0 }),
        ),
        crate::handover::enabled(path) is None ==> crate::handover::restore_tasks(paths.push(path))
            == crate::handover::restore_tasks(paths),
{
    assert(paths.push(path).drop_last() =~= paths);
}

/// Coming back is these tasks and no others: a question unless it was agreed
/// before, what is to be switched on, and then a restart and a look at what is
/// back, or in test mode a word that neither is done.
pub proof fn coming_back_is_this_and_no_more(host: HostView, assume_yes: bool)
    ensures
        ({
            let tasks = crate::handover::back_tasks(host, assume_yes);
            let files = crate::handover::restore_tasks(
                crate::paths::byte_views(host.switched_off@),
            );
            let front = count(!assume_yes);
            &&& tasks.len() == front + files.len() + (if host.test_mode {
                1int
            } else {
                2
            })
            &&& !assume_yes ==> tasks[0] == TaskView::Confirm(Question::ComeBack)
            &&& forall|i: int| 0 <= i < files.len() ==> tasks[front + i] == #[trigger] files[i]
            &&& host.test_mode ==> tasks[front + files.len()] == TaskView::Tell(
                NoticeView::TestMode,
            )
            &&& !host.test_mode ==> tasks[front + files.len()] == TaskView::Restart && tasks[front
                + files.len() + 1] == TaskView::CheckBack
        }),
{
}

/// An action is refused for the first of these that holds, and only then: we
/// are in a chroot, in a container, or out of sight of the registry; there is
/// nothing to step aside with, or nothing left of it; or there is nothing to
/// come back from.
pub proof fn actions_are_refused_for_a_reason(assume_yes: bool, host: HostView)
    ensures
        ({
            let on = crate::handover::tasks_of(Action::On, assume_yes, host);
            let off = crate::handover::tasks_of(Action::Off, assume_yes, host);
            let here = !host.in_chroot && !host.in_container && host.registry_visible;
            let bare = host.installed@.len() == 0 && host.guard@.len() == 0;
            let aside = host.switched_off@.len() > 0;
            &&& host.in_chroot ==> on is Err && on->Err_0 is Chroot && off is Err
                && off->Err_0 is Chroot
            &&& !host.in_chroot && host.in_container ==> on is Err && on->Err_0 is Container
                && off is Err && off->Err_0 is Container
            &&& !host.in_chroot && !host.in_container && !host.registry_visible ==> on is Err
                && on->Err_0 is NoRegistry && off is Err && off->Err_0 is NoRegistry
            &&& here && bare && !aside ==> on is Err && on->Err_0 is NothingInstalled
            &&& here && bare && aside ==> on is Err && on->Err_0 is AlreadyAside
            &&& here && !bare ==> on is Ok && on->Ok_0 == crate::handover::aside_tasks(
                host,
                assume_yes,
            )
            &&& here && !aside ==> off is Err && off->Err_0 is NotAside
            &&& here && aside ==> off is Ok && off->Ok_0 == crate::handover::back_tasks(
                host,
                assume_yes,
            )
        }),
{
}

/// A task that failed ends all with what failed and why.
pub proof fn failures_end_all(
    question: Question,
    from: Seq<u8>,
    to: Seq<u8>,
    name: Seq<char>,
    err: Seq<char>,
)
    ensures
        ({
            let failed = EventView::Failed(err);
            &&& crate::handover::progress_after(TaskView::Confirm(question), failed)
                == ProgressView::Fail(RefusalView::ConfirmFailed(err))
            &&& crate::handover::progress_after(
                TaskView::Confirm(question),
                EventView::NoTerminal,
            ) == ProgressView::Fail(RefusalView::NeedsTerminal)
            &&& crate::handover::progress_after(TaskView::Disable { from, to }, failed)
                == ProgressView::Fail(RefusalView::DisableFailed(from, err))
            &&& crate::handover::progress_after(TaskView::Unregister(name), failed)
                == ProgressView::Fail(RefusalView::UnregisterFailed(name, err))
            &&& crate::handover::progress_after(TaskView::Restore { from, to }, failed)
                == ProgressView::Fail(RefusalView::RestoreFailed(from, err))
            &&& crate::handover::progress_after(TaskView::Restart, failed) == ProgressView::Fail(
                RefusalView::RestartFailed(err),
            )
            &&& crate::handover::progress_after(TaskView::Restart, EventView::BadStatus)
                == ProgressView::Fail(RefusalView::RestartStatus)
        }),
{
}

/// A look that finds what it should goes on; one that does not ends all:
/// stepping aside where an entry is left, coming back where none is there.
pub proof fn looks_must_find_what_they_should(names: Seq<Seq<char>>)
    ensures
        ({
            let seen = EventView::Entries(names);
            let gone = crate::handover::progress_after(TaskView::CheckGone, seen);
            let back = crate::handover::progress_after(TaskView::CheckBack, seen);
            &&& names.len() == 0 ==> gone is Continue && back == ProgressView::Fail(
                RefusalView::NotBack,
            )
            &&& names.len() > 0 ==> gone == ProgressView::Fail(RefusalView::Residue(names))
                && back is Continue
        }),
{
}

/// What was done, and a yes, lead on; a no ends all, without a failure.
pub proof fn success_leads_on(task: TaskView, question: Question)
    ensures
        crate::handover::progress_after(task, EventView::Done) is Continue,
        crate::handover::progress_after(
            TaskView::Confirm(question),
            EventView::Answer(true),
        ) is Continue,
        crate::handover::progress_after(
            TaskView::Confirm(question),
            EventView::Answer(false),
        ) is Stop,
{
}

/// The user is told of each change when it was done, of a no, and of how the
/// looks ended; and of nothing else, least of all where something failed.
pub proof fn changes_are_told(
    task: TaskView,
    question: Question,
    from: Seq<u8>,
    to: Seq<u8>,
    name: Seq<char>,
    names: Seq<Seq<char>>,
    err: Seq<char>,
)
    ensures
        crate::handover::notices_after(task, EventView::Failed(err)).len() == 0,
        crate::handover::notices_after(task, EventView::NoTerminal).len() == 0,
        crate::handover::notices_after(task, EventView::BadStatus).len() == 0,
        crate::handover::notices_after(
            TaskView::Confirm(question),
            EventView::Answer(true),
        ).len() == 0,
        crate::handover::notices_after(TaskView::Confirm(question), EventView::Answer(false))
            == seq![NoticeView::Cancelled],
        crate::handover::notices_after(TaskView::Disable { from, to }, EventView::Done) == seq![
            NoticeView::Disabled(from),
        ],
        crate::handover::notices_after(TaskView::Unregister(name), EventView::Done) == seq![
            NoticeView::Unregistered(name),
        ],
        crate::handover::notices_after(TaskView::Restore { from, to }, EventView::Done) == seq![
            NoticeView::Restored(to),
        ],
        crate::handover::notices_after(TaskView::Restart, EventView::Done).len() == 0,
        names.len() == 0 ==> crate::handover::notices_after(
            TaskView::CheckGone,
            EventView::Entries(names),
        ) == seq![NoticeView::Aside, NoticeView::RestoreHint] && crate::handover::notices_after(
            TaskView::CheckBack,
            EventView::Entries(names),
        ).len() == 0,
        names.len() > 0 ==> crate::handover::notices_after(
            TaskView::CheckGone,
            EventView::Entries(names),
        ).len() == 0 && crate::handover::notices_after(
            TaskView::CheckBack,
            EventView::Entries(names),
        ) == seq![NoticeView::Back(names.len())],
{
}

/// The questions are put in their own words.
pub proof fn questions_have_their_words(lang: Lang)
    ensures
        crate::handover::question_text(lang, Question::StepAside) == lang.ho_question_text(),
        crate::handover::question_text(lang, Question::StepAsideWithoutQemu)
            == lang.ho_question_no_qemu_text(),
        crate::handover::question_text(lang, Question::ComeBack) == lang.tb_question_text(),
{
}

/// A notice names what it is about, and is signed where it stands by itself.
pub proof fn notices_name_what_they_are_about(
    lang: Lang,
    path: Seq<u8>,
    name: Seq<char>,
    count: nat,
    shown: Seq<char>,
)
    ensures
        crate::text::has_part(
            crate::handover::notice_text(lang, NoticeView::Disabled(path), shown),
            shown,
        ),
        crate::text::has_part(
            crate::handover::notice_text(lang, NoticeView::Restored(path), shown),
            shown,
        ),
        crate::text::has_part(
            crate::handover::notice_text(lang, NoticeView::Unregistered(name), shown),
            name,
        ),
        crate::text::has_part(
            crate::handover::notice_text(lang, NoticeView::Back(count), shown),
            crate::text::numeral(count, 10),
        ),
        crate::handover::notice_text(lang, NoticeView::NoQemu, shown) == "aosc-exec-guard: "@
            + lang.ho_no_qemu_warning_text(),
        crate::handover::notice_text(lang, NoticeView::NoConf, shown) == "aosc-exec-guard: "@
            + lang.ho_no_conf_notice_text("zz-aosc-exec-guard.conf"@),
        crate::handover::notice_text(lang, NoticeView::Cancelled, shown) == "aosc-exec-guard: "@
            + lang.cancelled_text(),
        crate::handover::notice_text(lang, NoticeView::Aside, shown) == lang.ho_done_text(),
        crate::handover::notice_text(lang, NoticeView::RestoreHint, shown)
            == lang.ho_restore_hint_text(),
        crate::handover::notice_text(lang, NoticeView::TestMode, shown)
            == lang.tb_test_mode_text(),
{
    crate::laws::i18n::ho_disabled_holds(lang, shown);
    crate::laws::i18n::tb_restored_holds(lang, shown);
    crate::laws::i18n::ho_unregistered_holds(lang, name);
    crate::laws::i18n::tb_done_holds(lang, count);
}

/// Only what is missing is a warning, and only a file that was renamed has a path.
pub proof fn warnings_are_of_what_is_missing(notice: NoticeView)
    ensures
        notice is NoQemu || notice is NoConf <==> crate::handover::warns(notice),
        notice matches NoticeView::Disabled(path) ==> crate::handover::path_of_notice(notice)
            == Some(path),
        notice matches NoticeView::Restored(path) ==> crate::handover::path_of_notice(notice)
            == Some(path),
        !(notice is Disabled) && !(notice is Restored) ==> crate::handover::path_of_notice(
            notice,
        ) is None,
{
}

/// What a signed text holds, it holds with the signature too.
proof fn lemma_signed_holds(text: Seq<char>, part: Seq<char>)
    requires
        crate::text::has_part(text, part),
    ensures
        crate::text::has_part("aosc-exec-guard: "@ + text, part),
{
    let none = Seq::<char>::empty();
    crate::laws::text::parts_stand_between(none, part, none, text);
    let (x, y) = choose|x: Seq<char>, y: Seq<char>| text == #[trigger] (x + part + y);
    let all = "aosc-exec-guard: "@ + text;
    assert(all =~= ("aosc-exec-guard: "@ + x) + part + y);
    crate::laws::text::parts_stand_between("aosc-exec-guard: "@ + x, part, y, all);
}

/// A refusal is signed, and names what failed and why.
pub proof fn refusals_name_what_failed_and_why(
    lang: Lang,
    path: Seq<u8>,
    name: Seq<char>,
    err: Seq<char>,
    shown: Seq<char>,
)
    ensures
        ({
            let confirm = crate::handover::refusal_text(
                lang,
                RefusalView::ConfirmFailed(err),
                shown,
            );
            let disable = crate::handover::refusal_text(
                lang,
                RefusalView::DisableFailed(path, err),
                shown,
            );
            let unregister = crate::handover::refusal_text(
                lang,
                RefusalView::UnregisterFailed(name, err),
                shown,
            );
            let restore = crate::handover::refusal_text(
                lang,
                RefusalView::RestoreFailed(path, err),
                shown,
            );
            let restart = crate::handover::refusal_text(
                lang,
                RefusalView::RestartFailed(err),
                shown,
            );
            &&& crate::text::has_part(confirm, err)
            &&& crate::text::has_part(disable, shown) && crate::text::has_part(disable, err)
            &&& crate::text::has_part(unregister, name) && crate::text::has_part(unregister, err)
            &&& crate::text::has_part(restore, shown) && crate::text::has_part(restore, err)
            &&& crate::text::has_part(restart, err)
        }),
{
    crate::laws::i18n::confirm_failed_holds(lang, err);
    crate::laws::i18n::ho_disable_failed_holds(lang, shown, err);
    crate::laws::i18n::ho_unregister_failed_holds(lang, name, err);
    crate::laws::i18n::tb_restore_failed_holds(lang, shown, err);
    crate::laws::i18n::restart_failed_holds(lang, err);
    lemma_signed_holds(lang.confirm_failed_text(err), err);
    lemma_signed_holds(lang.ho_disable_failed_text(shown, err), shown);
    lemma_signed_holds(lang.ho_disable_failed_text(shown, err), err);
    lemma_signed_holds(lang.ho_unregister_failed_text(name, err), name);
    lemma_signed_holds(lang.ho_unregister_failed_text(name, err), err);
    lemma_signed_holds(lang.tb_restore_failed_text(shown, err), shown);
    lemma_signed_holds(lang.tb_restore_failed_text(shown, err), err);
    lemma_signed_holds(lang.restart_failed_text(err), err);
}

/// The refusals that name nothing have their own words.
pub proof fn refusals_have_their_words(lang: Lang, names: Seq<Seq<char>>, shown: Seq<char>)
    ensures
        ({
            let me = "aosc-exec-guard: "@;
            let conf = "zz-aosc-exec-guard.conf"@;
            &&& crate::handover::refusal_text(lang, RefusalView::Chroot, shown) == me
                + lang.ctx_chroot_text()
            &&& crate::handover::refusal_text(lang, RefusalView::Container, shown) == me
                + lang.ctx_container_text()
            &&& crate::handover::refusal_text(lang, RefusalView::NoRegistry, shown) == me
                + lang.ctx_no_registry_text()
            &&& crate::handover::refusal_text(lang, RefusalView::NothingInstalled, shown) == me
                + lang.ho_nothing_installed_text(conf)
            &&& crate::handover::refusal_text(lang, RefusalView::AlreadyAside, shown) == me
                + lang.ho_already_text(conf, ".disabled"@)
            &&& crate::handover::refusal_text(lang, RefusalView::NotAside, shown) == me
                + lang.tb_not_handed_text(conf, ".disabled"@)
            &&& crate::handover::refusal_text(lang, RefusalView::NeedsTerminal, shown) == me
                + lang.confirm_needs_tty_text()
            &&& crate::handover::refusal_text(lang, RefusalView::RestartStatus, shown) == me
                + lang.restart_status_failed_text()
            &&& crate::handover::refusal_text(lang, RefusalView::NotBack, shown) == me
                + lang.tb_verify_failed_text()
            &&& crate::handover::refusal_text(lang, RefusalView::Residue(names), shown) == me
                + lang.ho_residue_text(
                crate::handover::listed(names, lang.list_separator_text()),
            )
        }),
{
}

/// Names are listed in order, with the separator between.
pub proof fn lists_have_separators_between(
    names: Seq<Seq<char>>,
    name: Seq<char>,
    separator: Seq<char>,
)
    ensures
        crate::handover::listed(Seq::empty(), separator).len() == 0,
        crate::handover::listed(seq![name], separator) == name,
        names.len() > 0 ==> crate::handover::listed(names.push(name), separator)
            == crate::handover::listed(names, separator) + separator + name,
{
    assert(names.push(name).drop_last() =~= names);
}

/// Only a file that was not renamed has a path in a refusal.
pub proof fn refused_files_have_paths(refusal: RefusalView)
    ensures
        refusal matches RefusalView::DisableFailed(path, _) ==> crate::handover::path_of_refusal(
            refusal,
        ) == Some(path),
        refusal matches RefusalView::RestoreFailed(path, _) ==> crate::handover::path_of_refusal(
            refusal,
        ) == Some(path),
        !(refusal is DisableFailed) && !(refusal is RestoreFailed)
            ==> crate::handover::path_of_refusal(refusal) is None,
{
}

/// A pinned list is looked through in place of the usual directories.
pub proof fn pinned_directories_are_taken(list: Seq<u8>)
    ensures
        crate::handover::dirs_to_look_in(Some(list)) == crate::handover::split_paths(list),
        crate::handover::dirs_to_look_in(None) == crate::handover::rule_dirs(),
{
}

} // verus!
