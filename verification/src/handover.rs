//! Stepping aside, and coming back.
//!
//! This program stands before the kernel's own qemu entries, and to hand a
//! program on it has to see the emulator, which in chroots and containers it
//! often does not, where the kernel would not have to. Stepping aside is to
//! unregister its entries and to rename its configuration files so that they
//! are not applied again; coming back is to rename them back and to have them
//! applied. Either is done on the host alone.
//!
//! What is to be done is laid out as a list of tasks ([`run`]). They are
//! performed elsewhere, one at a time, and what came of each decides whether
//! the next one is ([`Session`]).

use vstd::prelude::*;
use vstd::string::*;

use crate::guard::sign;
use crate::i18n::Lang;
use crate::paths::{copy_bytes, get_file_name, join, strip_suffix, to_bytes, with_file_name};

verus! {

/// What to do.
#[derive(Debug, Clone, Copy, PartialEq, Eq, Structural)]
pub enum Action {
    /// Step aside.
    On,
    /// Come back.
    Off,
}

/// `std::str::from_utf8` accepts exactly the bytes that are valid UTF-8.
#[verifier::external_body]
fn is_utf8(bytes: &[u8]) -> (r: bool)
    ensures
        r == vstd::utf8::valid_utf8(bytes@),
{
    std::str::from_utf8(bytes).is_ok()
}

/// The name of the configuration file.
pub open spec fn conf_name() -> Seq<char> {
    "zz-aosc-exec-guard.conf"@
}

/// What is behind the name of a configuration file that is not applied.
pub open spec fn disabled_suffix() -> Seq<char> {
    ".disabled"@
}

/// The path of a configuration file while it is not applied.
pub open spec fn disabled(conf: Seq<u8>) -> Seq<u8> {
    let name = match crate::paths::file_name(conf) {
        Some(name) => name,
        None => Seq::empty(),
    };
    crate::paths::renamed(conf, name + crate::paths::bytes(disabled_suffix()))
}

/// The path of a configuration file while it is applied, from its path while
/// it is not.
pub open spec fn enabled(path: Seq<u8>) -> Option<Seq<u8>> {
    let suffix = crate::paths::bytes(disabled_suffix());
    match crate::paths::file_name(path) {
        Some(name) => if vstd::utf8::valid_utf8(name) && crate::paths::has_suffix(name, suffix) {
            Some(crate::paths::renamed(path, name.take(name.len() - suffix.len())))
        } else {
            None
        },
        None => None,
    }
}

/// The path of a configuration file while it is not applied: only files whose
/// names end in `.conf` are.
pub fn disabled_path(conf: &[u8]) -> (r: Vec<u8>)
    ensures
        r@ == disabled(conf@),
{
    let mut name: Vec<u8> = match get_file_name(conf) {
        Some(name) => name,
        None => Vec::new(),
    };
    let ghost stem = name@;
    let mut suffix = to_bytes(".disabled");
    name.append(&mut suffix);
    proof {
        assert(name@ =~= stem + crate::paths::bytes(disabled_suffix()));
        assert(crate::paths::file_name(conf@) is None ==> stem =~= Seq::<u8>::empty());
    }
    with_file_name(conf, name.as_slice())
}

/// The path of a configuration file while it is applied, where `disabled` is
/// one while it is not.
pub fn enabled_path(disabled: &[u8]) -> (r: Option<Vec<u8>>)
    ensures
        crate::qemu::bytes_view(r) == enabled(disabled@),
{
    match get_file_name(disabled) {
        Some(name) => {
            if !is_utf8(name.as_slice()) {
                return None;
            }
            match strip_suffix(name.as_slice(), to_bytes(".disabled").as_slice()) {
                Some(stem) => Some(with_file_name(disabled, stem.as_slice())),
                None => None,
            }
        },
        None => None,
    }
}

/// A list of paths, cut at its colons.
pub open spec fn split_paths(list: Seq<u8>) -> Seq<Seq<u8>>
    decreases list.len(),
{
    if list.len() == 0 {
        seq![list]
    } else {
        let front = split_paths(list.drop_last());
        if list.last() == 0x3a {
            front.push(Seq::empty())
        } else {
            front.drop_last().push(front.last().push(list.last()))
        }
    }
}

/// The directories in which rules are looked for.
pub open spec fn rule_dirs() -> Seq<Seq<u8>> {
    seq![
        crate::paths::bytes("/etc/binfmt.d"@),
        crate::paths::bytes("/run/binfmt.d"@),
        crate::paths::bytes("/usr/local/lib/binfmt.d"@),
        crate::paths::bytes("/usr/lib/binfmt.d"@),
    ]
}

/// The directories to look in: those of a pinned list, or else the usual ones.
pub open spec fn dirs_to_look_in(pinned: Option<Seq<u8>>) -> Seq<Seq<u8>> {
    match pinned {
        Some(list) => split_paths(list),
        None => rule_dirs(),
    }
}

/// The directories in which rules are looked for, unless a list of others is pinned.
pub fn conf_dirs(pinned: Option<&[u8]>) -> (r: Vec<Vec<u8>>)
    ensures
        crate::paths::byte_views(r@) == match pinned {
            Some(list) => split_paths(list@),
            None => rule_dirs(),
        },
        crate::paths::byte_views(r@) == dirs_to_look_in(crate::config::bytes_set(pinned)),
{
    let mut r: Vec<Vec<u8>> = Vec::new();
    match pinned {
        Some(list) => {
            let mut piece: Vec<u8> = Vec::new();
            let mut i: usize = 0;
            proof {
                assert(list@.take(0) =~= Seq::<u8>::empty());
                assert(crate::paths::byte_views(r@).push(piece@) =~= split_paths(list@.take(0)));
            }
            while i < list.len()
                invariant
                    i <= list@.len(),
                    crate::paths::byte_views(r@).push(piece@) == split_paths(list@.take(i as int)),
                decreases list@.len() - i,
            {
                let ghost was = r@;
                let ghost old_piece = piece@;
                let ghost front = split_paths(list@.take(i as int));
                proof {
                    assert(list@.take(i + 1).drop_last() =~= list@.take(i as int));
                    assert(front.drop_last() =~= crate::paths::byte_views(was));
                    assert(front.last() == old_piece);
                }
                if list[i] == 0x3a {
                    r.push(piece);
                    piece = Vec::new();
                    proof {
                        assert(crate::paths::byte_views(r@) =~= crate::paths::byte_views(was).push(
                            old_piece,
                        ));
                        assert(piece@ =~= Seq::<u8>::empty());
                    }
                } else {
                    piece.push(list[i]);
                }
                i += 1;
            }
            let ghost was = r@;
            let ghost last = piece@;
            r.push(piece);
            proof {
                assert(list@.take(i as int) =~= list@);
                assert(crate::paths::byte_views(r@) =~= crate::paths::byte_views(was).push(last));
            }
        },
        None => {
            r.push(to_bytes("/etc/binfmt.d"));
            r.push(to_bytes("/run/binfmt.d"));
            r.push(to_bytes("/usr/local/lib/binfmt.d"));
            r.push(to_bytes("/usr/lib/binfmt.d"));
            proof {
                assert(crate::paths::byte_views(r@) =~= rule_dirs());
            }
        },
    }
    r
}

/// The path of the configuration file in `dir`.
pub open spec fn conf_in(dir: Seq<u8>) -> Seq<u8> {
    crate::paths::joined(dir, crate::paths::bytes(conf_name()))
}

/// The path of the configuration file in `dir` while it is not applied.
pub open spec fn disabled_in(dir: Seq<u8>) -> Seq<u8> {
    crate::paths::joined(
        dir,
        crate::paths::bytes(conf_name()) + crate::paths::bytes(disabled_suffix()),
    )
}

/// The path of the configuration file in `dir`.
pub fn conf_path(dir: &Vec<u8>) -> (r: Vec<u8>)
    ensures
        r@ == conf_in(dir@),
{
    join(dir.as_slice(), to_bytes("zz-aosc-exec-guard.conf").as_slice())
}

/// The path of the configuration file in `dir` while it is not applied.
pub fn disabled_conf_path(dir: &Vec<u8>) -> (r: Vec<u8>)
    ensures
        r@ == disabled_in(dir@),
{
    let mut name = to_bytes("zz-aosc-exec-guard.conf");
    let mut suffix = to_bytes(".disabled");
    name.append(&mut suffix);
    proof {
        assert(name@ =~= crate::paths::bytes(conf_name()) + crate::paths::bytes(disabled_suffix()));
    }
    join(dir.as_slice(), name.as_slice())
}

/// A directory of rules, and which files of ours are there.
#[derive(Debug)]
pub struct ConfDir {
    /// Its path.
    pub path: Vec<u8>,
    /// [`conf_path`] is there.
    pub has_conf: bool,
    /// [`disabled_conf_path`] is there.
    pub has_disabled: bool,
}

/// The configuration files that are applied.
pub open spec fn installed_in(dirs: Seq<ConfDir>) -> Seq<Seq<u8>>
    decreases dirs.len(),
{
    if dirs.len() == 0 {
        Seq::empty()
    } else if dirs.last().has_conf {
        installed_in(dirs.drop_last()).push(conf_in(dirs.last().path@))
    } else {
        installed_in(dirs.drop_last())
    }
}

/// The configuration files that are not applied.
pub open spec fn switched_off_in(dirs: Seq<ConfDir>) -> Seq<Seq<u8>>
    decreases dirs.len(),
{
    if dirs.len() == 0 {
        Seq::empty()
    } else if dirs.last().has_disabled {
        switched_off_in(dirs.drop_last()).push(disabled_in(dirs.last().path@))
    } else {
        switched_off_in(dirs.drop_last())
    }
}

/// The configuration files that are applied, and those that are not, in the
/// order of the directories.
pub fn conf_files(dirs: &Vec<ConfDir>) -> (r: (Vec<Vec<u8>>, Vec<Vec<u8>>))
    ensures
        crate::paths::byte_views(r.0@) == installed_in(dirs@),
        crate::paths::byte_views(r.1@) == switched_off_in(dirs@),
{
    let mut installed: Vec<Vec<u8>> = Vec::new();
    let mut switched_off: Vec<Vec<u8>> = Vec::new();
    let mut i: usize = 0;
    proof {
        assert(crate::paths::byte_views(installed@) =~= installed_in(dirs@.take(0)));
        assert(crate::paths::byte_views(switched_off@) =~= switched_off_in(dirs@.take(0)));
    }
    while i < dirs.len()
        invariant
            i <= dirs@.len(),
            crate::paths::byte_views(installed@) == installed_in(dirs@.take(i as int)),
            crate::paths::byte_views(switched_off@) == switched_off_in(dirs@.take(i as int)),
        decreases dirs@.len() - i,
    {
        let ghost was = (installed@, switched_off@);
        proof {
            assert(dirs@.take(i + 1).drop_last() =~= dirs@.take(i as int));
        }
        if dirs[i].has_conf {
            installed.push(conf_path(&dirs[i].path));
            proof {
                assert(crate::paths::byte_views(installed@) =~= crate::paths::byte_views(
                    was.0,
                ).push(conf_in(dirs@[i as int].path@)));
            }
        }
        if dirs[i].has_disabled {
            switched_off.push(disabled_conf_path(&dirs[i].path));
            proof {
                assert(crate::paths::byte_views(switched_off@) =~= crate::paths::byte_views(
                    was.1,
                ).push(disabled_in(dirs@[i as int].path@)));
            }
        }
        i += 1;
    }
    proof {
        assert(dirs@.take(i as int) =~= dirs@);
    }
    (installed, switched_off)
}

/// Something to tell the user.
#[derive(Debug)]
pub enum Notice {
    /// No qemu entry is enabled.
    NoQemu,
    /// No configuration file was found.
    NoConf,
    /// The user declined.
    Cancelled,
    /// This configuration file is no longer applied.
    Disabled(Vec<u8>),
    /// This entry is no longer registered.
    Unregistered(String),
    /// We have stepped aside.
    Aside,
    /// How to come back.
    RestoreHint,
    /// This configuration file is applied again.
    Restored(Vec<u8>),
    /// The service was left alone.
    TestMode,
    /// So many entries are registered again.
    Back(usize),
}

/// What a notice says.
pub enum NoticeView {
    /// See [`Notice::NoQemu`].
    NoQemu,
    /// See [`Notice::NoConf`].
    NoConf,
    /// See [`Notice::Cancelled`].
    Cancelled,
    /// See [`Notice::Disabled`].
    Disabled(Seq<u8>),
    /// See [`Notice::Unregistered`].
    Unregistered(Seq<char>),
    /// See [`Notice::Aside`].
    Aside,
    /// See [`Notice::RestoreHint`].
    RestoreHint,
    /// See [`Notice::Restored`].
    Restored(Seq<u8>),
    /// See [`Notice::TestMode`].
    TestMode,
    /// See [`Notice::Back`].
    Back(nat),
}

impl View for Notice {
    type V = NoticeView;

    open spec fn view(&self) -> NoticeView {
        match self {
            Notice::NoQemu => NoticeView::NoQemu,
            Notice::NoConf => NoticeView::NoConf,
            Notice::Cancelled => NoticeView::Cancelled,
            Notice::Disabled(path) => NoticeView::Disabled(path@),
            Notice::Unregistered(name) => NoticeView::Unregistered(name@),
            Notice::Aside => NoticeView::Aside,
            Notice::RestoreHint => NoticeView::RestoreHint,
            Notice::Restored(path) => NoticeView::Restored(path@),
            Notice::TestMode => NoticeView::TestMode,
            Notice::Back(count) => NoticeView::Back(*count as nat),
        }
    }
}

/// What each of a list of notices says.
pub open spec fn notice_views(list: Seq<Notice>) -> Seq<NoticeView> {
    list.map_values(|n: Notice| n@)
}

/// Why something was not done.
#[derive(Debug)]
pub enum Refusal {
    /// This is a chroot: the registry is the host's, the files are not.
    Chroot,
    /// This is a container.
    Container,
    /// The registry is out of sight.
    NoRegistry,
    /// There is neither an entry nor a configuration file.
    NothingInstalled,
    /// We have stepped aside already.
    AlreadyAside,
    /// We have not stepped aside.
    NotAside,
    /// Nobody can be asked here.
    NeedsTerminal,
    /// Asking failed, and why.
    ConfirmFailed(String),
    /// This configuration file could not be switched off, and why.
    DisableFailed(Vec<u8>, String),
    /// This entry could not be unregistered, and why.
    UnregisterFailed(String, String),
    /// These entries are left.
    Residue(Vec<String>),
    /// This configuration file could not be switched on, and why.
    RestoreFailed(Vec<u8>, String),
    /// The service manager could not be run, and why.
    RestartFailed(String),
    /// The service did not restart.
    RestartStatus,
    /// No entry is registered again.
    NotBack,
}

/// What a refusal says.
pub enum RefusalView {
    /// See [`Refusal::Chroot`].
    Chroot,
    /// See [`Refusal::Container`].
    Container,
    /// See [`Refusal::NoRegistry`].
    NoRegistry,
    /// See [`Refusal::NothingInstalled`].
    NothingInstalled,
    /// See [`Refusal::AlreadyAside`].
    AlreadyAside,
    /// See [`Refusal::NotAside`].
    NotAside,
    /// See [`Refusal::NeedsTerminal`].
    NeedsTerminal,
    /// See [`Refusal::ConfirmFailed`].
    ConfirmFailed(Seq<char>),
    /// See [`Refusal::DisableFailed`].
    DisableFailed(Seq<u8>, Seq<char>),
    /// See [`Refusal::UnregisterFailed`].
    UnregisterFailed(Seq<char>, Seq<char>),
    /// See [`Refusal::Residue`].
    Residue(Seq<Seq<char>>),
    /// See [`Refusal::RestoreFailed`].
    RestoreFailed(Seq<u8>, Seq<char>),
    /// See [`Refusal::RestartFailed`].
    RestartFailed(Seq<char>),
    /// See [`Refusal::RestartStatus`].
    RestartStatus,
    /// See [`Refusal::NotBack`].
    NotBack,
}

impl View for Refusal {
    type V = RefusalView;

    open spec fn view(&self) -> RefusalView {
        match self {
            Refusal::Chroot => RefusalView::Chroot,
            Refusal::Container => RefusalView::Container,
            Refusal::NoRegistry => RefusalView::NoRegistry,
            Refusal::NothingInstalled => RefusalView::NothingInstalled,
            Refusal::AlreadyAside => RefusalView::AlreadyAside,
            Refusal::NotAside => RefusalView::NotAside,
            Refusal::NeedsTerminal => RefusalView::NeedsTerminal,
            Refusal::ConfirmFailed(err) => RefusalView::ConfirmFailed(err@),
            Refusal::DisableFailed(path, err) => RefusalView::DisableFailed(path@, err@),
            Refusal::UnregisterFailed(name, err) => RefusalView::UnregisterFailed(name@, err@),
            Refusal::Residue(names) => RefusalView::Residue(crate::qemu::string_views(names@)),
            Refusal::RestoreFailed(path, err) => RefusalView::RestoreFailed(path@, err@),
            Refusal::RestartFailed(err) => RefusalView::RestartFailed(err@),
            Refusal::RestartStatus => RefusalView::RestartStatus,
            Refusal::NotBack => RefusalView::NotBack,
        }
    }
}

/// A question to the user.
#[derive(Debug, Clone, Copy, PartialEq, Eq, Structural)]
pub enum Question {
    /// Whether to step aside.
    StepAside,
    /// Whether to step aside though no qemu entry is enabled.
    StepAsideWithoutQemu,
    /// Whether to come back.
    ComeBack,
}

/// Something to do.
#[derive(Debug)]
pub enum Task {
    /// Tell the user.
    Tell(Notice),
    /// Ask the user.
    Confirm(Question),
    /// Rename a configuration file so that it is not applied.
    Disable {
        /// Its path now.
        from: Vec<u8>,
        /// Its path then.
        to: Vec<u8>,
    },
    /// Unregister an entry.
    Unregister(String),
    /// See which of our entries are left.
    CheckGone,
    /// Rename a configuration file so that it is applied.
    Restore {
        /// Its path now.
        from: Vec<u8>,
        /// Its path then.
        to: Vec<u8>,
    },
    /// Restart the service that applies configuration files.
    Restart,
    /// See which of our entries are registered again.
    CheckBack,
}

/// What is to be done.
pub enum TaskView {
    /// See [`Task::Tell`].
    Tell(NoticeView),
    /// See [`Task::Confirm`].
    Confirm(Question),
    /// See [`Task::Disable`].
    Disable {
        /// The path now.
        from: Seq<u8>,
        /// The path then.
        to: Seq<u8>,
    },
    /// See [`Task::Unregister`].
    Unregister(Seq<char>),
    /// See [`Task::CheckGone`].
    CheckGone,
    /// See [`Task::Restore`].
    Restore {
        /// The path now.
        from: Seq<u8>,
        /// The path then.
        to: Seq<u8>,
    },
    /// See [`Task::Restart`].
    Restart,
    /// See [`Task::CheckBack`].
    CheckBack,
}

impl View for Task {
    type V = TaskView;

    open spec fn view(&self) -> TaskView {
        match self {
            Task::Tell(notice) => TaskView::Tell(notice@),
            Task::Confirm(question) => TaskView::Confirm(*question),
            Task::Disable { from, to } => TaskView::Disable { from: from@, to: to@ },
            Task::Unregister(name) => TaskView::Unregister(name@),
            Task::CheckGone => TaskView::CheckGone,
            Task::Restore { from, to } => TaskView::Restore { from: from@, to: to@ },
            Task::Restart => TaskView::Restart,
            Task::CheckBack => TaskView::CheckBack,
        }
    }
}

/// What each of a list of tasks is.
pub open spec fn task_views(list: Seq<Task>) -> Seq<TaskView> {
    list.map_values(|t: Task| t@)
}

/// What came of a task.
#[derive(Debug)]
pub enum Event {
    /// It was done.
    Done,
    /// It failed, and why.
    Failed(String),
    /// The user answered yes or no.
    Answer(bool),
    /// There is no terminal to ask on.
    NoTerminal,
    /// The service manager ran and failed.
    BadStatus,
    /// These entries of ours are registered.
    Entries(Vec<String>),
}

/// What came of a task.
pub enum EventView {
    /// See [`Event::Done`].
    Done,
    /// See [`Event::Failed`].
    Failed(Seq<char>),
    /// See [`Event::Answer`].
    Answer(bool),
    /// See [`Event::NoTerminal`].
    NoTerminal,
    /// See [`Event::BadStatus`].
    BadStatus,
    /// See [`Event::Entries`].
    Entries(Seq<Seq<char>>),
}

impl View for Event {
    type V = EventView;

    open spec fn view(&self) -> EventView {
        match self {
            Event::Done => EventView::Done,
            Event::Failed(err) => EventView::Failed(err@),
            Event::Answer(yes) => EventView::Answer(*yes),
            Event::NoTerminal => EventView::NoTerminal,
            Event::BadStatus => EventView::BadStatus,
            Event::Entries(names) => EventView::Entries(crate::qemu::string_views(names@)),
        }
    }
}

/// Whether to go on.
#[derive(Debug)]
pub enum Progress {
    /// With the next task.
    Continue,
    /// No more: the user does not want it.
    Stop,
    /// No more: it failed.
    Fail(Refusal),
}

/// Whether to go on.
pub enum ProgressView {
    /// See [`Progress::Continue`].
    Continue,
    /// See [`Progress::Stop`].
    Stop,
    /// See [`Progress::Fail`].
    Fail(RefusalView),
}

impl View for Progress {
    type V = ProgressView;

    open spec fn view(&self) -> ProgressView {
        match self {
            Progress::Continue => ProgressView::Continue,
            Progress::Stop => ProgressView::Stop,
            Progress::Fail(why) => ProgressView::Fail(why@),
        }
    }
}

/// Something that can come of a task.
pub open spec fn can_come_of(task: TaskView, event: EventView) -> bool {
    match task {
        TaskView::Tell(_) => event is Done,
        TaskView::Confirm(_) => event is Answer || event is NoTerminal || event is Failed,
        TaskView::Disable { .. } => event is Done || event is Failed,
        TaskView::Unregister(_) => event is Done || event is Failed,
        TaskView::CheckGone => event is Entries,
        TaskView::Restore { .. } => event is Done || event is Failed,
        TaskView::Restart => event is Done || event is Failed || event is BadStatus,
        TaskView::CheckBack => event is Entries,
    }
}

/// Whether to go on after `event` came of `task`: nothing is done after a
/// failure, nor where the user declined.
pub open spec fn progress_after(task: TaskView, event: EventView) -> ProgressView {
    match (task, event) {
        (TaskView::Confirm(_), EventView::Answer(yes)) => if yes {
            ProgressView::Continue
        } else {
            ProgressView::Stop
        },
        (TaskView::Confirm(_), EventView::NoTerminal) => ProgressView::Fail(
            RefusalView::NeedsTerminal,
        ),
        (TaskView::Confirm(_), EventView::Failed(err)) => ProgressView::Fail(
            RefusalView::ConfirmFailed(err),
        ),
        (TaskView::Disable { from, .. }, EventView::Failed(err)) => ProgressView::Fail(
            RefusalView::DisableFailed(from, err),
        ),
        (TaskView::Unregister(name), EventView::Failed(err)) => ProgressView::Fail(
            RefusalView::UnregisterFailed(name, err),
        ),
        (TaskView::CheckGone, EventView::Entries(names)) => if names.len() == 0 {
            ProgressView::Continue
        } else {
            ProgressView::Fail(RefusalView::Residue(names))
        },
        (TaskView::Restore { from, .. }, EventView::Failed(err)) => ProgressView::Fail(
            RefusalView::RestoreFailed(from, err),
        ),
        (TaskView::Restart, EventView::Failed(err)) => ProgressView::Fail(
            RefusalView::RestartFailed(err),
        ),
        (TaskView::Restart, EventView::BadStatus) => ProgressView::Fail(
            RefusalView::RestartStatus,
        ),
        (TaskView::CheckBack, EventView::Entries(names)) => if names.len() == 0 {
            ProgressView::Fail(RefusalView::NotBack)
        } else {
            ProgressView::Continue
        },
        _ => ProgressView::Continue,
    }
}

/// What to tell after `event` came of `task`.
pub open spec fn notices_after(task: TaskView, event: EventView) -> Seq<NoticeView> {
    match (task, event) {
        (TaskView::Confirm(_), EventView::Answer(false)) => seq![NoticeView::Cancelled],
        (TaskView::Disable { from, .. }, EventView::Done) => seq![NoticeView::Disabled(from)],
        (TaskView::Unregister(name), EventView::Done) => seq![NoticeView::Unregistered(name)],
        (TaskView::CheckGone, EventView::Entries(names)) => if names.len() == 0 {
            seq![NoticeView::Aside, NoticeView::RestoreHint]
        } else {
            Seq::empty()
        },
        (TaskView::Restore { to, .. }, EventView::Done) => seq![NoticeView::Restored(to)],
        (TaskView::CheckBack, EventView::Entries(names)) => if names.len() > 0 {
            seq![NoticeView::Back(names.len())]
        } else {
            Seq::empty()
        },
        _ => Seq::empty(),
    }
}

/// Judges what came of a task: whether to go on, and what to tell.
fn judge(task: &Task, event: Event) -> (r: (Progress, Vec<Notice>))
    requires
        can_come_of(task@, event@),
    ensures
        r.0@ == progress_after(task@, event@),
        notice_views(r.1@) == notices_after(task@, event@),
{
    let ghost came = event@;
    let mut tell: Vec<Notice> = Vec::new();
    let progress = match (task, event) {
        (Task::Confirm(_), Event::Answer(yes)) => {
            if yes {
                Progress::Continue
            } else {
                tell.push(Notice::Cancelled);
                Progress::Stop
            }
        },
        (Task::Confirm(_), Event::NoTerminal) => Progress::Fail(Refusal::NeedsTerminal),
        (Task::Confirm(_), Event::Failed(err)) => Progress::Fail(Refusal::ConfirmFailed(err)),
        (Task::Disable { from, .. }, Event::Done) => {
            tell.push(Notice::Disabled(copy_bytes(from)));
            Progress::Continue
        },
        (Task::Disable { from, .. }, Event::Failed(err)) => Progress::Fail(
            Refusal::DisableFailed(copy_bytes(from), err),
        ),
        (Task::Unregister(name), Event::Done) => {
            tell.push(Notice::Unregistered(name.clone()));
            Progress::Continue
        },
        (Task::Unregister(name), Event::Failed(err)) => Progress::Fail(
            Refusal::UnregisterFailed(name.clone(), err),
        ),
        (Task::CheckGone, Event::Entries(names)) => {
            if names.len() == 0 {
                tell.push(Notice::Aside);
                tell.push(Notice::RestoreHint);
                Progress::Continue
            } else {
                Progress::Fail(Refusal::Residue(names))
            }
        },
        (Task::Restore { to, .. }, Event::Done) => {
            tell.push(Notice::Restored(copy_bytes(to)));
            Progress::Continue
        },
        (Task::Restore { from, .. }, Event::Failed(err)) => Progress::Fail(
            Refusal::RestoreFailed(copy_bytes(from), err),
        ),
        (Task::Restart, Event::Failed(err)) => Progress::Fail(Refusal::RestartFailed(err)),
        (Task::Restart, Event::BadStatus) => Progress::Fail(Refusal::RestartStatus),
        (Task::CheckBack, Event::Entries(names)) => {
            if names.len() == 0 {
                Progress::Fail(Refusal::NotBack)
            } else {
                tell.push(Notice::Back(names.len()));
                Progress::Continue
            }
        },
        _ => Progress::Continue,
    };
    proof {
        assert(notice_views(tell@) =~= notices_after(task@, came));
    }
    (progress, tell)
}

/// What was seen of the host.
#[derive(Debug)]
pub struct HostView {
    /// This is a chroot.
    pub in_chroot: bool,
    /// This is a container.
    pub in_container: bool,
    /// The registry is in sight.
    pub registry_visible: bool,
    /// The registry is pinned to another place, and no service serves it.
    pub test_mode: bool,
    /// The configuration files that are applied.
    pub installed: Vec<Vec<u8>>,
    /// The configuration files that are not.
    pub switched_off: Vec<Vec<u8>>,
    /// Our entries.
    pub guard: Vec<String>,
    /// The enabled qemu entries.
    pub qemu: Vec<String>,
}

/// Why nothing can be done here, if so: the registry, the files and the
/// restart must be those of one system.
pub open spec fn refusal_here(host: HostView) -> Option<RefusalView> {
    if host.in_chroot {
        Some(RefusalView::Chroot)
    } else if host.in_container {
        Some(RefusalView::Container)
    } else if !host.registry_visible {
        Some(RefusalView::NoRegistry)
    } else {
        None
    }
}

/// Whether this is the host, where something can be done.
pub fn check_host_context(host: &HostView) -> (r: Result<(), Refusal>)
    ensures
        match (r, refusal_here(*host)) {
            (Err(why), Some(expected)) => why@ == expected,
            (Ok(_), None) => true,
            _ => false,
        },
{
    if host.in_chroot {
        Err(Refusal::Chroot)
    } else if host.in_container {
        Err(Refusal::Container)
    } else if !host.registry_visible {
        Err(Refusal::NoRegistry)
    } else {
        Ok(())
    }
}

/// A list of one task, or of none.
pub open spec fn task_if(condition: bool, task: TaskView) -> Seq<TaskView> {
    if condition {
        seq![task]
    } else {
        Seq::empty()
    }
}

/// Switching off each of `confs`.
pub open spec fn disable_tasks(confs: Seq<Seq<u8>>) -> Seq<TaskView> {
    confs.map_values(|conf: Seq<u8>| TaskView::Disable { from: conf, to: disabled(conf) })
}

/// Unregistering each of `names`.
pub open spec fn unregister_tasks(names: Seq<Seq<char>>) -> Seq<TaskView> {
    names.map_values(|name: Seq<char>| TaskView::Unregister(name))
}

/// Switching on each of `paths` that is a configuration file switched off.
pub open spec fn restore_tasks(paths: Seq<Seq<u8>>) -> Seq<TaskView>
    decreases paths.len(),
{
    if paths.len() == 0 {
        Seq::empty()
    } else {
        match enabled(paths.last()) {
            Some(conf) => restore_tasks(paths.drop_last()).push(
                TaskView::Restore { from: paths.last(), to: conf },
            ),
            None => restore_tasks(paths.drop_last()),
        }
    }
}

/// The tasks that step aside: warn of what is missing, ask unless it was
/// agreed before, switch off every configuration file, unregister every entry,
/// and see that none is left.
pub open spec fn aside_tasks(host: HostView, assume_yes: bool) -> Seq<TaskView> {
    let no_qemu = host.qemu@.len() == 0;
    task_if(no_qemu, TaskView::Tell(NoticeView::NoQemu)) + task_if(
        host.installed@.len() == 0,
        TaskView::Tell(NoticeView::NoConf),
    ) + task_if(
        !assume_yes,
        TaskView::Confirm(
            if no_qemu {
                Question::StepAsideWithoutQemu
            } else {
                Question::StepAside
            },
        ),
    ) + disable_tasks(crate::paths::byte_views(host.installed@)) + unregister_tasks(
        crate::qemu::string_views(host.guard@),
    ) + seq![TaskView::CheckGone]
}

/// The tasks that come back: ask unless it was agreed before, switch on every
/// configuration file, have them applied, and see that entries are registered.
pub open spec fn back_tasks(host: HostView, assume_yes: bool) -> Seq<TaskView> {
    task_if(!assume_yes, TaskView::Confirm(Question::ComeBack)) + restore_tasks(
        crate::paths::byte_views(host.switched_off@),
    ) + if host.test_mode {
        seq![TaskView::Tell(NoticeView::TestMode)]
    } else {
        seq![TaskView::Restart, TaskView::CheckBack]
    }
}

/// The tasks of an action, or why there is nothing to do.
pub open spec fn tasks_of(action: Action, assume_yes: bool, host: HostView) -> Result<
    Seq<TaskView>,
    RefusalView,
> {
    if refusal_here(host) is Some {
        Err(refusal_here(host)->0)
    } else {
        match action {
            Action::On => if host.installed@.len() == 0 && host.guard@.len() == 0 {
                if host.switched_off@.len() == 0 {
                    Err(RefusalView::NothingInstalled)
                } else {
                    Err(RefusalView::AlreadyAside)
                }
            } else {
                Ok(aside_tasks(host, assume_yes))
            },
            Action::Off => if host.switched_off@.len() == 0 {
                Err(RefusalView::NotAside)
            } else {
                Ok(back_tasks(host, assume_yes))
            },
        }
    }
}

/// Tasks under way.
#[derive(Debug)]
pub struct Session {
    tasks: Vec<Task>,
    at: usize,
}

impl Session {
    /// The task at hand is one of the tasks, or they are all behind.
    pub closed spec fn wf(self) -> bool {
        self.at <= self.tasks@.len()
    }

    /// The tasks that are left.
    pub closed spec fn left(self) -> Seq<TaskView> {
        task_views(self.tasks@).skip(self.at as int)
    }

    /// Starts on `tasks`.
    fn start(tasks: Vec<Task>) -> (r: Session)
        ensures
            r.wf(),
            r.left() == task_views(tasks@),
    {
        proof {
            assert(task_views(tasks@).skip(0) =~= task_views(tasks@));
        }
        Session { tasks, at: 0 }
    }

    /// The task to perform now, if any is left.
    pub fn current(&self) -> (r: Option<&Task>)
        requires
            self.wf(),
        ensures
            r is Some == (self.left().len() > 0),
            r is Some ==> r->0@ == self.left()[0],
    {
        if self.at < self.tasks.len() {
            Some(&self.tasks[self.at])
        } else {
            None
        }
    }

    /// Takes note of what came of the task at hand, and says whether to go on
    /// and what to tell. Where it is not to go on, no task is left.
    pub fn report(&mut self, event: Event) -> (r: (Progress, Vec<Notice>))
        requires
            old(self).wf(),
            old(self).left().len() > 0,
            can_come_of(old(self).left()[0], event@),
        ensures
            final(self).wf(),
            r.0@ == progress_after(old(self).left()[0], event@),
            notice_views(r.1@) == notices_after(old(self).left()[0], event@),
            final(self).left() == if r.0@ is Continue {
                old(self).left().drop_first()
            } else {
                Seq::empty()
            },
    {
        let end: usize = self.tasks.len();
        let r = judge(&self.tasks[self.at], event);
        match r.0 {
            Progress::Continue => {
                self.at = self.at + 1;
            },
            _ => {
                self.at = end;
            },
        }
        proof {
            assert(self.left() =~= if r.0@ is Continue {
                old(self).left().drop_first()
            } else {
                Seq::empty()
            });
        }
        r
    }
}

/// Adds to `tasks` switching off each of `confs`.
fn push_disable(tasks: &mut Vec<Task>, confs: &Vec<Vec<u8>>)
    ensures
        task_views(final(tasks)@) == task_views(old(tasks)@) + disable_tasks(
            crate::paths::byte_views(confs@),
        ),
{
    let ghost all = disable_tasks(crate::paths::byte_views(confs@));
    let ghost start = task_views(tasks@);
    let mut i: usize = 0;
    proof {
        assert(start + all.take(0) =~= start);
    }
    while i < confs.len()
        invariant
            i <= confs@.len(),
            all == disable_tasks(crate::paths::byte_views(confs@)),
            task_views(tasks@) == start + all.take(i as int),
        decreases confs@.len() - i,
    {
        let ghost was = tasks@;
        tasks.push(
            Task::Disable {
                from: copy_bytes(&confs[i]),
                to: disabled_path(confs[i].as_slice()),
            },
        );
        proof {
            assert(task_views(tasks@) =~= task_views(was).push(all[i as int]));
            assert(start + all.take(i + 1) =~= (start + all.take(i as int)).push(all[i as int]));
        }
        i += 1;
    }
    proof {
        assert(all.take(i as int) =~= all);
    }
}

/// Adds to `tasks` unregistering each of `names`.
fn push_unregister(tasks: &mut Vec<Task>, names: &Vec<String>)
    ensures
        task_views(final(tasks)@) == task_views(old(tasks)@) + unregister_tasks(
            crate::qemu::string_views(names@),
        ),
{
    let ghost all = unregister_tasks(crate::qemu::string_views(names@));
    let ghost start = task_views(tasks@);
    let mut i: usize = 0;
    proof {
        assert(start + all.take(0) =~= start);
    }
    while i < names.len()
        invariant
            i <= names@.len(),
            all == unregister_tasks(crate::qemu::string_views(names@)),
            task_views(tasks@) == start + all.take(i as int),
        decreases names@.len() - i,
    {
        let ghost was = tasks@;
        tasks.push(Task::Unregister(names[i].clone()));
        proof {
            assert(task_views(tasks@) =~= task_views(was).push(all[i as int]));
            assert(start + all.take(i + 1) =~= (start + all.take(i as int)).push(all[i as int]));
        }
        i += 1;
    }
    proof {
        assert(all.take(i as int) =~= all);
    }
}

/// Adds to `tasks` switching on each of `paths` that is a configuration file
/// switched off.
fn push_restore(tasks: &mut Vec<Task>, paths: &Vec<Vec<u8>>)
    ensures
        task_views(final(tasks)@) == task_views(old(tasks)@) + restore_tasks(
            crate::paths::byte_views(paths@),
        ),
{
    let ghost all = crate::paths::byte_views(paths@);
    let ghost start = task_views(tasks@);
    let mut i: usize = 0;
    proof {
        assert(all.take(0) =~= Seq::<Seq<u8>>::empty());
        assert(start + restore_tasks(all.take(0)) =~= start);
    }
    while i < paths.len()
        invariant
            i <= paths@.len(),
            all == crate::paths::byte_views(paths@),
            task_views(tasks@) == start + restore_tasks(all.take(i as int)),
        decreases paths@.len() - i,
    {
        let ghost was = tasks@;
        proof {
            assert(all.take(i + 1).drop_last() =~= all.take(i as int));
            assert(all.take(i + 1).last() == paths@[i as int]@);
        }
        if let Some(conf) = enabled_path(paths[i].as_slice()) {
            let ghost to = conf@;
            tasks.push(Task::Restore { from: copy_bytes(&paths[i]), to: conf });
            proof {
                let task = TaskView::Restore { from: all[i as int], to };
                assert(task_views(tasks@) =~= task_views(was).push(task));
                assert(start + restore_tasks(all.take(i + 1)) =~= (start + restore_tasks(
                    all.take(i as int),
                )).push(task));
            }
        }
        i += 1;
    }
    proof {
        assert(all.take(i as int) =~= all);
    }
}

/// Adds a task.
fn push_task(tasks: &mut Vec<Task>, task: Task)
    ensures
        task_views(final(tasks)@) == task_views(old(tasks)@) + seq![task@],
{
    tasks.push(task);
    proof {
        assert(task_views(tasks@) =~= task_views(old(tasks)@) + seq![task@]);
    }
}

/// The tasks that step aside.
fn hand_over(assume_yes: bool, host: &HostView) -> (r: Vec<Task>)
    ensures
        task_views(r@) == aside_tasks(*host, assume_yes),
{
    let mut tasks: Vec<Task> = Vec::new();
    let none = host.qemu.len() == 0;
    if none {
        push_task(&mut tasks, Task::Tell(Notice::NoQemu));
    }
    if host.installed.len() == 0 {
        push_task(&mut tasks, Task::Tell(Notice::NoConf));
    }
    if !assume_yes {
        let question = if none {
            Question::StepAsideWithoutQemu
        } else {
            Question::StepAside
        };
        push_task(&mut tasks, Task::Confirm(question));
    }
    push_disable(&mut tasks, &host.installed);
    push_unregister(&mut tasks, &host.guard);
    push_task(&mut tasks, Task::CheckGone);
    proof {
        assert(task_views(tasks@) =~= aside_tasks(*host, assume_yes));
    }
    tasks
}

/// The tasks that come back.
fn take_back(assume_yes: bool, host: &HostView) -> (r: Vec<Task>)
    ensures
        task_views(r@) == back_tasks(*host, assume_yes),
{
    let mut tasks: Vec<Task> = Vec::new();
    if !assume_yes {
        push_task(&mut tasks, Task::Confirm(Question::ComeBack));
    }
    push_restore(&mut tasks, &host.switched_off);
    if host.test_mode {
        push_task(&mut tasks, Task::Tell(Notice::TestMode));
    } else {
        push_task(&mut tasks, Task::Restart);
        push_task(&mut tasks, Task::CheckBack);
    }
    proof {
        assert(task_views(tasks@) =~= back_tasks(*host, assume_yes));
    }
    tasks
}

/// Starts on an action, or says why there is nothing to do.
pub fn run(action: Action, assume_yes: bool, host: &HostView) -> (r: Result<Session, Refusal>)
    ensures
        match (r, tasks_of(action, assume_yes, *host)) {
            (Ok(session), Ok(tasks)) => session.wf() && session.left() == tasks,
            (Err(why), Err(expected)) => why@ == expected,
            _ => false,
        },
{
    if let Err(why) = check_host_context(host) {
        return Err(why);
    }
    match action {
        Action::On => {
            if host.installed.len() == 0 && host.guard.len() == 0 {
                if host.switched_off.len() == 0 {
                    Err(Refusal::NothingInstalled)
                } else {
                    Err(Refusal::AlreadyAside)
                }
            } else {
                Ok(Session::start(hand_over(assume_yes, host)))
            }
        },
        Action::Off => {
            if host.switched_off.len() == 0 {
                Err(Refusal::NotAside)
            } else {
                Ok(Session::start(take_back(assume_yes, host)))
            }
        },
    }
}

/// The exit status for how an action ended: 1 where it was refused or failed,
/// and 0 where all was done or the user declined.
pub open spec fn status_of(end: ProgressView) -> i32 {
    if end is Fail {
        1i32
    } else {
        0i32
    }
}

/// The exit status for how an action ended. One that [`run`] refuses ended with
/// that refusal; one that went on until no task was left ended with
/// [`Progress::Continue`].
pub fn exit_status(end: &Progress) -> (r: i32)
    ensures
        r == status_of(end@),
{
    match end {
        Progress::Fail(_) => 1,
        _ => 0,
    }
}

/// What a question says.
pub open spec fn question_text(lang: Lang, question: Question) -> Seq<char> {
    match question {
        Question::StepAside => lang.ho_question_text(),
        Question::StepAsideWithoutQemu => lang.ho_question_no_qemu_text(),
        Question::ComeBack => lang.tb_question_text(),
    }
}

/// Puts a question into words.
pub fn question_line(lang: Lang, question: Question) -> (r: &'static str)
    ensures
        r@ == question_text(lang, question),
{
    match question {
        Question::StepAside => lang.ho_question(),
        Question::StepAsideWithoutQemu => lang.ho_question_no_qemu(),
        Question::ComeBack => lang.tb_question(),
    }
}

/// What a notice says, `shown` being its path as the user is shown it.
pub open spec fn notice_text(lang: Lang, notice: NoticeView, shown: Seq<char>) -> Seq<char> {
    match notice {
        NoticeView::NoQemu => crate::guard::signed(lang.ho_no_qemu_warning_text()),
        NoticeView::NoConf => crate::guard::signed(lang.ho_no_conf_notice_text(conf_name())),
        NoticeView::Cancelled => crate::guard::signed(lang.cancelled_text()),
        NoticeView::Disabled(_) => lang.ho_disabled_text(shown),
        NoticeView::Unregistered(name) => lang.ho_unregistered_text(name),
        NoticeView::Aside => lang.ho_done_text(),
        NoticeView::RestoreHint => lang.ho_restore_hint_text(),
        NoticeView::Restored(_) => lang.tb_restored_text(shown),
        NoticeView::TestMode => lang.tb_test_mode_text(),
        NoticeView::Back(count) => lang.tb_done_text(count),
    }
}

/// Puts a notice into words. A path that it holds is shown as `shown`.
pub fn notice_line(lang: Lang, notice: &Notice, shown: &str) -> (r: String)
    ensures
        r@ == notice_text(lang, notice@, shown@),
{
    match notice {
        Notice::NoQemu => sign(lang.ho_no_qemu_warning()),
        Notice::NoConf => sign(lang.ho_no_conf_notice("zz-aosc-exec-guard.conf").as_str()),
        Notice::Cancelled => sign(lang.cancelled()),
        Notice::Disabled(_) => lang.ho_disabled(shown),
        Notice::Unregistered(name) => lang.ho_unregistered(name.as_str()),
        Notice::Aside => lang.ho_done().to_owned(),
        Notice::RestoreHint => lang.ho_restore_hint().to_owned(),
        Notice::Restored(_) => lang.tb_restored(shown),
        Notice::TestMode => lang.tb_test_mode().to_owned(),
        Notice::Back(count) => lang.tb_done(*count),
    }
}

/// A notice that is a warning.
pub open spec fn warns(notice: NoticeView) -> bool {
    notice is NoQemu || notice is NoConf
}

/// Whether a notice is a warning, which goes where errors go.
pub fn is_warning(notice: &Notice) -> (r: bool)
    ensures
        r == (notice@ is NoQemu || notice@ is NoConf),
        r == warns(notice@),
{
    match notice {
        Notice::NoQemu => true,
        Notice::NoConf => true,
        _ => false,
    }
}

/// The path that a notice is about, if it is about one.
pub open spec fn path_of_notice(notice: NoticeView) -> Option<Seq<u8>> {
    match notice {
        NoticeView::Disabled(path) => Some(path),
        NoticeView::Restored(path) => Some(path),
        _ => None,
    }
}

/// The path that a notice is about, if it is about one.
pub fn notice_path(notice: &Notice) -> (r: Option<Vec<u8>>)
    ensures
        crate::qemu::bytes_view(r) == match notice@ {
            NoticeView::Disabled(path) => Some(path),
            NoticeView::Restored(path) => Some(path),
            _ => None,
        },
        crate::qemu::bytes_view(r) == path_of_notice(notice@),
{
    match notice {
        Notice::Disabled(path) => Some(copy_bytes(path)),
        Notice::Restored(path) => Some(copy_bytes(path)),
        _ => None,
    }
}

/// `names`, with `separator` between.
pub open spec fn listed(names: Seq<Seq<char>>, separator: Seq<char>) -> Seq<char>
    decreases names.len(),
{
    if names.len() == 0 {
        Seq::empty()
    } else if names.len() == 1 {
        names[0]
    } else {
        listed(names.drop_last(), separator) + separator + names.last()
    }
}

/// `names`, with `separator` between.
fn list(names: &Vec<String>, separator: &str) -> (r: String)
    ensures
        r@ == listed(crate::qemu::string_views(names@), separator@),
{
    let ghost all = crate::qemu::string_views(names@);
    let mut r = String::new();
    let mut i: usize = 0;
    while i < names.len()
        invariant
            i <= names@.len(),
            all == crate::qemu::string_views(names@),
            r@ == listed(all.take(i as int), separator@),
        decreases names@.len() - i,
    {
        proof {
            assert(all.take(i + 1).drop_last() =~= all.take(i as int));
        }
        if i > 0 {
            r.append(separator);
        }
        r.append(names[i].as_str());
        proof {
            assert(r@ =~= listed(all.take(i + 1), separator@));
        }
        i += 1;
    }
    proof {
        assert(all.take(i as int) =~= all);
    }
    r
}

/// What a refusal says, `shown` being its path as the user is shown it.
pub open spec fn refusal_text(lang: Lang, refusal: RefusalView, shown: Seq<char>) -> Seq<char> {
    crate::guard::signed(
        match refusal {
            RefusalView::Chroot => lang.ctx_chroot_text(),
            RefusalView::Container => lang.ctx_container_text(),
            RefusalView::NoRegistry => lang.ctx_no_registry_text(),
            RefusalView::NothingInstalled => lang.ho_nothing_installed_text(conf_name()),
            RefusalView::AlreadyAside => lang.ho_already_text(conf_name(), disabled_suffix()),
            RefusalView::NotAside => lang.tb_not_handed_text(conf_name(), disabled_suffix()),
            RefusalView::NeedsTerminal => lang.confirm_needs_tty_text(),
            RefusalView::ConfirmFailed(err) => lang.confirm_failed_text(err),
            RefusalView::DisableFailed(_, err) => lang.ho_disable_failed_text(shown, err),
            RefusalView::UnregisterFailed(name, err) => lang.ho_unregister_failed_text(name, err),
            RefusalView::Residue(names) => lang.ho_residue_text(
                listed(names, lang.list_separator_text()),
            ),
            RefusalView::RestoreFailed(_, err) => lang.tb_restore_failed_text(shown, err),
            RefusalView::RestartFailed(err) => lang.restart_failed_text(err),
            RefusalView::RestartStatus => lang.restart_status_failed_text(),
            RefusalView::NotBack => lang.tb_verify_failed_text(),
        },
    )
}

/// Puts a refusal into words. A path that it holds is shown as `shown`.
pub fn refusal_line(lang: Lang, refusal: &Refusal, shown: &str) -> (r: String)
    ensures
        r@ == refusal_text(lang, refusal@, shown@),
{
    let conf = "zz-aosc-exec-guard.conf";
    let suffix = ".disabled";
    match refusal {
        Refusal::Chroot => sign(lang.ctx_chroot()),
        Refusal::Container => sign(lang.ctx_container()),
        Refusal::NoRegistry => sign(lang.ctx_no_registry()),
        Refusal::NothingInstalled => sign(lang.ho_nothing_installed(conf).as_str()),
        Refusal::AlreadyAside => sign(lang.ho_already(conf, suffix).as_str()),
        Refusal::NotAside => sign(lang.tb_not_handed(conf, suffix).as_str()),
        Refusal::NeedsTerminal => sign(lang.confirm_needs_tty()),
        Refusal::ConfirmFailed(err) => sign(lang.confirm_failed(err.as_str()).as_str()),
        Refusal::DisableFailed(_, err) => sign(
            lang.ho_disable_failed(shown, err.as_str()).as_str(),
        ),
        Refusal::UnregisterFailed(name, err) => sign(
            lang.ho_unregister_failed(name.as_str(), err.as_str()).as_str(),
        ),
        Refusal::Residue(names) => sign(
            lang.ho_residue(list(names, lang.list_separator()).as_str()).as_str(),
        ),
        Refusal::RestoreFailed(_, err) => sign(
            lang.tb_restore_failed(shown, err.as_str()).as_str(),
        ),
        Refusal::RestartFailed(err) => sign(lang.restart_failed(err.as_str()).as_str()),
        Refusal::RestartStatus => sign(lang.restart_status_failed()),
        Refusal::NotBack => sign(lang.tb_verify_failed()),
    }
}

/// The path that a refusal is about, if it is about one.
pub open spec fn path_of_refusal(refusal: RefusalView) -> Option<Seq<u8>> {
    match refusal {
        RefusalView::DisableFailed(path, _) => Some(path),
        RefusalView::RestoreFailed(path, _) => Some(path),
        _ => None,
    }
}

/// The path that a refusal is about, if it is about one.
pub fn refusal_path(refusal: &Refusal) -> (r: Option<Vec<u8>>)
    ensures
        crate::qemu::bytes_view(r) == match refusal@ {
            RefusalView::DisableFailed(path, _) => Some(path),
            RefusalView::RestoreFailed(path, _) => Some(path),
            _ => None,
        },
        crate::qemu::bytes_view(r) == path_of_refusal(refusal@),
{
    match refusal {
        Refusal::DisableFailed(path, _) => Some(copy_bytes(path)),
        Refusal::RestoreFailed(path, _) => Some(copy_bytes(path)),
        _ => None,
    }
}

/// A task that changes something.
pub open spec fn is_change(task: TaskView) -> bool {
    task is Disable || task is Unregister || task is Restore || task is Restart
}

/// The tasks that are performed where `events` come of them in turn.
pub open spec fn performed(tasks: Seq<TaskView>, events: Seq<EventView>) -> Seq<TaskView>
    decreases tasks.len(),
{
    if tasks.len() == 0 || events.len() == 0 {
        Seq::empty()
    } else if progress_after(tasks[0], events[0]) is Continue {
        seq![tasks[0]] + performed(tasks.drop_first(), events.drop_first())
    } else {
        seq![tasks[0]]
    }
}

/// How tasks end where `events` come of them in turn: with the first after
/// which it is not to go on, or with none.
pub open spec fn ended(tasks: Seq<TaskView>, events: Seq<EventView>) -> ProgressView
    decreases tasks.len(),
{
    if tasks.len() == 0 || events.len() == 0 {
        ProgressView::Continue
    } else if progress_after(tasks[0], events[0]) is Continue {
        ended(tasks.drop_first(), events.drop_first())
    } else {
        progress_after(tasks[0], events[0])
    }
}

/// How an action ends where `events` come of its tasks in turn.
pub open spec fn action_ended(
    action: Action,
    assume_yes: bool,
    host: HostView,
    events: Seq<EventView>,
) -> ProgressView {
    match tasks_of(action, assume_yes, host) {
        Ok(tasks) => ended(tasks, events),
        Err(why) => ProgressView::Fail(why),
    }
}

/// Tasks end as the last one that is performed says.
proof fn lemma_ended(tasks: Seq<TaskView>, events: Seq<EventView>)
    ensures
        performed(tasks, events).len() == 0 ==> ended(tasks, events) is Continue,
        performed(tasks, events).len() > 0 ==> ended(tasks, events) == progress_after(
            tasks[performed(tasks, events).len() - 1],
            events[performed(tasks, events).len() - 1],
        ),
    decreases tasks.len(),
{
    if tasks.len() > 0 && events.len() > 0 && progress_after(tasks[0], events[0]) is Continue {
        let rest = tasks.drop_first();
        let later = events.drop_first();
        let n = performed(rest, later).len();
        performed_in_order(rest, later);
        lemma_ended(rest, later);
        assert(performed(tasks, events).len() == n + 1);
        if n > 0 {
            assert(rest[n - 1] == tasks[n as int] && later[n - 1] == events[n as int]);
        }
    }
}

/// The exit status tells success: it is 0 exactly where the action was not
/// refused and no task that was performed failed, and 1 otherwise.
pub proof fn exit_status_tells_success(
    action: Action,
    assume_yes: bool,
    host: HostView,
    events: Seq<EventView>,
)
    ensures
        ({
            let status = status_of(action_ended(action, assume_yes, host, events));
            let tasks = tasks_of(action, assume_yes, host);
            &&& status == 0 || status == 1
            &&& status == 0 <==> tasks is Ok && forall|i: int|
                0 <= i < performed(tasks->Ok_0, events).len() ==> !(#[trigger] progress_after(
                    tasks->Ok_0[i],
                    events[i],
                ) is Fail)
        }),
{
    if tasks_of(action, assume_yes, host) is Ok {
        let tasks = tasks_of(action, assume_yes, host)->Ok_0;
        performed_in_order(tasks, events);
        lemma_ended(tasks, events);
    }
}

/// Tasks are performed in their order, none is left out, and none is performed
/// behind one after which it was not to go on.
pub proof fn performed_in_order(tasks: Seq<TaskView>, events: Seq<EventView>)
    ensures
        performed(tasks, events).len() <= tasks.len(),
        performed(tasks, events).len() <= events.len(),
        performed(tasks, events) == tasks.take(performed(tasks, events).len() as int),
        forall|i: int|
            0 <= i < performed(tasks, events).len() - 1 ==> #[trigger] progress_after(
                tasks[i],
                events[i],
            ) is Continue,
    decreases tasks.len(),
{
    let done = performed(tasks, events);
    if tasks.len() == 0 || events.len() == 0 {
        assert(done =~= tasks.take(0));
    } else if progress_after(tasks[0], events[0]) is Continue {
        let rest = tasks.drop_first();
        let later = events.drop_first();
        performed_in_order(rest, later);
        assert(done =~= tasks.take(done.len() as int)) by {
            assert forall|i: int| 0 <= i < done.len() implies done[i] == tasks[i] by {
                if i > 0 {
                    assert(done[i] == performed(rest, later)[i - 1]);
                    assert(rest.take(performed(rest, later).len() as int)[i - 1] == rest[i - 1]);
                }
            }
        }
        assert forall|i: int| 0 <= i < done.len() - 1 implies #[trigger] progress_after(
            tasks[i],
            events[i],
        ) is Continue by {
            if i > 0 {
                assert(progress_after(rest[i - 1], later[i - 1]) is Continue);
            }
        }
    } else {
        assert(done =~= tasks.take(1));
    }
}

/// Where the question stands among the tasks of an action.
proof fn lemma_question_first(action: Action, host: HostView) -> (c: int)
    requires
        tasks_of(action, false, host) is Ok,
    ensures
        ({
            let tasks = tasks_of(action, false, host)->Ok_0;
            &&& 0 <= c < tasks.len()
            &&& tasks[c] is Confirm
            &&& forall|i: int| 0 <= i < c ==> !is_change(#[trigger] tasks[i])
        }),
{
    let tasks = tasks_of(action, false, host)->Ok_0;
    match action {
        Action::On => {
            let a = if host.qemu@.len() == 0 {
                1int
            } else {
                0
            };
            let b = if host.installed@.len() == 0 {
                1int
            } else {
                0
            };
            assert forall|i: int| 0 <= i < a + b implies !is_change(#[trigger] tasks[i]) by {
                assert(tasks[i] is Tell);
            }
            assert(tasks[a + b] is Confirm);
            a + b
        },
        Action::Off => {
            assert(tasks[0] is Confirm);
            0
        },
    }
}

/// Nothing is changed before the user has agreed, unless that was taken for
/// granted: whatever comes of the tasks, one that changes something is only
/// performed behind a question that was answered with yes.
pub proof fn nothing_changes_unasked(
    action: Action,
    host: HostView,
    events: Seq<EventView>,
    k: int,
)
    requires
        tasks_of(action, false, host) is Ok,
        ({
            let tasks = tasks_of(action, false, host)->Ok_0;
            &&& forall|i: int|
                0 <= i < performed(tasks, events).len() ==> #[trigger] can_come_of(
                    tasks[i],
                    events[i],
                )
            &&& 0 <= k < performed(tasks, events).len()
            &&& is_change(performed(tasks, events)[k])
        }),
    ensures
        exists|c: int|
            0 <= c < k && tasks_of(action, false, host)->Ok_0[c] is Confirm
                && #[trigger] events[c] == EventView::Answer(true),
{
    let tasks = tasks_of(action, false, host)->Ok_0;
    let c = lemma_question_first(action, host);
    performed_in_order(tasks, events);
    assert(performed(tasks, events)[k] == tasks[k]);
    assert(c < k);
    assert(progress_after(tasks[c], events[c]) is Continue);
    assert(can_come_of(tasks[c], events[c]));
    assert(events[c] == EventView::Answer(true));
}

/// Either is done on the host alone.
pub proof fn only_on_the_host(action: Action, assume_yes: bool, host: HostView)
    requires
        tasks_of(action, assume_yes, host) is Ok,
    ensures
        !host.in_chroot,
        !host.in_container,
        host.registry_visible,
{
}

/// Stepping aside misses nothing: each configuration file that is applied is
/// to be switched off, each entry of ours is to be unregistered after all of
/// that, and in the end it is to be seen that none is left.
pub proof fn stepping_aside_is_complete(host: HostView, assume_yes: bool)
    ensures
        forall|i: int|
            0 <= i < host.installed@.len() ==> aside_tasks(host, assume_yes).contains(
                (TaskView::Disable {
                    from: #[trigger] host.installed@[i]@,
                    to: disabled(host.installed@[i]@),
                }),
            ),
        forall|j: int|
            0 <= j < host.guard@.len() ==> aside_tasks(host, assume_yes).contains(
                TaskView::Unregister(#[trigger] host.guard@[j]@),
            ),
        forall|a: int, b: int|
            0 <= a < aside_tasks(host, assume_yes).len() && 0 <= b < aside_tasks(
                host,
                assume_yes,
            ).len() && #[trigger] aside_tasks(host, assume_yes)[a] is Disable
                && #[trigger] aside_tasks(host, assume_yes)[b] is Unregister ==> a < b,
        aside_tasks(host, assume_yes).last() is CheckGone,
{
    let tasks = aside_tasks(host, assume_yes);
    let confs = disable_tasks(crate::paths::byte_views(host.installed@));
    let names = unregister_tasks(crate::qemu::string_views(host.guard@));
    let front = tasks.len() - 1 - names.len() - confs.len();
    lemma_aside_parts(host, assume_yes);
    assert forall|i: int| 0 <= i < host.installed@.len() implies tasks.contains(
        (TaskView::Disable {
            from: #[trigger] host.installed@[i]@,
            to: disabled(host.installed@[i]@),
        }),
    ) by {
        assert(tasks[front + i] == confs[i]);
    }
    assert forall|j: int| 0 <= j < host.guard@.len() implies tasks.contains(
        TaskView::Unregister(#[trigger] host.guard@[j]@),
    ) by {
        assert(tasks[front + confs.len() + j] == names[j]);
    }
}

/// What stands where among the tasks that step aside.
proof fn lemma_aside_parts(host: HostView, assume_yes: bool)
    ensures
        ({
            let tasks = aside_tasks(host, assume_yes);
            let confs = disable_tasks(crate::paths::byte_views(host.installed@));
            let names = unregister_tasks(crate::qemu::string_views(host.guard@));
            let front = tasks.len() - 1 - names.len() - confs.len();
            &&& front >= 0
            &&& forall|i: int|
                0 <= i < front ==> #[trigger] tasks[i] is Tell || tasks[i] is Confirm
            &&& forall|i: int|
                front <= i < front + confs.len() ==> #[trigger] tasks[i] == confs[i - front]
                    && tasks[i] is Disable
            &&& forall|i: int|
                front + confs.len() <= i < tasks.len() - 1 ==> #[trigger] tasks[i] == names[i
                    - front - confs.len()] && tasks[i] is Unregister
            &&& tasks.last() is CheckGone
        }),
{
}

/// What is to be switched on, and that it is nothing else.
proof fn lemma_restore_tasks(paths: Seq<Seq<u8>>)
    ensures
        forall|k: int|
            0 <= k < restore_tasks(paths).len() ==> #[trigger] restore_tasks(paths)[k] is Restore,
        forall|i: int|
            0 <= i < paths.len() && enabled(#[trigger] paths[i]) is Some ==> restore_tasks(
                paths,
            ).contains((TaskView::Restore { from: paths[i], to: enabled(paths[i])->0 })),
    decreases paths.len(),
{
    if paths.len() > 0 {
        let shorter = paths.drop_last();
        let front = restore_tasks(shorter);
        let all = restore_tasks(paths);
        lemma_restore_tasks(shorter);
        assert forall|k: int| 0 <= k < all.len() implies #[trigger] all[k] is Restore by {
            if k < front.len() {
                assert(all[k] == front[k]);
            }
        }
        assert forall|i: int| 0 <= i < paths.len() && enabled(
            #[trigger] paths[i],
        ) is Some implies all.contains(
            (TaskView::Restore { from: paths[i], to: enabled(paths[i])->0 }),
        ) by {
            let task = TaskView::Restore { from: paths[i], to: enabled(paths[i])->0 };
            if i < shorter.len() {
                assert(shorter[i] == paths[i]);
                let k = choose|k: int| 0 <= k < front.len() && front[k] == task;
                assert(all[k] == task);
            } else {
                assert(all.last() == task);
            }
        }
    }
}

/// Coming back misses nothing: each configuration file that was switched off
/// is to be switched on.
pub proof fn coming_back_is_complete(host: HostView, assume_yes: bool)
    ensures
        forall|i: int|
            0 <= i < host.switched_off@.len() && enabled(#[trigger] host.switched_off@[i]@) is Some
                ==> back_tasks(host, assume_yes).contains(
                (TaskView::Restore {
                    from: host.switched_off@[i]@,
                    to: enabled(host.switched_off@[i]@)->0,
                }),
            ),
{
    let tasks = back_tasks(host, assume_yes);
    let paths = crate::paths::byte_views(host.switched_off@);
    let restores = restore_tasks(paths);
    let front: int = if assume_yes {
        0
    } else {
        1
    };
    lemma_restore_tasks(paths);
    assert forall|i: int|
        0 <= i < host.switched_off@.len() && enabled(
            #[trigger] host.switched_off@[i]@,
        ) is Some implies tasks.contains(
        (TaskView::Restore {
            from: host.switched_off@[i]@,
            to: enabled(host.switched_off@[i]@)->0,
        }),
    ) by {
        let path = host.switched_off@[i]@;
        let task = TaskView::Restore { from: path, to: enabled(path)->0 };
        assert(paths[i] == path);
        let k = choose|k: int| 0 <= k < restores.len() && restores[k] == task;
        assert(tasks[front + k] == task);
    }
}

/// The configuration files that are not applied are those of directories.
proof fn lemma_switched_off_in(dirs: Seq<ConfDir>, i: int)
    requires
        0 <= i < switched_off_in(dirs).len(),
    ensures
        exists|dir: Seq<u8>| switched_off_in(dirs)[i] == #[trigger] disabled_in(dir),
    decreases dirs.len(),
{
    let front = switched_off_in(dirs.drop_last());
    if i < front.len() {
        lemma_switched_off_in(dirs.drop_last(), i);
        assert(switched_off_in(dirs)[i] == front[i]);
    } else {
        assert(switched_off_in(dirs)[i] == disabled_in(dirs.last().path@));
    }
}

/// Coming back skips no file: whatever the directories, each configuration
/// file that is found switched off in one of them is to be switched on.
pub proof fn no_file_stays_switched_off(dirs: Seq<ConfDir>, host: HostView, assume_yes: bool)
    requires
        crate::paths::byte_views(host.switched_off@) == switched_off_in(dirs),
    ensures
        forall|i: int|
            0 <= i < host.switched_off@.len() ==> enabled(
                #[trigger] host.switched_off@[i]@,
            ) is Some && back_tasks(host, assume_yes).contains(
                (TaskView::Restore {
                    from: host.switched_off@[i]@,
                    to: enabled(host.switched_off@[i]@)->0,
                }),
            ),
{
    coming_back_is_complete(host, assume_yes);
    let paths = crate::paths::byte_views(host.switched_off@);
    assert forall|i: int| 0 <= i < host.switched_off@.len() implies enabled(
        #[trigger] host.switched_off@[i]@,
    ) is Some by {
        assert(paths[i] == host.switched_off@[i]@);
        lemma_switched_off_in(dirs, i);
        let dir = choose|dir: Seq<u8>| switched_off_in(dirs)[i] == #[trigger] disabled_in(dir);
        switched_off_file_can_be_restored(dir);
    }
}

/// The service is restarted to come back, and then only where it serves the
/// registry; stepping aside never touches it, for a restart that fails half way
/// would leave no entry at all.
pub proof fn restarted_only_to_come_back(
    action: Action,
    assume_yes: bool,
    host: HostView,
    i: int,
)
    requires
        tasks_of(action, assume_yes, host) is Ok,
        0 <= i < tasks_of(action, assume_yes, host)->Ok_0.len(),
        tasks_of(action, assume_yes, host)->Ok_0[i] is Restart,
    ensures
        action == Action::Off,
        !host.test_mode,
{
    let tasks = tasks_of(action, assume_yes, host)->Ok_0;
    match action {
        Action::On => {
            lemma_aside_parts(host, assume_yes);
        },
        Action::Off => {
            let restores = restore_tasks(crate::paths::byte_views(host.switched_off@));
            lemma_restore_tasks(crate::paths::byte_views(host.switched_off@));
            let front: int = if assume_yes {
                0
            } else {
                1
            };
            if front <= i < front + restores.len() {
                assert(tasks[i] == restores[i - front]);
            }
        },
    }
}

/// Success is verified: where every task was performed and none failed, no
/// entry of ours is left after stepping aside, and one is registered again
/// after coming back (the service being ours to restart).
pub proof fn success_is_verified(
    action: Action,
    assume_yes: bool,
    host: HostView,
    events: Seq<EventView>,
)
    requires
        tasks_of(action, assume_yes, host) is Ok,
        ({
            let tasks = tasks_of(action, assume_yes, host)->Ok_0;
            &&& events.len() == tasks.len()
            &&& forall|i: int|
                0 <= i < tasks.len() ==> #[trigger] can_come_of(tasks[i], events[i])
                    && progress_after(tasks[i], events[i]) is Continue
        }),
    ensures
        action == Action::On ==> events.last() is Entries && events.last()->Entries_0.len() == 0,
        action == Action::Off && !host.test_mode ==> events.last() is Entries
            && events.last()->Entries_0.len() > 0,
{
    let tasks = tasks_of(action, assume_yes, host)->Ok_0;
    let end = tasks.len() - 1;
    if action == Action::On {
        lemma_aside_parts(host, assume_yes);
    }
    assert(can_come_of(tasks[end], events[end]));
}

/// The bytes of the name of the configuration file, and of what is put behind it.
proof fn lemma_names_plain()
    ensures
        crate::paths::is_plain(crate::paths::bytes(conf_name())),
        crate::paths::bytes(disabled_suffix()).len() == 9,
        forall|i: int|
            0 <= i < 9 ==> #[trigger] crate::paths::bytes(disabled_suffix())[i]
                != crate::paths::SLASH,
        vstd::utf8::valid_utf8(crate::paths::bytes(conf_name())),
        vstd::utf8::valid_utf8(crate::paths::bytes(disabled_suffix())),
{
    reveal_strlit("zz-aosc-exec-guard.conf");
    reveal_strlit(".disabled");
    crate::paths::lemma_ascii_bytes(conf_name());
    crate::paths::lemma_ascii_bytes(disabled_suffix());
    let name = crate::paths::bytes(conf_name());
    assert(name.len() == 23);
    assert forall|i: int| 0 <= i < name.len() implies name[i] != crate::paths::SLASH by {
        assert(name[i] == conf_name()[i] as u8);
    }
    let suffix = crate::paths::bytes(disabled_suffix());
    assert forall|i: int| 0 <= i < 9 implies #[trigger] suffix[i] != crate::paths::SLASH by {
        assert(suffix[i] == disabled_suffix()[i] as u8);
    }
}

/// A name with the suffix behind it: it is plain if the name holds no slash, is
/// text if the name is, and is the name again without the suffix.
pub proof fn lemma_suffixed(name: Seq<u8>)
    requires
        forall|i: int| 0 <= i < name.len() ==> name[i] != crate::paths::SLASH,
        vstd::utf8::valid_utf8(name),
    ensures
        ({
            let suffix = crate::paths::bytes(disabled_suffix());
            let off = name + suffix;
            &&& crate::paths::is_plain(off)
            &&& vstd::utf8::valid_utf8(off)
            &&& crate::paths::has_suffix(off, suffix)
            &&& off.take(off.len() - suffix.len()) == name
        }),
{
    let suffix = crate::paths::bytes(disabled_suffix());
    let off = name + suffix;
    lemma_names_plain();
    assert(off.len() > 2);
    assert forall|i: int| 0 <= i < off.len() implies off[i] != crate::paths::SLASH by {
        if i >= name.len() {
            assert(off[i] == suffix[i - name.len()]);
        }
    }
    vstd::utf8::valid_utf8_concat(name, suffix);
    assert(off.skip(off.len() - suffix.len()) =~= suffix);
    assert(off.take(off.len() - suffix.len()) =~= name);
}

/// The name of the configuration file does not end with the suffix.
#[verifier::spinoff_prover]
proof fn lemma_conf_is_applied()
    ensures
        !crate::paths::has_suffix(
            crate::paths::bytes(conf_name()),
            crate::paths::bytes(disabled_suffix()),
        ),
{
    reveal_strlit("zz-aosc-exec-guard.conf");
    reveal_strlit(".disabled");
    crate::paths::lemma_ascii_bytes(conf_name());
    crate::paths::lemma_ascii_bytes(disabled_suffix());
    let name = crate::paths::bytes(conf_name());
    let suffix = crate::paths::bytes(disabled_suffix());
    let end = name.skip(name.len() - suffix.len());
    assert(end[8] == conf_name()[22] as u8);
    assert(suffix[8] == disabled_suffix()[8] as u8);
}

/// A configuration file that was switched off is switched on under its old
/// name, in the directory in which it was.
#[verifier::spinoff_prover]
pub proof fn switching_on_undoes_switching_off(conf: Seq<u8>)
    requires
        crate::paths::file_name(conf) is Some,
        vstd::utf8::valid_utf8(crate::paths::file_name(conf)->0),
    ensures
        enabled(disabled(conf)) == Some(
            crate::paths::renamed(conf, crate::paths::file_name(conf)->0),
        ),
{
    let name = crate::paths::file_name(conf)->0;
    crate::paths::file_name_is_plain(conf);
    lemma_suffixed(name);
    crate::paths::renaming_again(conf, name + crate::paths::bytes(disabled_suffix()), name);
}

/// Switching on takes the suffix off the name and leaves the file in its
/// directory, where what is left of the name can stand for a file.
pub proof fn switching_on_keeps_the_directory(path: Seq<u8>)
    requires
        enabled(path) is Some,
        crate::paths::is_plain(stem(path)),
    ensures
        crate::paths::file_name(enabled(path)->0) == Some(stem(path)),
        crate::paths::parent(enabled(path)->0) == crate::paths::parent(path),
{
    crate::paths::renaming_again(path, stem(path), stem(path));
}

/// The name of a file without the suffix.
pub open spec fn stem(path: Seq<u8>) -> Seq<u8> {
    let name = crate::paths::file_name(path)->0;
    name.take(name.len() - crate::paths::bytes(disabled_suffix()).len())
}

/// Whatever the directory, a configuration file that is switched off there can
/// be switched on: under its name, and in the directory in which it is.
#[verifier::spinoff_prover]
pub proof fn switched_off_file_can_be_restored(dir: Seq<u8>)
    ensures
        enabled(disabled_in(dir)) is Some,
        crate::paths::file_name(enabled(disabled_in(dir))->0) == Some(
            crate::paths::bytes(conf_name()),
        ),
        crate::paths::parent(enabled(disabled_in(dir))->0) == crate::paths::parent(
            disabled_in(dir),
        ),
{
    let name = crate::paths::bytes(conf_name());
    lemma_names_plain();
    lemma_suffixed(name);
    crate::paths::lemma_join_plain(dir, name + crate::paths::bytes(disabled_suffix()));
    switching_on_keeps_the_directory(disabled_in(dir));
}

/// A directory that is tidy, or is so but for one slash at its end.
pub open spec fn is_neat(dir: Seq<u8>) -> bool {
    crate::paths::is_tidy(dir) || (dir.len() > 1 && dir.last() == crate::paths::SLASH
        && dir[dir.len() - 2] != crate::paths::SLASH && crate::paths::is_tidy(dir.drop_last()))
}

/// In a neat directory, stepping aside leaves the configuration file where
/// coming back looks for it, and coming back puts it where it was.
#[verifier::spinoff_prover]
pub proof fn coming_back_undoes_stepping_aside(dir: Seq<u8>)
    requires
        is_neat(dir),
    ensures
        disabled(conf_in(dir)) == disabled_in(dir),
        enabled(disabled_in(dir)) == Some(conf_in(dir)),
        enabled(conf_in(dir)) is None,
{
    let name = crate::paths::bytes(conf_name());
    lemma_names_plain();
    let base = if crate::paths::is_tidy(dir) {
        dir
    } else {
        dir.drop_last()
    };
    let off = name + crate::paths::bytes(disabled_suffix());
    assert(off[0] == name[0]);
    assert(conf_in(dir) =~= crate::paths::joined(base, name));
    assert(disabled_in(dir) =~= crate::paths::joined(base, off));
    crate::paths::lemma_join_tidy(base, name);
    switching_on_undoes_switching_off(conf_in(dir));
    lemma_conf_is_applied();
}

/// The directories in which rules are looked for are neat.
pub proof fn rule_dirs_are_neat(i: int)
    requires
        0 <= i < rule_dirs().len(),
    ensures
        is_neat(rule_dirs()[i]),
{
    reveal_strlit("/etc/binfmt.d");
    reveal_strlit("/run/binfmt.d");
    reveal_strlit("/usr/local/lib/binfmt.d");
    reveal_strlit("/usr/lib/binfmt.d");
    crate::paths::lemma_ascii_bytes("/etc/binfmt.d"@);
    crate::paths::lemma_ascii_bytes("/run/binfmt.d"@);
    crate::paths::lemma_ascii_bytes("/usr/local/lib/binfmt.d"@);
    crate::paths::lemma_ascii_bytes("/usr/lib/binfmt.d"@);
    crate::paths::lemma_tidy(crate::paths::bytes("/etc/binfmt.d"@), 5);
    crate::paths::lemma_tidy(crate::paths::bytes("/run/binfmt.d"@), 5);
    crate::paths::lemma_tidy(crate::paths::bytes("/usr/local/lib/binfmt.d"@), 15);
    crate::paths::lemma_tidy(crate::paths::bytes("/usr/lib/binfmt.d"@), 9);
}

} // verus!
