use aosc_exec_guard::handover::{
    conf_dirs, conf_files, conf_path, disabled_conf_path, disabled_path, enabled_path,
    exit_status, is_warning, notice_line, notice_path, question_line, refusal_line, refusal_path, run, Action, ConfDir, Event,
    HostView, Notice, Progress, Question, Refusal, Session, Task,
};
use aosc_exec_guard::i18n::Lang;
use std::path::Path;

#[test]
fn disabled_suffix_round_trips() {
    let conf = "/usr/lib/binfmt.d/zz-aosc-exec-guard.conf".as_bytes();
    let disabled = disabled_path(conf);
    assert_eq!(
        disabled,
        "/usr/lib/binfmt.d/zz-aosc-exec-guard.conf.disabled".as_bytes()
    );
    assert_eq!(enabled_path(&disabled).as_deref(), Some(conf));
    assert!(enabled_path(conf).is_none());
}

#[test]
fn renaming_agrees_with_the_standard_library() {
    let paths = [
        "", "/", ".", "..", "./a", "a", "/a", "a/b/", "a//b", "a/./b/.", "//a", "../..", "./",
        "/.", "a/..", "./.", "a/b/./", ".a/b", "a/../b", "/..",
    ];
    for path in paths {
        let std_path = Path::new(path);
        let mut name = std_path.file_name().unwrap_or_default().to_os_string();
        name.push(".disabled");
        let expected = std_path.with_file_name(name);
        assert_eq!(disabled_path(path.as_bytes()), expected.to_str().unwrap().as_bytes());
    }
}

#[test]
fn only_switched_off_files_are_switched_on() {
    assert!(enabled_path(b"/a/\xff.disabled").is_none());
    assert!(enabled_path(b"/a/..").is_none());
    assert_eq!(enabled_path(b"x.disabled").unwrap(), b"x");
    assert_eq!(enabled_path(b"/a/.disabled").unwrap(), b"/a/");
}

#[test]
fn configuration_files_are_looked_for_in_order() {
    assert_eq!(
        conf_dirs(None),
        [
            b"/etc/binfmt.d".to_vec(),
            b"/run/binfmt.d".to_vec(),
            b"/usr/local/lib/binfmt.d".to_vec(),
            b"/usr/lib/binfmt.d".to_vec()
        ]
    );
    assert_eq!(conf_dirs(Some(b"/a:/b")), [b"/a".to_vec(), b"/b".to_vec()]);
    assert_eq!(conf_dirs(Some(b"")), [b"".to_vec()]);
    assert_eq!(conf_dirs(Some(b":x:")), [b"".to_vec(), b"x".to_vec(), b"".to_vec()]);
    let dir = |path: &[u8], has_conf, has_disabled| ConfDir {
        path: path.to_vec(),
        has_conf,
        has_disabled,
    };
    let dirs = vec![dir(b"/a", false, true), dir(b"/b", true, true), dir(b"/c", false, false)];
    let (installed, switched_off) = conf_files(&dirs);
    assert_eq!(installed, [b"/b/zz-aosc-exec-guard.conf".to_vec()]);
    assert_eq!(
        switched_off,
        [
            b"/a/zz-aosc-exec-guard.conf.disabled".to_vec(),
            b"/b/zz-aosc-exec-guard.conf.disabled".to_vec()
        ]
    );
}

fn host() -> HostView {
    HostView {
        in_chroot: false,
        in_container: false,
        registry_visible: true,
        test_mode: false,
        installed: vec![b"/d/zz-aosc-exec-guard.conf".to_vec()],
        switched_off: vec![],
        guard: vec!["aosc-exec-guard-arm".to_string()],
        qemu: vec!["qemu-arm".to_string()],
    }
}

/// Performs the tasks of a session, answering by `answer`, and lists what was
/// done, what was told (in English) and what went wrong.
fn play(mut session: Session, answer: fn(&Task) -> Event) -> (Vec<String>, Vec<String>, String) {
    let mut done = Vec::new();
    let mut told = Vec::new();
    loop {
        let event = match session.current() {
            None => return (done, told, String::new()),
            Some(task) => {
                done.push(format!("{task:?}"));
                if let Task::Tell(notice) = task {
                    told.push(notice_line(Lang::En, notice, ""));
                }
                answer(task)
            }
        };
        let (progress, notices) = session.report(event);
        for notice in &notices {
            let shown = notice_path(notice).map(|p| String::from_utf8_lossy(&p).into_owned());
            told.push(notice_line(Lang::En, notice, &shown.unwrap_or_default()));
        }
        match progress {
            Progress::Continue => {}
            Progress::Stop => {
                assert!(session.current().is_none());
                return (done, told, "stopped".to_string());
            }
            Progress::Fail(why) => {
                assert!(session.current().is_none());
                let shown = refusal_path(&why).map(|p| String::from_utf8(p).unwrap());
                return (done, told, refusal_line(Lang::En, &why, &shown.unwrap_or_default()));
            }
        }
    }
}

fn all_well(task: &Task) -> Event {
    match task {
        Task::Confirm(_) => Event::Answer(true),
        Task::CheckGone => Event::Entries(vec![]),
        Task::CheckBack => Event::Entries(vec!["a".to_string(), "b".to_string()]),
        _ => Event::Done,
    }
}

#[test]
fn stepping_aside_goes_through_its_tasks() {
    let session = run(Action::On, false, &host()).unwrap();
    let (done, told, error) = play(session, all_well);
    assert_eq!(error, "");
    assert_eq!(done.len(), 4);
    assert!(done[0].starts_with("Confirm(StepAside)"));
    assert!(done[1].starts_with("Disable"));
    assert!(done[2].starts_with("Unregister"));
    assert_eq!(
        told,
        [
            "disabled /d/zz-aosc-exec-guard.conf",
            "unregistered entry aosc-exec-guard-arm",
            "handover done: foreign binaries are now handled by the kernel's qemu entries (host, \
             chroot and containers alike).",
            "to restore: `sudo aosc-exec-guard --handover=off`, or rerun the installer.",
        ]
    );
}

#[test]
fn declining_changes_nothing() {
    for action in [Action::On, Action::Off] {
        let mut host = host();
        host.switched_off = vec![b"/d/zz-aosc-exec-guard.conf.disabled".to_vec()];
        let session = run(action, false, &host).unwrap();
        let (done, told, end) = play(session, |_| Event::Answer(false));
        assert_eq!(end, "stopped");
        assert_eq!(done.len(), 1);
        assert_eq!(told, ["aosc-exec-guard: cancelled, nothing changed."]);
    }
}

#[test]
fn missing_parts_are_warned_of() {
    let mut bare = host();
    bare.installed.clear();
    bare.qemu.clear();
    let session = run(Action::On, true, &bare).unwrap();
    let (done, told, error) = play(session, all_well);
    assert_eq!(error, "");
    assert_eq!(done.len(), 4);
    assert!(told[0].starts_with("aosc-exec-guard: warning: no enabled qemu-* entry"));
    assert!(told[1].starts_with("aosc-exec-guard: note: no config file (zz-aosc-exec-guard.conf)"));
    assert!(is_warning(&Notice::NoQemu));
    assert!(is_warning(&Notice::NoConf));
    assert!(!is_warning(&Notice::Cancelled));
    let session = run(Action::On, false, &bare).unwrap();
    let (done, _, error) = play(session, |task| match task {
        Task::Tell(_) => Event::Done,
        _ => Event::NoTerminal,
    });
    assert!(done[2].starts_with("Confirm(StepAsideWithoutQemu)"));
    assert_eq!(
        error,
        "aosc-exec-guard: confirmation needed, but there is no terminal here: pass --yes (or run \
         it in a terminal)."
    );
}

#[test]
fn only_the_host_steps_aside() {
    for action in [Action::On, Action::Off] {
        let mut chroot = host();
        chroot.in_chroot = true;
        chroot.in_container = true;
        assert!(matches!(run(action, true, &chroot), Err(Refusal::Chroot)));
        let mut container = host();
        container.in_container = true;
        assert!(matches!(run(action, true, &container), Err(Refusal::Container)));
        let mut blind = host();
        blind.registry_visible = false;
        assert!(matches!(run(action, true, &blind), Err(Refusal::NoRegistry)));
    }
    let mut empty = host();
    empty.installed.clear();
    empty.guard.clear();
    assert!(matches!(run(Action::On, true, &empty), Err(Refusal::NothingInstalled)));
    assert!(matches!(run(Action::Off, true, &empty), Err(Refusal::NotAside)));
    empty.switched_off.push(b"/d/zz-aosc-exec-guard.conf.disabled".to_vec());
    let why = run(Action::On, true, &empty).unwrap_err();
    assert_eq!(
        refusal_line(Lang::En, &why, ""),
        "aosc-exec-guard: the guard is already handed over (zz-aosc-exec-guard.conf.disabled is \
         still there); use `--handover=off` to restore."
    );
}

#[test]
fn nothing_follows_a_failure() {
    let session = run(Action::On, true, &host()).unwrap();
    let (done, told, error) = play(session, |_| Event::Failed("EPERM".to_string()));
    assert_eq!(done.len(), 1);
    assert!(told.is_empty());
    assert_eq!(
        error,
        "aosc-exec-guard: could not disable /d/zz-aosc-exec-guard.conf (root needed?): EPERM"
    );
    let session = run(Action::On, true, &host()).unwrap();
    let (_, _, error) = play(session, |task| match task {
        Task::Unregister(_) => Event::Failed("EPERM".to_string()),
        _ => Event::Done,
    });
    assert_eq!(
        error,
        "aosc-exec-guard: could not unregister entry aosc-exec-guard-arm (root needed?): EPERM"
    );
    let session = run(Action::On, true, &host()).unwrap();
    let (_, _, error) = play(session, |task| match task {
        Task::CheckGone => Event::Entries(vec!["a".to_string(), "b".to_string()]),
        _ => Event::Done,
    });
    assert_eq!(error, "aosc-exec-guard: entries left behind after unregistering: a, b");
}

#[test]
fn coming_back_goes_through_its_tasks() {
    let mut aside = host();
    aside.installed.clear();
    aside.guard.clear();
    aside.switched_off = vec![b"/d/zz-aosc-exec-guard.conf.disabled".to_vec(), b"/d/odd".to_vec()];
    let session = run(Action::Off, false, &aside).unwrap();
    let (done, told, error) = play(session, all_well);
    assert_eq!(error, "");
    assert_eq!(done.len(), 4);
    assert!(done[0].starts_with("Confirm(ComeBack)"));
    assert_eq!(
        told,
        ["restored /d/zz-aosc-exec-guard.conf", "restored: guard entries are back (2)."]
    );
    let fail = |answer| play(run(Action::Off, true, &host_aside()).unwrap(), answer).2;
    assert_eq!(
        fail(|_| Event::Failed("EPERM".to_string())),
        "aosc-exec-guard: could not restore /d/zz-aosc-exec-guard.conf.disabled (root needed?): \
         EPERM"
    );
    assert_eq!(
        fail(|task| match task {
            Task::Restart => Event::BadStatus,
            _ => Event::Done,
        }),
        "aosc-exec-guard: `systemctl restart systemd-binfmt.service` failed: please restart it \
         manually and check."
    );
    assert_eq!(
        fail(|task| match task {
            Task::Restart => Event::Failed("ENOENT".to_string()),
            _ => Event::Done,
        }),
        "aosc-exec-guard: could not run systemctl (ENOENT): please restart manually with \
         `systemctl restart systemd-binfmt.service`."
    );
    assert_eq!(
        fail(|task| match task {
            Task::CheckBack => Event::Entries(vec![]),
            _ => Event::Done,
        }),
        "aosc-exec-guard: config file restored, but no guard entry in the registry yet: check \
         `systemctl status systemd-binfmt.service`."
    );
}

fn host_aside() -> HostView {
    let mut aside = host();
    aside.installed.clear();
    aside.guard.clear();
    aside.switched_off = vec![b"/d/zz-aosc-exec-guard.conf.disabled".to_vec()];
    aside
}

#[test]
fn the_service_is_left_alone_in_test_mode() {
    let mut aside = host_aside();
    aside.test_mode = true;
    let (done, told, error) = play(run(Action::Off, true, &aside).unwrap(), all_well);
    assert_eq!(error, "");
    assert_eq!(done.len(), 2);
    assert!(told[1].starts_with("restored /d/") || told[0].starts_with("restored /d/"));
    assert!(told.iter().any(|line| line.starts_with("(test mode:")));
}

#[test]
fn the_remaining_refusals_have_words() {
    let line = |why: Refusal| refusal_line(Lang::En, &why, "");
    assert!(line(Refusal::Chroot).contains("chroot"));
    assert!(line(Refusal::Container).contains("nested PID namespace"));
    assert!(line(Refusal::NoRegistry).contains("not visible"));
    assert!(line(Refusal::NothingInstalled).contains("nothing to hand over"));
    assert!(line(Refusal::NotAside).contains("not in the handover state"));
    assert_eq!(
        line(Refusal::ConfirmFailed("EIO".to_string())),
        "aosc-exec-guard: prompt failed: EIO"
    );
    assert_eq!(
        refusal_line(Lang::ZhCn, &Refusal::Residue(vec!["a".to_string(), "b".to_string()]), ""),
        "aosc-exec-guard: 注销之后还有残留条目：a、b"
    );
    assert!(question_line(Lang::En, Question::ComeBack).starts_with("Restore the guard"));
    assert!(question_line(Lang::En, Question::StepAside).ends_with("directly?"));
    assert!(question_line(Lang::ZhCn, Question::StepAsideWithoutQemu).contains("没有可用的 qemu"));
}

#[test]
fn coming_back_undoes_stepping_aside_in_neat_directories() {
    let mut dirs = conf_dirs(None);
    for dir in ["", "/", ".", "d", "d/", "/d/e/", "../d"] {
        dirs.push(dir.as_bytes().to_vec());
    }
    for dir in dirs {
        let conf = conf_path(&dir);
        assert_eq!(disabled_path(&conf), disabled_conf_path(&dir));
        assert_eq!(enabled_path(&disabled_conf_path(&dir)).unwrap(), conf);
        assert!(enabled_path(&conf).is_none());
    }
    let untidy = b"/d//".to_vec();
    assert_eq!(disabled_conf_path(&untidy), b"/d//zz-aosc-exec-guard.conf.disabled");
    assert_eq!(disabled_path(&conf_path(&untidy)), b"/d/zz-aosc-exec-guard.conf.disabled");
}

#[test]
fn a_file_switched_off_anywhere_can_be_switched_on() {
    let dirs: [&[u8]; 10] =
        [b"", b"/", b"//", b"/d//", b"/d/.", b"./.", b"d/..", b"..", b"\xff", b"/d/./e//."];
    for dir in dirs {
        let off = disabled_conf_path(&dir.to_vec());
        let on = enabled_path(&off).unwrap();
        assert!(on.ends_with(b"zz-aosc-exec-guard.conf"));
        let mut aside = host_aside();
        aside.switched_off = vec![off];
        let (done, _, error) = play(run(Action::Off, true, &aside).unwrap(), all_well_quietly);
        assert_eq!(error, "");
        assert_eq!(done.len(), 3);
        assert!(done[0].starts_with("Restore"));
    }
}

fn all_well_quietly(task: &Task) -> Event {
    match task {
        Task::CheckBack => Event::Entries(vec!["a".to_string()]),
        _ => Event::Done,
    }
}

#[test]
fn the_exit_status_tells_success() {
    assert_eq!(exit_status(&Progress::Continue), 0);
    assert_eq!(exit_status(&Progress::Stop), 0);
    assert_eq!(exit_status(&Progress::Fail(Refusal::NotBack)), 1);
    let refused = run(Action::Off, true, &host()).unwrap_err();
    assert_eq!(exit_status(&Progress::Fail(refused)), 1);
    let mut declined = run(Action::On, false, &host()).unwrap();
    assert_eq!(exit_status(&declined.report(Event::Answer(false)).0), 0);
    let mut failed = run(Action::On, true, &host()).unwrap();
    assert_eq!(exit_status(&failed.report(Event::Failed("EPERM".to_string())).0), 1);
}
