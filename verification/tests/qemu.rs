use aosc_exec_guard::elf::{ElfClass, ElfInfo, Endian};
use aosc_exec_guard::qemu::{
    alternative_entries, alternatives_dir, binfmt_dir, enabled_qemu_entries,
    find_alternatives_entry, find_qemu_entry, find_qemu_entry_in, guard_entries, host_binfmt_dir,
    host_entries, magic_matches, parse_conf_line, parse_qemu_entry, qemu_entry_names,
    registry_entries, registry_visible, run_via_qemu, unescape_bytes, Candidate, ConfFile,
    QemuEntry, RegistryFile,
};

fn info(class: ElfClass, endian: Endian, machine: u16) -> ElfInfo {
    ElfInfo { class, endian, machine }
}

fn aarch64() -> ElfInfo {
    info(ElfClass::Bits64, Endian::Little, 0xb7)
}

/// `:name:M::magic:mask:interpreter:flags`, for a 64-bit little-endian machine.
fn conf_line(name: &str, interpreter: &str, machine: &str, flags: &str) -> String {
    format!(
        ":{name}:M::\\x7fELF\\x02\\x01\\x01\\x00\\x00\\x00\\x00\\x00\\x00\\x00\\x00\\x00\
         \\x02\\x00\\x{machine}\\x00\
         :\\xff\\xff\\xff\\xff\\xff\\xff\\xff\\x00\\xff\\xff\\xff\\xff\\xff\\xff\\xff\\xff\
         \\xfe\\xff\\xff\\xff\
         :{interpreter}:{flags}\n"
    )
}

fn conf(name: &str, text: String) -> ConfFile {
    ConfFile { name: name.as_bytes().to_vec(), text: Some(text) }
}

/// Candidates for `info`, with every interpreter there but `missing`.
fn candidates(files: &Vec<ConfFile>, info: &ElfInfo, missing: &str) -> Vec<Candidate> {
    alternative_entries(info, files)
        .into_iter()
        .map(|entry| {
            let present = entry.interpreter != missing.as_bytes();
            Candidate { entry, present }
        })
        .collect()
}

#[test]
fn alternatives_candidates_fill_in_when_the_registry_has_nothing() {
    let files = vec![
        conf("box64.conf", conf_line("box64", "/d/box64", "3e", "P")),
        conf("qemu-aarch64.conf", conf_line("qemu-aarch64", "/d/qemu-aarch64-static", "b7", "CF")),
        conf(
            "aosc-exec-guard-aarch64.conf",
            conf_line("aosc-exec-guard-aarch64", "/d/qemu-aarch64-static", "b7", "F"),
        ),
        conf("qemu-riscv64.conf", conf_line("qemu-riscv64", "/d/nope", "f3", "CF")),
    ];

    let found =
        find_alternatives_entry(&candidates(&files, &aarch64(), "/d/nope"), &aarch64()).unwrap();
    assert_eq!(found.name, "qemu-aarch64");
    assert_eq!(found.interpreter, b"/d/qemu-aarch64-static");
    assert_eq!(found.flags, "CF");

    let x86_64 = info(ElfClass::Bits64, Endian::Little, 0x3e);
    assert_eq!(
        find_alternatives_entry(&candidates(&files, &x86_64, "/d/nope"), &x86_64).unwrap().name,
        "box64"
    );

    let riscv64 = info(ElfClass::Bits64, Endian::Little, 0xf3);
    assert!(
        find_alternatives_entry(&candidates(&files, &riscv64, "/d/nope"), &riscv64).is_none()
    );
}

#[test]
fn alternatives_candidates_ignore_the_wrong_class_or_endianness() {
    let files = vec![conf(
        "qemu-aarch64.conf",
        conf_line("qemu-aarch64", "/d/qemu-aarch64-static", "b7", "CF"),
    )];
    let bits32 = info(ElfClass::Bits32, Endian::Little, 0xb7);
    assert!(find_alternatives_entry(&candidates(&files, &bits32, ""), &bits32).is_none());
    let big_endian = info(ElfClass::Bits64, Endian::Big, 0xb7);
    assert!(find_alternatives_entry(&candidates(&files, &big_endian, ""), &big_endian).is_none());
}

#[test]
fn qemu_entry_names_follow_arch_and_endianness() {
    let elf = |class, endian, machine| ElfInfo { class, endian, machine };
    assert_eq!(
        qemu_entry_names(&elf(ElfClass::Bits64, Endian::Little, 0xb7)),
        ["qemu-aarch64"]
    );
    assert_eq!(
        qemu_entry_names(&elf(ElfClass::Bits32, Endian::Big, 0x28)),
        ["qemu-armeb"]
    );
    assert_eq!(
        qemu_entry_names(&elf(ElfClass::Bits64, Endian::Little, 0xf3)),
        ["qemu-riscv64"]
    );
    assert!(qemu_entry_names(&elf(ElfClass::Bits64, Endian::Little, 0x1234)).is_empty());
}

#[test]
fn parses_a_qemu_binfmt_entry() {
    let text = "enabled\ninterpreter /usr/bin/qemu-aarch64-static\nflags: OCF\noffset 0\n";
    let entry = parse_qemu_entry("qemu-aarch64", text).unwrap();
    assert_eq!(entry.name, "qemu-aarch64");
    assert_eq!(entry.interpreter, "/usr/bin/qemu-aarch64-static".as_bytes());
    assert!(entry.flags.contains('O'));

    assert!(parse_qemu_entry("qemu-aarch64", "disabled\ninterpreter /bin/true\n").is_none());
    assert!(parse_qemu_entry("qemu-aarch64", "enabled\nflags: F\n").is_none());
}

#[test]
fn registry_files_are_read_leniently() {
    assert!(parse_qemu_entry("q", "").is_none());
    let entry = parse_qemu_entry("q", " enabled \r\ninterpreter  /a b \r\n").unwrap();
    assert_eq!(entry.interpreter, b"/a b");
    assert_eq!(entry.flags, "");
    let entry =
        parse_qemu_entry("q", "enabled\ninterpreter /a\ninterpreter /b\nflags: F\nflags:\n")
            .unwrap();
    assert_eq!(entry.interpreter, b"/b");
    assert_eq!(entry.flags, "");
    assert!(parse_qemu_entry("q", "interpreter /a\nenabled\n").is_none());
    assert!(parse_qemu_entry("q", "enabled\ninterpreter\n").is_none());
}

fn unescape(field: &str) -> Option<Vec<u8>> {
    let chars: Vec<char> = field.chars().collect();
    unescape_bytes(&chars)
}

#[test]
fn fields_of_rules_are_unescaped() {
    assert_eq!(unescape(r"\x7fELF\x02").unwrap(), b"\x7fELF\x02");
    assert_eq!(unescape(r"\xFf\xaB").unwrap(), [0xff, 0xab]);
    assert_eq!(unescape("").unwrap(), b"");
    assert!(unescape(r"\x7").is_none());
    assert!(unescape(r"\n").is_none());
    assert!(unescape(r"\xg0").is_none());
    assert!(unescape("é").is_none());
    assert!(unescape("\\").is_none());
}

#[test]
fn written_bytes_are_read_back() {
    let all: Vec<u8> = (0..=255).collect();
    let written: String = all.iter().map(|b| format!("\\x{b:02x}")).collect();
    assert_eq!(unescape(&written).unwrap(), all);
}

fn header(info: &ElfInfo) -> Vec<u8> {
    let mut bytes = vec![0u8; 20];
    bytes[0..4].copy_from_slice(b"\x7fELF");
    bytes[4] = info.class.byte();
    bytes[5] = info.endian.byte();
    let pair = info.machine_pair();
    bytes[18] = pair.0;
    bytes[19] = pair.1;
    bytes
}

#[test]
fn exact_rules_take_one_machine() {
    let target = aarch64();
    let magic = header(&target);
    let mask = vec![0xff; 20];
    for class in [ElfClass::Bits32, ElfClass::Bits64] {
        for endian in [Endian::Little, Endian::Big] {
            for machine in [0x3e, 0xb7, 0xb700] {
                let other = info(class, endian, machine);
                assert_eq!(magic_matches(&magic, &mask, &other), other == target);
            }
        }
    }
}

#[test]
fn rules_that_do_not_care_are_ignored() {
    let magic = header(&aarch64());
    assert!(!magic_matches(&magic, &[0; 20], &aarch64()));
    assert!(!magic_matches(&magic[..19], &[0xff; 20], &aarch64()));
    assert!(!magic_matches(&magic, &[0xff; 19], &aarch64()));
    for i in [4, 5] {
        let mut mask = vec![0xff; 20];
        mask[i] = 0;
        assert!(!magic_matches(&magic, &mask, &aarch64()));
    }
    let mut mask = vec![0xff; 20];
    mask[18] = 0;
    assert!(magic_matches(&magic, &mask, &aarch64()));
    mask[19] = 0;
    assert!(!magic_matches(&magic, &mask, &aarch64()));
    let mut loose = vec![0xff; 20];
    loose[0] = 0;
    loose[18] = 0x80;
    assert!(magic_matches(&magic, &loose, &info(ElfClass::Bits64, Endian::Little, 0xff)));
    assert!(!magic_matches(&magic, &loose, &info(ElfClass::Bits64, Endian::Little, 0x3e)));
}

fn parse_line(line: &str, info: &ElfInfo) -> Option<QemuEntry> {
    let chars: Vec<char> = line.chars().collect();
    parse_conf_line(&chars, info)
}

#[test]
fn lines_of_rules_files_are_parsed() {
    let line = conf_line("qemu-aarch64", "/usr/bin/q", "b7", "OCF");
    let entry = parse_line(&line, &aarch64()).unwrap();
    assert_eq!(entry.name, "qemu-aarch64");
    assert_eq!(entry.interpreter, b"/usr/bin/q");
    assert_eq!(entry.flags, "OCF");

    let with_zero = line.replacen(":M::", ":M:0:", 1);
    assert!(parse_line(&with_zero, &aarch64()).is_some());
    let with_offset = line.replacen(":M::", ":M:4:", 1);
    assert!(parse_line(&with_offset, &aarch64()).is_none());
    let by_extension = line.replacen(":M::", ":E::", 1);
    assert!(parse_line(&by_extension, &aarch64()).is_none());
    assert!(parse_line(&format!("# {line}"), &aarch64()).is_none());
    assert!(parse_line("", &aarch64()).is_none());
    assert!(parse_line(":a:M::b", &aarch64()).is_none());
    let nameless = line.replacen("qemu-aarch64", "", 1);
    assert!(parse_line(&nameless, &aarch64()).is_none());
    let own = conf_line("aosc-exec-guard-aarch64", "/usr/bin/q", "b7", "F");
    assert!(parse_line(&own, &aarch64()).is_none());

    let trimmed = line.trim_end();
    let flagless = &trimmed[..trimmed.len() - ":OCF".len()];
    assert_eq!(parse_line(flagless, &aarch64()).unwrap().flags, "");
    let more = format!("{trimmed}:x:y");
    assert_eq!(parse_line(&more, &aarch64()).unwrap().flags, "OCF:x:y");
}

#[test]
fn the_rule_in_the_documentation_is_our_own() {
    let rule = r":aosc-exec-guard-aarch64:M::\x7fELF\x02\x01\x01\x00\x00\x00\x00\x00\x00\x00\x00\x00\x02\x00\xb7\x00:\xff\xff\xff\xff\xff\xff\xff\x00\xff\xff\xff\xff\xff\xff\xff\xff\xfe\xff\xff\xff:/usr/bin/aosc-exec-guard:F";
    assert!(parse_line(rule, &aarch64()).is_none());
    let renamed = rule.replacen("aosc-exec-guard-aarch64", "qemu-aarch64", 1);
    let entry = parse_line(&renamed, &aarch64()).unwrap();
    assert_eq!(qemu_entry_names(&aarch64()), [entry.name.as_str()]);
    assert_eq!(entry.interpreter, b"/usr/bin/aosc-exec-guard");
    assert!(entry.flags.contains('F'));
}

#[test]
fn rules_files_go_by_name_and_extension() {
    let line = |name: &str| conf_line(name, "/i", "b7", "");
    let files = vec![
        conf("b.conf", line("b")),
        conf("a.conf", format!("; note\n{}{}", line("a1"), line("a2"))),
        conf("0.txt", line("text")),
        conf(".conf", line("hidden")),
        conf("conf", line("bare")),
        ConfFile { name: b"c.conf".to_vec(), text: None },
        conf("B.conf", line("B")),
    ];
    let names: Vec<String> =
        alternative_entries(&aarch64(), &files).into_iter().map(|e| e.name).collect();
    assert_eq!(names, ["B", "a1", "a2", "b"]);
}

fn entry(name: &str, interpreter: &str) -> QemuEntry {
    QemuEntry {
        name: name.to_string(),
        interpreter: interpreter.as_bytes().to_vec(),
        flags: String::new(),
    }
}

fn candidate(name: &str, present: bool) -> Candidate {
    Candidate { entry: entry(name, "/i"), present }
}

#[test]
fn the_registry_comes_before_the_alternatives() {
    let here = vec![candidate("gone", false), candidate("local", true)];
    let host = vec![candidate("host", true)];
    let ready = vec![
        candidate("first", true),
        candidate("qemu-aarch64", false),
        candidate("second", true),
    ];
    let none: Vec<Candidate> = Vec::new();
    let name = |r: Option<QemuEntry>| r.map(|e| e.name);
    let i = aarch64();
    assert_eq!(name(find_qemu_entry_in(&here)).unwrap(), "local");
    assert_eq!(name(find_qemu_entry(&i, true, &here, &host, &ready)).unwrap(), "local");
    assert_eq!(name(find_qemu_entry(&i, false, &here, &host, &ready)).unwrap(), "host");
    assert_eq!(name(find_qemu_entry(&i, true, &none, &host, &ready)).unwrap(), "first");
    let named = vec![candidate("first", true), candidate("qemu-aarch64", true)];
    assert_eq!(name(find_qemu_entry(&i, true, &none, &host, &named)).unwrap(), "qemu-aarch64");
    assert!(find_qemu_entry(&i, true, &none, &host, &none).is_none());
}

#[test]
fn registry_and_host_entries_are_read() {
    let texts = vec![Some("enabled\ninterpreter //usr/./bin//q/.\nflags: F\n".to_string())];
    let local = registry_entries(&aarch64(), &texts);
    assert_eq!(local.len(), 1);
    assert_eq!(local[0].name, "qemu-aarch64");
    assert_eq!(local[0].interpreter, b"//usr/./bin//q/.");
    let host = host_entries(&aarch64(), &texts);
    assert_eq!(host[0].interpreter, b"/proc/1/root/usr/./bin//q");
    assert_eq!(host[0].flags, "F");
    let relative = vec![Some("enabled\ninterpreter usr/bin/q\n".to_string())];
    assert_eq!(registry_entries(&aarch64(), &relative).len(), 1);
    assert!(host_entries(&aarch64(), &relative).is_empty());
    assert!(registry_entries(&aarch64(), &vec![None]).is_empty());
    assert!(registry_entries(&aarch64(), &vec![]).is_empty());
}

#[test]
fn own_and_enabled_entries_are_listed_in_order() {
    let names: Vec<String> = ["status", "aosc-exec-guard-b", "qemu-x", "aosc-exec-guard-a"]
        .iter()
        .map(|s| s.to_string())
        .collect();
    assert_eq!(guard_entries(&names), ["aosc-exec-guard-a", "aosc-exec-guard-b"]);
    let file = |name: &str, text: Option<&str>| RegistryFile {
        name: name.to_string(),
        text: text.map(str::to_string),
    };
    let files = vec![
        file("qemu-z", Some("enabled\ninterpreter /gone\n")),
        file("qemu-a", Some("enabled")),
        file("qemu-b", Some("disabled\n")),
        file("qemu-c", Some(" enabled\n")),
        file("qemu-d", None),
        file("qemu-e", Some("")),
        file("box64", Some("enabled\n")),
    ];
    assert_eq!(enabled_qemu_entries(&files), ["qemu-a", "qemu-z"]);
}

#[test]
fn emulators_are_called_as_the_kernel_calls_them() {
    let mut e = entry("qemu-aarch64", "/usr/bin/q");
    let target = b"/tmp/app".to_vec();
    let args = vec![b"-x".to_vec(), vec![0xff, 0xfe]];
    let plain = run_via_qemu(&e, &target, &args);
    assert_eq!(plain.program, b"/usr/bin/q");
    assert_eq!(plain.args, [b"/tmp/app".to_vec(), b"-x".to_vec(), vec![0xff, 0xfe]]);
    e.flags = "OPF".to_string();
    let with_name = run_via_qemu(&e, &target, &args);
    assert_eq!(
        with_name.args,
        [b"/tmp/app".to_vec(), b"/tmp/app".to_vec(), b"-x".to_vec(), vec![0xff, 0xfe]]
    );
}

#[test]
fn the_registry_is_looked_for_in_its_place() {
    assert_eq!(binfmt_dir(None), b"/proc/sys/fs/binfmt_misc");
    assert_eq!(binfmt_dir(Some(b"/x".to_vec())), b"/x");
    assert_eq!(alternatives_dir(None), b"/usr/lib/binfmt.alternatives");
    assert_eq!(alternatives_dir(Some(b"/y".to_vec())), b"/y");
    assert_eq!(host_binfmt_dir(), b"/proc/1/root/proc/sys/fs/binfmt_misc");
    assert!(registry_visible(false, true, true));
    assert!(!registry_visible(false, true, false));
    assert!(registry_visible(true, true, false));
    assert!(!registry_visible(true, false, true));
}

#[test]
fn the_order_of_listing_does_not_matter() {
    let file = |name: &str| conf(name, conf_line(&name.replace(".conf", ""), "/i", "b7", ""));
    let names = |files: Vec<ConfFile>| -> Vec<String> {
        alternative_entries(&aarch64(), &files).into_iter().map(|e| e.name).collect()
    };
    let first = names(vec![file("b.conf"), file("a.conf"), file("c.conf")]);
    assert_eq!(first, ["a", "b", "c"]);
    assert_eq!(names(vec![file("c.conf"), file("b.conf"), file("a.conf")]), first);
    assert_eq!(names(vec![file("a.conf"), file("c.conf"), file("b.conf")]), first);
}
