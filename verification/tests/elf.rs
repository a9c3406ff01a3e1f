use aosc_exec_guard::elf::{
    arch_sentence, build_message, classify, describe, machine_name, native_machine, parse_elf,
    ElfClass, ElfInfo, Endian, HeaderRead, NotElfReason, Verdict, EI_CLASS, EI_DATA, ELFCLASS32,
    ELFCLASS64, ELFDATA2LSB, ELFDATA2MSB, E_MACHINE_OFF,
};
use aosc_exec_guard::i18n::Lang;
use aosc_exec_guard::qemu::QemuEntry;

fn header64(machine: u16, little_endian: bool) -> Vec<u8> {
    let mut header = vec![0u8; 64];
    header[0..4].copy_from_slice(b"\x7fELF");
    header[EI_CLASS] = ELFCLASS64;
    header[EI_DATA] = if little_endian { ELFDATA2LSB } else { ELFDATA2MSB };
    header[6] = 1;
    header[16] = 2; // e_type = ET_EXEC
    let bytes = if little_endian { machine.to_le_bytes() } else { machine.to_be_bytes() };
    header[E_MACHINE_OFF] = bytes[0];
    header[E_MACHINE_OFF + 1] = bytes[1];
    header
}

#[test]
fn parses_aarch64_elf64() {
    let info = parse_elf(&header64(0xb7, true)).unwrap();
    assert_eq!(info.machine, 0xb7);
    assert_eq!(info.class, ElfClass::Bits64);
}

#[test]
fn parses_i386_elf32() {
    let mut header = header64(0x03, true);
    header[EI_CLASS] = ELFCLASS32;
    let info = parse_elf(&header).unwrap();
    assert_eq!(info.machine, 0x03);
    assert_eq!(info.class, ElfClass::Bits32);
}

#[test]
fn parses_big_endian_s390x() {
    let info = parse_elf(&header64(0x16, false)).unwrap();
    assert_eq!(info.machine, 0x16);
}

#[test]
fn rejects_bad_magic_and_short_files() {
    assert!(parse_elf(b"not an elf file at all").is_err());
    assert!(parse_elf(b"\x7fEL").is_err());
}

#[test]
fn message_reports_mismatch_between_arches() {
    let verdict = Verdict::ArchMismatch(ElfInfo {
        class: ElfClass::Bits64,
        endian: Endian::Little,
        machine: 0xb7,
    });
    let message = build_message(Lang::ZhCn, "/tmp/app", "x86_64", &verdict, None, false);
    assert!(message.contains("aarch64"));
    assert!(message.contains("x86_64"));
    assert!(message.contains("64 位"));

    let english = build_message(Lang::En, "/tmp/app", "x86_64", &verdict, None, false);
    assert!(english.contains("cannot run"));
    assert!(english.contains("64-bit"));
    assert!(!english.contains("无法"));
}

#[test]
fn message_mentions_installed_emulator() {
    let verdict = Verdict::ArchMismatch(ElfInfo {
        class: ElfClass::Bits64,
        endian: Endian::Little,
        machine: 0xb7,
    });
    let entry = QemuEntry {
        name: "qemu-aarch64".to_string(),
        interpreter: "/usr/bin/qemu-aarch64-static".as_bytes().to_vec(),
        flags: "OCF".to_string(),
    };
    let message = build_message(Lang::ZhCn, "/tmp/app", "x86_64", &verdict, Some(&entry), false);
    assert!(message.contains("qemu-aarch64"));
    assert!(message.contains("AOSC_EXEC_GUARD_QEMU"));
}

#[test]
fn message_reports_native_but_rejected() {
    let verdict = Verdict::NativeButRejected(ElfInfo {
        class: ElfClass::Bits64,
        endian: Endian::Little,
        machine: 0x3e,
    });
    let message = build_message(Lang::ZhCn, "/tmp/app", "x86_64", &verdict, None, false);
    assert!(message.contains("损坏"));
}

#[test]
fn message_reports_non_elf() {
    let verdict = Verdict::NotElf(NotElfReason::NotElf);
    let message = build_message(Lang::ZhCn, "/tmp/app", "x86_64", &verdict, None, false);
    assert!(message.contains("不是 ELF"));
}

#[test]
fn every_defect_of_a_header_has_its_reason() {
    let good = header64(0xb7, true);
    assert_eq!(parse_elf(&good[..19]), Err(NotElfReason::TooSmall));
    assert!(parse_elf(&good[..20]).is_ok());
    let mut bad = good.clone();
    bad[3] = b'G';
    assert_eq!(parse_elf(&bad), Err(NotElfReason::NotElf));
    let mut bad = good.clone();
    bad[EI_CLASS] = 3;
    bad[EI_DATA] = 0;
    assert_eq!(parse_elf(&bad), Err(NotElfReason::BadClass));
    let mut bad = good.clone();
    bad[EI_DATA] = 0;
    assert_eq!(parse_elf(&bad), Err(NotElfReason::BadEndian));
}

#[test]
fn machine_is_read_in_the_order_of_the_header() {
    assert_eq!(parse_elf(&header64(0x9026, true)).unwrap().machine, 0x9026);
    assert_eq!(parse_elf(&header64(0x9026, false)).unwrap().machine, 0x9026);
    let info = parse_elf(&header64(0xbaab, false)).unwrap();
    assert_eq!(info.endian, Endian::Big);
    assert_eq!(info.machine_pair(), (0xba, 0xab));
    assert_eq!(info.class.bits(), 64);
    assert_eq!(info.class.byte(), ELFCLASS64);
    assert_eq!(info.endian.byte(), ELFDATA2MSB);
}

#[test]
fn bytes_past_the_header_do_not_matter() {
    let long = header64(0xf3, true);
    assert_eq!(parse_elf(&long), parse_elf(&long[..20]));
}

#[test]
fn verdict_follows_from_what_was_read() {
    assert_eq!(
        classify(&HeaderRead::Unopened, Some(0x3e)),
        Verdict::NotElf(NotElfReason::CannotRead)
    );
    assert_eq!(
        classify(&HeaderRead::EndedEarly, Some(0x3e)),
        Verdict::NotElf(NotElfReason::TooSmall)
    );
    assert_eq!(
        classify(&HeaderRead::Failed, None),
        Verdict::NotElf(NotElfReason::ReadFailed)
    );
    let bytes = HeaderRead::Bytes(header64(0x3e, true));
    let info = ElfInfo { class: ElfClass::Bits64, endian: Endian::Little, machine: 0x3e };
    assert_eq!(classify(&bytes, Some(0x3e)), Verdict::NativeButRejected(info));
    assert_eq!(classify(&bytes, Some(0xb7)), Verdict::ArchMismatch(info));
    assert_eq!(classify(&bytes, None), Verdict::ArchMismatch(info));
    assert_eq!(
        classify(&HeaderRead::Bytes(b"#!/bin/sh\nexit 0 # long enough".to_vec()), None),
        Verdict::NotElf(NotElfReason::NotElf)
    );
}

#[test]
fn machines_have_names_and_numbers() {
    assert_eq!(native_machine("x86_64"), Some(0x3e));
    assert_eq!(native_machine("riscv32"), Some(0xf3));
    assert_eq!(native_machine("riscv64"), Some(0xf3));
    assert_eq!(native_machine("mips64"), Some(0x08));
    assert_eq!(native_machine("loongarch64"), Some(0x102));
    assert_eq!(native_machine("sparc64"), None);
    assert_eq!(machine_name(0x2b), Some("SPARC64（SPARC v9）"));
    assert_eq!(machine_name(0x1234), None);
    assert_eq!(describe(Lang::En, 0x102), "LoongArch");
    assert_eq!(describe(Lang::En, 0x12ab), "unknown architecture (e_machine=0x12ab)");
    assert_eq!(describe(Lang::ZhCn, 0), "未知架构（e_machine=0x0）");
    assert_eq!(describe(Lang::ZhCn, 0xffff), "未知架构（e_machine=0xffff）");
}

#[test]
fn messages_are_exact() {
    let info = ElfInfo { class: ElfClass::Bits32, endian: Endian::Big, machine: 0x02 };
    assert_eq!(
        arch_sentence(Lang::En, &info, "aarch64"),
        "a 32-bit program built for SPARC, but this machine is aarch64"
    );
    let verdict = Verdict::ArchMismatch(info);
    assert_eq!(
        build_message(Lang::En, "/x", "aarch64", &verdict, None, false),
        "\"/x\" cannot run: a 32-bit program built for SPARC, but this machine is aarch64.\n\
         Hint: install an emulator for that architecture (qemu-user-static, box64, ...) and \
         retry, or use the native AOSC OS build."
    );
    let isolated = build_message(Lang::En, "/x", "aarch64", &verdict, None, true);
    assert!(isolated.contains("--handover"));
    assert_eq!(
        build_message(Lang::En, "/x", "x86_64", &Verdict::NotElf(NotElfReason::TooSmall), None, true),
        "\"/x\" cannot run: file is too small to be a valid ELF executable."
    );
}
