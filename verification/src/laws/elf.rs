//! Of headers, machines and verdicts.

use vstd::prelude::*;

use crate::elf::{ElfClass, ElfInfo, Endian, HeaderRead, NotElfReason, Verdict};
use crate::i18n::Lang;

verus! {

/// The bytes that every ELF file starts with.
pub open spec fn starts_like_elf(bytes: Seq<u8>) -> bool {
    bytes[0] == 0x7f && bytes[1] == 0x45 && bytes[2] == 0x4c && bytes[3] == 0x46
}

/// The numbers that stand for the classes and the byte orders, and the widths.
pub proof fn codes_are_those_of_elf(class: ElfClass, endian: Endian)
    ensures
        class == ElfClass::Bits32 ==> class.code() == 1 && class.width() == 32,
        class == ElfClass::Bits64 ==> class.code() == 2 && class.width() == 64,
        endian == Endian::Little ==> endian.code() == 1,
        endian == Endian::Big ==> endian.code() == 2,
{
}

/// A header is refused for its first defect, in this order: its length, its
/// first four bytes, its class, its byte order.
pub proof fn defects_are_told_in_order(bytes: Seq<u8>)
    ensures
        crate::elf::header_info(bytes) == Err::<ElfInfo, NotElfReason>(NotElfReason::TooSmall)
            <==> bytes.len() < 20,
        crate::elf::header_info(bytes) == Err::<ElfInfo, NotElfReason>(NotElfReason::NotElf)
            <==> bytes.len() >= 20 && !starts_like_elf(bytes),
        crate::elf::header_info(bytes) == Err::<ElfInfo, NotElfReason>(NotElfReason::BadClass)
            <==> bytes.len() >= 20 && starts_like_elf(bytes) && bytes[4] != 1 && bytes[4] != 2,
        crate::elf::header_info(bytes) == Err::<ElfInfo, NotElfReason>(NotElfReason::BadEndian)
            <==> bytes.len() >= 20 && starts_like_elf(bytes) && (bytes[4] == 1 || bytes[4] == 2)
            && bytes[5] != 1 && bytes[5] != 2,
        crate::elf::header_info(bytes) is Ok <==> bytes.len() >= 20 && starts_like_elf(bytes) && (
        bytes[4] == 1 || bytes[4] == 2) && (bytes[5] == 1 || bytes[5] == 2),
{
    lemma_magic(bytes);
}

/// The first four bytes, compared at once and one by one.
proof fn lemma_magic(bytes: Seq<u8>)
    ensures
        bytes.len() >= 20 ==> (bytes.take(4) == crate::elf::elf_magic() <==> starts_like_elf(
            bytes,
        )),
{
    if bytes.len() >= 20 {
        let four = bytes.take(4);
        let magic = crate::elf::elf_magic();
        assert(four[0] == bytes[0] && four[1] == bytes[1] && four[2] == bytes[2] && four[3]
            == bytes[3]);
        assert(magic[0] == 0x7f && magic[1] == 0x45 && magic[2] == 0x4c && magic[3] == 0x46);
        if starts_like_elf(bytes) {
            assert(four =~= magic);
        }
    }
}

/// A header that is read says what its bytes do: the class by the fifth, the
/// byte order by the sixth, and the machine by the last two, in that order.
pub proof fn header_says_what_its_bytes_do(bytes: Seq<u8>)
    requires
        crate::elf::header_info(bytes) is Ok,
    ensures
        ({
            let info = crate::elf::header_info(bytes)->Ok_0;
            &&& info.class == ElfClass::Bits32 <==> bytes[4] == 1
            &&& info.class == ElfClass::Bits64 <==> bytes[4] == 2
            &&& info.endian == Endian::Little <==> bytes[5] == 1
            &&& info.endian == Endian::Big <==> bytes[5] == 2
            &&& bytes[5] == 1 ==> info.machine == bytes[18] + 256 * bytes[19]
            &&& bytes[5] == 2 ==> info.machine == 256 * bytes[18] + bytes[19]
        }),
{
    defects_are_told_in_order(bytes);
}

/// A program is native exactly where the machine that its header names is
/// known to be this one; any other that can be read is of another machine, be
/// its number the greater or the smaller.
pub proof fn machines_are_told_apart(read: HeaderRead, native: Option<u16>)
    requires
        read is Bytes,
        crate::elf::header_info(read->Bytes_0@) is Ok,
    ensures
        ({
            let info = crate::elf::header_info(read->Bytes_0@)->Ok_0;
            let verdict = crate::elf::verdict_on(read, native);
            &&& verdict == Verdict::NativeButRejected(info) || verdict == Verdict::ArchMismatch(
                info,
            )
            &&& verdict is NativeButRejected <==> native is Some && native->0 == info.machine
            &&& native is None ==> verdict is ArchMismatch
        }),
{
}

/// Two machines are foreign to each other: a program of either is one of
/// another machine on the other.
pub proof fn foreign_goes_both_ways(one: HeaderRead, other: HeaderRead)
    requires
        one is Bytes,
        other is Bytes,
        crate::elf::header_info(one->Bytes_0@) is Ok,
        crate::elf::header_info(other->Bytes_0@) is Ok,
    ensures
        ({
            let a = crate::elf::header_info(one->Bytes_0@)->Ok_0.machine;
            let b = crate::elf::header_info(other->Bytes_0@)->Ok_0.machine;
            &&& a != b ==> crate::elf::verdict_on(one, Some(b)) is ArchMismatch
                && crate::elf::verdict_on(other, Some(a)) is ArchMismatch
            &&& a == b ==> crate::elf::verdict_on(one, Some(b)) is NativeButRejected
                && crate::elf::verdict_on(other, Some(a)) is NativeButRejected
        }),
{
    machines_are_told_apart(one, Some(crate::elf::header_info(other->Bytes_0@)->Ok_0.machine));
    machines_are_told_apart(other, Some(crate::elf::header_info(one->Bytes_0@)->Ok_0.machine));
}

/// A file that gives no header is no ELF file, for the reason that it gave
/// none, whatever this machine is.
pub proof fn unreadable_files_are_no_elf(read: HeaderRead, native: Option<u16>)
    ensures
        read is Unopened ==> crate::elf::verdict_on(read, native) == Verdict::NotElf(
            NotElfReason::CannotRead,
        ),
        read is EndedEarly ==> crate::elf::verdict_on(read, native) == Verdict::NotElf(
            NotElfReason::TooSmall,
        ),
        read is Failed ==> crate::elf::verdict_on(read, native) == Verdict::NotElf(
            NotElfReason::ReadFailed,
        ),
        read is Bytes && crate::elf::header_info(read->Bytes_0@) is Err ==> crate::elf::verdict_on(
            read,
            native,
        ) == Verdict::NotElf(crate::elf::header_info(read->Bytes_0@)->Err_0),
{
}

/// The numbers of the machines that Rust names.
#[verifier::spinoff_prover]
pub proof fn native_machines_have_their_numbers(arch: Seq<char>)
    ensures
        crate::elf::machine_of(arch) == Some(0x03u16) <==> arch == "x86"@,
        crate::elf::machine_of(arch) == Some(0x3eu16) <==> arch == "x86_64"@,
        crate::elf::machine_of(arch) == Some(0x28u16) <==> arch == "arm"@,
        crate::elf::machine_of(arch) == Some(0xb7u16) <==> arch == "aarch64"@,
        crate::elf::machine_of(arch) == Some(0xf3u16) <==> arch == "riscv32"@ || arch
            == "riscv64"@,
        crate::elf::machine_of(arch) == Some(0x102u16) <==> arch == "loongarch64"@,
        crate::elf::machine_of(arch) == Some(0x14u16) <==> arch == "powerpc"@,
        crate::elf::machine_of(arch) == Some(0x15u16) <==> arch == "powerpc64"@,
        crate::elf::machine_of(arch) == Some(0x16u16) <==> arch == "s390x"@,
        crate::elf::machine_of(arch) == Some(0x08u16) <==> arch == "mips"@ || arch == "mips64"@,
        crate::elf::machine_of(arch) is Some ==> crate::elf::name_of(
            crate::elf::machine_of(arch)->0,
        ) is Some,
{
    reveal_strlit("x86");
    reveal_strlit("x86_64");
    reveal_strlit("arm");
    reveal_strlit("aarch64");
    reveal_strlit("riscv32");
    reveal_strlit("riscv64");
    reveal_strlit("loongarch64");
    reveal_strlit("powerpc");
    reveal_strlit("powerpc64");
    reveal_strlit("s390x");
    reveal_strlit("mips");
    reveal_strlit("mips64");
    assert("x86"@.len() == 3 && "arm"@.len() == 3 && "mips"@.len() == 4 && "s390x"@.len() == 5);
    assert("x86_64"@.len() == 6 && "mips64"@.len() == 6);
    assert("aarch64"@.len() == 7 && "riscv32"@.len() == 7 && "riscv64"@.len() == 7
        && "powerpc"@.len() == 7);
    assert("powerpc64"@.len() == 9 && "loongarch64"@.len() == 11);
    assert("x86"@[0] != "arm"@[0]);
    assert("x86_64"@[0] != "mips64"@[0]);
    assert("aarch64"@[0] == 'a' && "riscv32"@[0] == 'r' && "riscv64"@[0] == 'r' && "powerpc"@[0]
        == 'p');
}

/// What machines are called, and that no other is called anything.
pub proof fn machines_have_their_names(machine: u16)
    ensures
        machine == 0x02 ==> crate::elf::name_of(machine) == Some("SPARC"@),
        machine == 0x03 ==> crate::elf::name_of(machine) == Some("i386（x86）"@),
        machine == 0x04 ==> crate::elf::name_of(machine) == Some("m68k"@),
        machine == 0x08 ==> crate::elf::name_of(machine) == Some("MIPS"@),
        machine == 0x12 ==> crate::elf::name_of(machine) == Some("SPARC32PLUS（SPARC V8+）"@),
        machine == 0x14 ==> crate::elf::name_of(machine) == Some("PowerPC"@),
        machine == 0x15 ==> crate::elf::name_of(machine) == Some("PowerPC 64"@),
        machine == 0x16 ==> crate::elf::name_of(machine) == Some("s390x"@),
        machine == 0x28 ==> crate::elf::name_of(machine) == Some("ARM"@),
        machine == 0x2a ==> crate::elf::name_of(machine) == Some("SuperH"@),
        machine == 0x2b ==> crate::elf::name_of(machine) == Some("SPARC64（SPARC v9）"@),
        machine == 0x3e ==> crate::elf::name_of(machine) == Some("x86_64"@),
        machine == 0xb7 ==> crate::elf::name_of(machine) == Some("aarch64（ARM64）"@),
        machine == 0xf3 ==> crate::elf::name_of(machine) == Some("RISC-V"@),
        machine == 0x102 ==> crate::elf::name_of(machine) == Some("LoongArch"@),
        machine == 0x9026 ==> crate::elf::name_of(machine) == Some("Alpha"@),
        machine == 0xbaab ==> crate::elf::name_of(machine) == Some("MicroBlaze"@),
        crate::elf::name_of(machine) is Some <==> machine == 0x02 || machine == 0x03 || machine
            == 0x04 || machine == 0x08 || machine == 0x12 || machine == 0x14 || machine == 0x15
            || machine == 0x16 || machine == 0x28 || machine == 0x2a || machine == 0x2b || machine
            == 0x3e || machine == 0xb7 || machine == 0xf3 || machine == 0x102 || machine == 0x9026
            || machine == 0xbaab,
{
}

/// A machine is called by its name wherever it has one, in any language, and
/// by its number in hexadecimal where it has none.
pub proof fn machines_are_called_by_name_or_number(lang: Lang, machine: u16)
    ensures
        crate::elf::name_of(machine) is Some ==> crate::elf::description(lang, machine)
            == crate::elf::name_of(machine)->0,
        crate::elf::name_of(machine) is None ==> crate::text::has_part(
            crate::elf::description(lang, machine),
            "0x"@ + crate::text::numeral(machine as nat, 16),
        ),
{
    if crate::elf::name_of(machine) is None {
        crate::laws::i18n::unknown_machines_are_numbered(lang, machine as nat);
    }
}

/// The sentence on a program names its machine, its width and, in the end, this
/// machine.
pub proof fn sentence_names_both_machines(lang: Lang, info: ElfInfo, native: Seq<char>)
    ensures
        ({
            let s = crate::elf::sentence(lang, info, native);
            let bits: nat = if info.class == ElfClass::Bits32 {
                32
            } else {
                64
            };
            &&& crate::text::has_part(s, crate::elf::description(lang, info.machine))
            &&& crate::text::has_part(s, crate::text::numeral(bits, 10))
            &&& crate::text::has_part(s, native)
            &&& native.len() <= s.len() && s.skip(s.len() - native.len()) == native
        }),
{
    crate::laws::i18n::arch_sentence_holds(
        lang,
        crate::elf::description(lang, info.machine),
        info.class.width() as nat,
        native,
    );
    let s = crate::elf::sentence(lang, info, native);
    assert(s.skip(s.len() - native.len()) =~= native);
}

/// Every message names the program; that on a foreign one holds the sentence on
/// it and a hint, that on a native one names the machine, and that on a file
/// which is no ELF file gives the reason.
pub proof fn messages_explain(
    lang: Lang,
    path: Seq<char>,
    native: Seq<char>,
    verdict: Verdict,
    emulator: Option<Seq<char>>,
    isolated: bool,
)
    ensures
        ({
            let m = crate::elf::message(lang, path, native, verdict, emulator, isolated);
            &&& crate::text::has_part(m, path)
            &&& verdict matches Verdict::ArchMismatch(info) ==> crate::text::has_part(
                m,
                crate::elf::sentence(lang, info, native),
            ) && crate::text::has_part(m, crate::elf::hint(lang, emulator, isolated))
            &&& verdict matches Verdict::NativeButRejected(info) ==> crate::text::has_part(
                m,
                crate::elf::description(lang, info.machine),
            )
            &&& verdict matches Verdict::NotElf(reason) ==> crate::text::has_part(
                m,
                lang.not_elf_reason_text(reason),
            )
        }),
{
    match verdict {
        Verdict::ArchMismatch(info) => crate::laws::i18n::cannot_run_holds(
            lang,
            path,
            crate::elf::sentence(lang, info, native),
            crate::elf::hint(lang, emulator, isolated),
        ),
        Verdict::NativeButRejected(info) => crate::laws::i18n::native_but_rejected_holds(
            lang,
            path,
            crate::elf::description(lang, info.machine),
        ),
        Verdict::NotElf(reason) => crate::laws::i18n::cannot_run_notelf_holds(
            lang,
            path,
            lang.not_elf_reason_text(reason),
        ),
    }
}

/// An emulator that was found is named, wherever we are; where none was, what
/// is advised in isolation is not what is advised elsewhere.
pub proof fn hints_fit_the_place(lang: Lang, emulator: Seq<char>, isolated: bool)
    ensures
        crate::text::has_part(crate::elf::hint(lang, Some(emulator), isolated), emulator),
        crate::elf::hint(lang, None, true) == lang.hint_isolated_text(),
        crate::elf::hint(lang, None, false) == lang.hint_install_emulator_text(),
{
    crate::laws::i18n::hint_emulator_installed_holds(lang, emulator);
}

} // verus!
