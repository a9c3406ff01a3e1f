//! ELF headers, and whether a program could run on this machine.
//!
//! Twenty bytes tell enough: they are parsed ([`parse_elf`]), weighed against
//! this machine ([`classify`]), and put into words ([`build_message`]).

use vstd::prelude::*;
use vstd::string::*;

use crate::i18n::Lang;
use crate::qemu::QemuEntry;
use crate::text::same_str;

verus! {

/// Where the header says how wide the program's words are.
pub const EI_CLASS: usize = 4;

/// Where the header says in which order the program's bytes go.
pub const EI_DATA: usize = 5;

/// Where the header names the machine, in two bytes.
pub const E_MACHINE_OFF: usize = 18;

/// The class of a 32-bit program.
pub const ELFCLASS32: u8 = 1;

/// The class of a 64-bit program.
pub const ELFCLASS64: u8 = 2;

/// The data encoding of a little-endian program.
pub const ELFDATA2LSB: u8 = 1;

/// The data encoding of a big-endian program.
pub const ELFDATA2MSB: u8 = 2;

/// How wide a program's words are.
#[derive(Debug, Clone, Copy, PartialEq, Eq, Structural)]
pub enum ElfClass {
    /// 32 bits.
    Bits32,
    /// 64 bits.
    Bits64,
}

impl ElfClass {
    /// The width, as a number.
    pub open spec fn width(self) -> u32 {
        match self {
            ElfClass::Bits32 => 32,
            ElfClass::Bits64 => 64,
        }
    }

    /// The byte that stands for the class in a header.
    pub open spec fn code(self) -> u8 {
        match self {
            ElfClass::Bits32 => ELFCLASS32,
            ElfClass::Bits64 => ELFCLASS64,
        }
    }

    /// The width, as a number.
    pub fn bits(self) -> (r: u32)
        ensures
            r == self.width(),
    {
        match self {
            ElfClass::Bits32 => 32,
            ElfClass::Bits64 => 64,
        }
    }

    /// The byte that stands for the class in a header.
    pub fn byte(self) -> (r: u8)
        ensures
            r == self.code(),
    {
        match self {
            ElfClass::Bits32 => ELFCLASS32,
            ElfClass::Bits64 => ELFCLASS64,
        }
    }
}

/// In which order a program's bytes go.
#[derive(Debug, Clone, Copy, PartialEq, Eq, Structural)]
pub enum Endian {
    /// The least significant byte first.
    Little,
    /// The most significant byte first.
    Big,
}

impl Endian {
    /// The byte that stands for the order in a header.
    pub open spec fn code(self) -> u8 {
        match self {
            Endian::Little => ELFDATA2LSB,
            Endian::Big => ELFDATA2MSB,
        }
    }

    /// The byte that stands for the order in a header.
    pub fn byte(self) -> (r: u8)
        ensures
            r == self.code(),
    {
        match self {
            Endian::Little => ELFDATA2LSB,
            Endian::Big => ELFDATA2MSB,
        }
    }
}

/// What a header says of the machine that a program was built for.
#[derive(Debug, Clone, Copy, PartialEq, Eq, Structural)]
pub struct ElfInfo {
    /// How wide its words are.
    pub class: ElfClass,
    /// In which order its bytes go.
    pub endian: Endian,
    /// Its number.
    pub machine: u16,
}

impl ElfInfo {
    /// The two bytes that name the machine, in the program's own byte order.
    pub open spec fn machine_bytes(self) -> (u8, u8) {
        let low = (self.machine % 256) as u8;
        let high = (self.machine / 256) as u8;
        match self.endian {
            Endian::Little => (low, high),
            Endian::Big => (high, low),
        }
    }

    /// The two bytes that name the machine, in the program's own byte order.
    pub fn machine_pair(&self) -> (r: (u8, u8))
        ensures
            r == self.machine_bytes(),
    {
        let low: u8 = (self.machine % 256) as u8;
        let high: u8 = (self.machine / 256) as u8;
        match self.endian {
            Endian::Little => (low, high),
            Endian::Big => (high, low),
        }
    }
}

/// Why a program did not start.
#[derive(Debug, Clone, Copy, PartialEq, Eq, Structural)]
pub enum Verdict {
    /// The file targets a different machine than the host.
    ArchMismatch(ElfInfo),
    /// The file targets the host machine, but the kernel refused it anyway.
    NativeButRejected(ElfInfo),
    /// Not a (readable) ELF file.
    NotElf(NotElfReason),
}

/// Why a file is not an ELF program.
#[derive(Debug, Clone, Copy, PartialEq, Eq, Structural)]
pub enum NotElfReason {
    /// The file cannot be opened.
    CannotRead,
    /// The file ends before the header does.
    TooSmall,
    /// The file does not start like an ELF file.
    NotElf,
    /// The class field holds neither 32 nor 64 bits.
    BadClass,
    /// The data field holds neither byte order.
    BadEndian,
    /// The file was opened and could not be read.
    ReadFailed,
}

/// What came of reading the first bytes of a file.
#[derive(Debug)]
pub enum HeaderRead {
    /// The file could not be opened.
    Unopened,
    /// The file ended too early.
    EndedEarly,
    /// Reading failed for another reason.
    Failed,
    /// The bytes.
    Bytes(Vec<u8>),
}

/// The number of the machine that Rust calls `arch`, if it is known.
pub open spec fn machine_of(arch: Seq<char>) -> Option<u16> {
    if arch == "x86"@ {
        Some(0x03)
    } else if arch == "x86_64"@ {
        Some(0x3e)
    } else if arch == "arm"@ {
        Some(0x28)
    } else if arch == "aarch64"@ {
        Some(0xb7)
    } else if arch == "riscv32"@ || arch == "riscv64"@ {
        Some(0xf3)
    } else if arch == "loongarch64"@ {
        Some(0x102)
    } else if arch == "powerpc"@ {
        Some(0x14)
    } else if arch == "powerpc64"@ {
        Some(0x15)
    } else if arch == "s390x"@ {
        Some(0x16)
    } else if arch == "mips"@ || arch == "mips64"@ {
        Some(0x08)
    } else {
        None
    }
}

/// The machine number of the machine we are running on, whose name in Rust is
/// `arch`, if we know it.
pub fn native_machine(arch: &str) -> (r: Option<u16>)
    ensures
        r == machine_of(arch@),
{
    if same_str(arch, "x86") {
        Some(0x03)
    } else if same_str(arch, "x86_64") {
        Some(0x3e)
    } else if same_str(arch, "arm") {
        Some(0x28)
    } else if same_str(arch, "aarch64") {
        Some(0xb7)
    } else if same_str(arch, "riscv32") || same_str(arch, "riscv64") {
        Some(0xf3)
    } else if same_str(arch, "loongarch64") {
        Some(0x102)
    } else if same_str(arch, "powerpc") {
        Some(0x14)
    } else if same_str(arch, "powerpc64") {
        Some(0x15)
    } else if same_str(arch, "s390x") {
        Some(0x16)
    } else if same_str(arch, "mips") || same_str(arch, "mips64") {
        Some(0x08)
    } else {
        None
    }
}

/// What people call a machine.
pub open spec fn name_of(machine: u16) -> Option<Seq<char>> {
    match machine {
        0x02 => Some("SPARC"@),
        0x03 => Some("i386（x86）"@),
        0x04 => Some("m68k"@),
        0x08 => Some("MIPS"@),
        0x12 => Some("SPARC32PLUS（SPARC V8+）"@),
        0x14 => Some("PowerPC"@),
        0x15 => Some("PowerPC 64"@),
        0x16 => Some("s390x"@),
        0x28 => Some("ARM"@),
        0x2a => Some("SuperH"@),
        0x2b => Some("SPARC64（SPARC v9）"@),
        0x3e => Some("x86_64"@),
        0xb7 => Some("aarch64（ARM64）"@),
        0xf3 => Some("RISC-V"@),
        0x102 => Some("LoongArch"@),
        0x9026 => Some("Alpha"@),
        0xbaab => Some("MicroBlaze"@),
        _ => None,
    }
}

/// What people call a machine, if it is in the table.
pub fn machine_name(machine: u16) -> (r: Option<&'static str>)
    ensures
        r is Some == name_of(machine) is Some,
        r is Some ==> r->0@ == name_of(machine)->0,
{
    Some(
        match machine {
            0x02 => "SPARC",
            0x03 => "i386（x86）",
            0x04 => "m68k",
            0x08 => "MIPS",
            0x12 => "SPARC32PLUS（SPARC V8+）",
            0x14 => "PowerPC",
            0x15 => "PowerPC 64",
            0x16 => "s390x",
            0x28 => "ARM",
            0x2a => "SuperH",
            0x2b => "SPARC64（SPARC v9）",
            0x3e => "x86_64",
            0xb7 => "aarch64（ARM64）",
            0xf3 => "RISC-V",
            0x102 => "LoongArch",
            0x9026 => "Alpha",
            0xbaab => "MicroBlaze",
            _ => return None,
        },
    )
}

/// What a machine is called in a sentence.
pub open spec fn description(lang: Lang, machine: u16) -> Seq<char> {
    match name_of(machine) {
        Some(name) => name,
        None => lang.unknown_machine_text(machine as nat),
    }
}

/// What a machine is called in a sentence: by its number, if it has no name.
pub fn describe(lang: Lang, machine: u16) -> (r: String)
    ensures
        r@ == description(lang, machine),
{
    match machine_name(machine) {
        Some(name) => name.to_owned(),
        None => lang.unknown_machine(machine),
    }
}

/// The bytes that every ELF file starts with.
pub open spec fn elf_magic() -> Seq<u8> {
    seq![0x7f, 0x45, 0x4c, 0x46]
}

/// What the header `bytes` says, or why it is none.
pub open spec fn header_info(bytes: Seq<u8>) -> Result<ElfInfo, NotElfReason> {
    if bytes.len() < E_MACHINE_OFF + 2 {
        Err(NotElfReason::TooSmall)
    } else if bytes.take(4) != elf_magic() {
        Err(NotElfReason::NotElf)
    } else if bytes[EI_CLASS as int] != ELFCLASS32 && bytes[EI_CLASS as int] != ELFCLASS64 {
        Err(NotElfReason::BadClass)
    } else if bytes[EI_DATA as int] != ELFDATA2LSB && bytes[EI_DATA as int] != ELFDATA2MSB {
        Err(NotElfReason::BadEndian)
    } else {
        let class = if bytes[EI_CLASS as int] == ELFCLASS32 {
            ElfClass::Bits32
        } else {
            ElfClass::Bits64
        };
        let first = bytes[E_MACHINE_OFF as int];
        let second = bytes[E_MACHINE_OFF + 1];
        if bytes[EI_DATA as int] == ELFDATA2LSB {
            Ok(ElfInfo { class, endian: Endian::Little, machine: (first + 256 * second) as u16 })
        } else {
            Ok(ElfInfo { class, endian: Endian::Big, machine: (256 * first + second) as u16 })
        }
    }
}

/// Reads an ELF header.
pub fn parse_elf(bytes: &[u8]) -> (r: Result<ElfInfo, NotElfReason>)
    ensures
        r == header_info(bytes@),
{
    if bytes.len() < E_MACHINE_OFF + 2 {
        return Err(NotElfReason::TooSmall);
    }
    if bytes[0] != 0x7f || bytes[1] != 0x45 || bytes[2] != 0x4c || bytes[3] != 0x46 {
        proof {
            assert(bytes@.take(4)[0] == bytes@[0] && bytes@.take(4)[1] == bytes@[1] && bytes@.take(
                4,
            )[2] == bytes@[2] && bytes@.take(4)[3] == bytes@[3]);
        }
        return Err(NotElfReason::NotElf);
    }
    proof {
        assert(bytes@.take(4) =~= elf_magic());
    }
    let class = match bytes[EI_CLASS] {
        1 => ElfClass::Bits32,
        2 => ElfClass::Bits64,
        _ => return Err(NotElfReason::BadClass),
    };
    let first: u16 = bytes[E_MACHINE_OFF] as u16;
    let second: u16 = bytes[E_MACHINE_OFF + 1] as u16;
    match bytes[EI_DATA] {
        1 => Ok(ElfInfo { class, endian: Endian::Little, machine: first + 256 * second }),
        2 => Ok(ElfInfo { class, endian: Endian::Big, machine: 256 * first + second }),
        _ => Err(NotElfReason::BadEndian),
    }
}

/// The verdict on a file, from what came of reading its header and the number
/// of this machine.
pub open spec fn verdict_on(read: HeaderRead, native: Option<u16>) -> Verdict {
    match read {
        HeaderRead::Unopened => Verdict::NotElf(NotElfReason::CannotRead),
        HeaderRead::EndedEarly => Verdict::NotElf(NotElfReason::TooSmall),
        HeaderRead::Failed => Verdict::NotElf(NotElfReason::ReadFailed),
        HeaderRead::Bytes(bytes) => match header_info(bytes@) {
            Err(why) => Verdict::NotElf(why),
            Ok(info) => if native == Some(info.machine) {
                Verdict::NativeButRejected(info)
            } else {
                Verdict::ArchMismatch(info)
            },
        },
    }
}

/// Judges a file by its header. A machine that we do not know as ours is
/// another machine.
pub fn classify(read: &HeaderRead, native: Option<u16>) -> (r: Verdict)
    ensures
        r == verdict_on(*read, native),
{
    match read {
        HeaderRead::Unopened => Verdict::NotElf(NotElfReason::CannotRead),
        HeaderRead::EndedEarly => Verdict::NotElf(NotElfReason::TooSmall),
        HeaderRead::Failed => Verdict::NotElf(NotElfReason::ReadFailed),
        HeaderRead::Bytes(bytes) => match parse_elf(bytes.as_slice()) {
            Err(why) => Verdict::NotElf(why),
            Ok(info) => match native {
                Some(code) => if code == info.machine {
                    Verdict::NativeButRejected(info)
                } else {
                    Verdict::ArchMismatch(info)
                },
                None => Verdict::ArchMismatch(info),
            },
        },
    }
}

/// The sentence that names the program's machine and this one.
pub open spec fn sentence(lang: Lang, info: ElfInfo, native_label: Seq<char>) -> Seq<char> {
    lang.arch_sentence_text(
        description(lang, info.machine),
        info.class.width() as nat,
        native_label,
    )
}

/// Says which machine the program was built for, how wide it is, and that this
/// machine is `native_label`.
pub fn arch_sentence(lang: Lang, info: &ElfInfo, native_label: &str) -> (r: String)
    ensures
        r@ == sentence(lang, *info, native_label@),
{
    lang.arch_sentence(describe(lang, info.machine).as_str(), info.class.bits(), native_label)
}

/// The hint that follows the explanation of a foreign program.
pub open spec fn hint(lang: Lang, emulator: Option<Seq<char>>, isolated: bool) -> Seq<char> {
    match emulator {
        Some(name) => lang.hint_emulator_installed_text(name),
        None => if isolated {
            lang.hint_isolated_text()
        } else {
            lang.hint_install_emulator_text()
        },
    }
}

/// The explanation of a verdict.
pub open spec fn message(
    lang: Lang,
    path: Seq<char>,
    native_label: Seq<char>,
    verdict: Verdict,
    emulator: Option<Seq<char>>,
    isolated: bool,
) -> Seq<char> {
    match verdict {
        Verdict::ArchMismatch(info) => lang.cannot_run_text(
            path,
            sentence(lang, info, native_label),
            hint(lang, emulator, isolated),
        ),
        Verdict::NativeButRejected(info) => lang.native_but_rejected_text(
            path,
            description(lang, info.machine),
        ),
        Verdict::NotElf(reason) => lang.cannot_run_notelf_text(
            path,
            lang.not_elf_reason_text(reason),
        ),
    }
}

/// Explains a verdict to the user. `qemu` is the emulator that was found, and
/// `isolated` says that we are in a chroot or a container, or cannot see the
/// registry of emulators: there installing one would not help.
pub fn build_message(
    lang: Lang,
    path: &str,
    native_label: &str,
    verdict: &Verdict,
    qemu: Option<&QemuEntry>,
    isolated: bool,
) -> (r: String)
    ensures
        r@ == message(
            lang,
            path@,
            native_label@,
            *verdict,
            match qemu {
                Some(entry) => Some(entry.name@),
                None => None,
            },
            isolated,
        ),
{
    match verdict {
        Verdict::ArchMismatch(info) => {
            let hint = match qemu {
                Some(entry) => lang.hint_emulator_installed(entry.name.as_str()),
                None => if isolated {
                    lang.hint_isolated().to_owned()
                } else {
                    lang.hint_install_emulator().to_owned()
                },
            };
            lang.cannot_run(
                path,
                arch_sentence(lang, info, native_label).as_str(),
                hint.as_str(),
            )
        },
        Verdict::NativeButRejected(info) => lang.native_but_rejected(
            path,
            describe(lang, info.machine).as_str(),
        ),
        Verdict::NotElf(reason) => lang.cannot_run_notelf(path, lang.not_elf_reason(*reason)),
    }
}

/// `bytes` is a header that says `info`.
pub open spec fn is_header_of(bytes: Seq<u8>, info: ElfInfo) -> bool {
    &&& bytes.len() >= E_MACHINE_OFF + 2
    &&& bytes.take(4) == elf_magic()
    &&& bytes[EI_CLASS as int] == info.class.code()
    &&& bytes[EI_DATA as int] == info.endian.code()
    &&& bytes[E_MACHINE_OFF as int] == info.machine_bytes().0
    &&& bytes[E_MACHINE_OFF + 1] == info.machine_bytes().1
}

/// Reading undoes writing: a file is read as `info` exactly where its header
/// was written for `info`.
pub proof fn header_round_trip(bytes: Seq<u8>, info: ElfInfo)
    ensures
        is_header_of(bytes, info) <==> header_info(bytes) == Ok::<ElfInfo, NotElfReason>(info),
{
    let first = bytes[E_MACHINE_OFF as int];
    let second = bytes[E_MACHINE_OFF + 1];
    let low = (info.machine % 256) as u8;
    let high = (info.machine / 256) as u8;
    assert(low + 256 * high == info.machine);
    assert((first + 256 * second) as u16 == first + 256 * second);
    assert((256 * first + second) as u16 == 256 * first + second);
}

/// Nothing past the header matters: any two files that agree on their first
/// twenty bytes are read alike.
pub proof fn header_is_enough(bytes: Seq<u8>)
    requires
        bytes.len() >= E_MACHINE_OFF + 2,
    ensures
        header_info(bytes) == header_info(bytes.take(E_MACHINE_OFF + 2)),
{
    assert(bytes.take(E_MACHINE_OFF + 2).take(4) =~= bytes.take(4));
}

} // verus!
