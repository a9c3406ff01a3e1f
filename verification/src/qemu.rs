//! Finding an emulator, and handing a program to it.
//!
//! Emulators are looked for in three places, in this order: the registry of
//! `binfmt_misc` that this process sees; where it sees none, that of the host,
//! by way of `/proc/1/root`; and the rules that packages keep ready in
//! `/usr/lib/binfmt.alternatives/`, for when this program holds the slot and
//! the emulator proper is in no registry. No other path is tried.
//!
//! What stands in those places is read elsewhere and handed in as text.

use vstd::prelude::*;
use vstd::string::*;

use crate::elf::{ElfClass, ElfInfo, Endian};
use crate::order::sort_indices;
use crate::paths::{copy_bytes, join, strip_root, strip_suffix, to_bytes};
use crate::text::{chars_of, find, hex_digit, reads, same_str, split_fields, split_lines, starts_with, string_of, strip_prefix, trim};

verus! {

/// An emulator that is registered, or could be.
#[derive(Debug)]
pub struct QemuEntry {
    /// The name of the entry, such as `qemu-aarch64`.
    pub name: String,
    /// The path of its interpreter, such as `/usr/bin/qemu-aarch64-static`.
    pub interpreter: Vec<u8>,
    /// The flags of the entry, such as `F` or `OCF`.
    pub flags: String,
}

/// What an entry holds.
#[verifier::ext_equal]
pub struct EntryView {
    /// The name of the entry.
    pub name: Seq<char>,
    /// The path of its interpreter.
    pub interpreter: Seq<u8>,
    /// The flags of the entry.
    pub flags: Seq<char>,
}

impl View for QemuEntry {
    type V = EntryView;

    open spec fn view(&self) -> EntryView {
        EntryView {
            name: self.name@,
            interpreter: self.interpreter@,
            flags: self.flags@,
        }
    }
}

impl Clone for QemuEntry {
    fn clone(&self) -> (r: Self)
        ensures
            r@ == self@,
    {
        QemuEntry {
            name: self.name.clone(),
            interpreter: copy_bytes(&self.interpreter),
            flags: self.flags.clone(),
        }
    }
}

/// What an entry that may be missing holds.
pub open spec fn entry_view(entry: Option<QemuEntry>) -> Option<EntryView> {
    match entry {
        Some(e) => Some(e@),
        None => None,
    }
}

/// What each of a list of entries holds.
pub open spec fn entry_views(entries: Seq<QemuEntry>) -> Seq<EntryView> {
    entries.map_values(|e: QemuEntry| e@)
}

/// What each of a list of strings holds.
pub open spec fn string_views(list: Seq<String>) -> Seq<Seq<char>> {
    list.map_values(|s: String| s@)
}

/// The place that is pinned, or else the usual one.
pub open spec fn place_of(pinned: Option<Seq<u8>>, usual: Seq<char>) -> Seq<u8> {
    match pinned {
        Some(place) => place,
        None => crate::paths::bytes(usual),
    }
}

/// Where the registry is: at `/proc/sys/fs/binfmt_misc`, unless it is pinned
/// to another place.
pub fn binfmt_dir(pinned: Option<Vec<u8>>) -> (r: Vec<u8>)
    ensures
        r@ == match pinned {
            Some(dir) => dir@,
            None => crate::paths::bytes("/proc/sys/fs/binfmt_misc"@),
        },
        r@ == place_of(bytes_view(pinned), "/proc/sys/fs/binfmt_misc"@),
{
    match pinned {
        Some(dir) => dir,
        None => to_bytes("/proc/sys/fs/binfmt_misc"),
    }
}

/// Where packages keep their rules ready: at `/usr/lib/binfmt.alternatives`,
/// unless it is pinned to another place.
pub fn alternatives_dir(pinned: Option<Vec<u8>>) -> (r: Vec<u8>)
    ensures
        r@ == match pinned {
            Some(dir) => dir@,
            None => crate::paths::bytes("/usr/lib/binfmt.alternatives"@),
        },
        r@ == place_of(bytes_view(pinned), "/usr/lib/binfmt.alternatives"@),
{
    match pinned {
        Some(dir) => dir,
        None => to_bytes("/usr/lib/binfmt.alternatives"),
    }
}

/// Where a process in a chroot sees the registry of the host.
pub open spec fn host_registry() -> Seq<u8> {
    crate::paths::joined(host_root(), crate::paths::bytes("proc/sys/fs/binfmt_misc"@))
}

/// Where a process in a chroot sees the registry of the host. It is the host's
/// only where process 1 is: in a container it is not.
pub fn host_binfmt_dir() -> (r: Vec<u8>)
    ensures
        r@ == crate::paths::joined(
            host_root(),
            crate::paths::bytes("proc/sys/fs/binfmt_misc"@),
        ),
        r@ == host_registry(),
{
    join(to_bytes("/proc/1/root").as_slice(), to_bytes("proc/sys/fs/binfmt_misc").as_slice())
}

/// The registry is seen: a pinned one by its directory, the real one by the
/// file `register` in it.
pub open spec fn in_sight(pinned: bool, dir_exists: bool, register_exists: bool) -> bool {
    if pinned {
        dir_exists
    } else {
        register_exists
    }
}

/// Whether this process sees the registry. Its directory is there even when
/// nothing is mounted on it, so the file `register` decides; a pinned place
/// only has to exist.
pub fn registry_visible(pinned: bool, dir_exists: bool, register_exists: bool) -> (r: bool)
    ensures
        r == if pinned {
            dir_exists
        } else {
            register_exists
        },
        r == in_sight(pinned, dir_exists, register_exists),
{
    if pinned {
        dir_exists
    } else {
        register_exists
    }
}

/// The name of the qemu entry for a machine, if there is one.
pub open spec fn entry_name(info: ElfInfo) -> Option<Seq<char>> {
    match (info.machine, info.class, info.endian) {
        (0x02, ElfClass::Bits32, Endian::Big) => Some("qemu-sparc"@),
        (0x03, _, _) => Some("qemu-i386"@),
        (0x04, ElfClass::Bits32, Endian::Big) => Some("qemu-m68k"@),
        (0x08, ElfClass::Bits32, Endian::Little) => Some("qemu-mipsel"@),
        (0x08, ElfClass::Bits32, Endian::Big) => Some("qemu-mips"@),
        (0x08, ElfClass::Bits64, Endian::Little) => Some("qemu-mips64el"@),
        (0x08, ElfClass::Bits64, Endian::Big) => Some("qemu-mips64"@),
        (0x12, ElfClass::Bits32, Endian::Big) => Some("qemu-sparc32plus"@),
        (0x14, _, _) => Some("qemu-ppc"@),
        (0x15, _, Endian::Little) => Some("qemu-ppc64le"@),
        (0x15, _, Endian::Big) => Some("qemu-ppc64"@),
        (0x16, _, _) => Some("qemu-s390x"@),
        (0x28, _, Endian::Little) => Some("qemu-arm"@),
        (0x28, _, Endian::Big) => Some("qemu-armeb"@),
        (0x2a, _, Endian::Little) => Some("qemu-sh4"@),
        (0x2a, _, Endian::Big) => Some("qemu-sh4eb"@),
        (0x2b, ElfClass::Bits64, Endian::Big) => Some("qemu-sparc64"@),
        (0x3e, _, _) => Some("qemu-x86_64"@),
        (0xb7, _, Endian::Little) => Some("qemu-aarch64"@),
        (0xb7, _, Endian::Big) => Some("qemu-aarch64_be"@),
        (0xf3, ElfClass::Bits32, Endian::Little) => Some("qemu-riscv32"@),
        (0xf3, ElfClass::Bits64, Endian::Little) => Some("qemu-riscv64"@),
        (0x102, _, Endian::Little) => Some("qemu-loongarch64"@),
        (0x9026, ElfClass::Bits64, Endian::Little) => Some("qemu-alpha"@),
        (0xbaab, ElfClass::Bits32, Endian::Big) => Some("qemu-microblaze"@),
        _ => None,
    }
}

/// The names of the qemu entries for a machine: one, or none.
pub open spec fn entry_names_for(info: ElfInfo) -> Seq<Seq<char>> {
    match entry_name(info) {
        Some(name) => seq![name],
        None => Seq::empty(),
    }
}

/// What each of a list of static strings holds.
pub open spec fn str_views(list: Seq<&'static str>) -> Seq<Seq<char>> {
    list.map_values(|s: &'static str| s@)
}

/// The names of the qemu-user entries that can run a program.
pub fn qemu_entry_names(info: &ElfInfo) -> (r: Vec<&'static str>)
    ensures
        str_views(r@) == entry_names_for(*info),
{
    let mut r: Vec<&'static str> = Vec::new();
    let name: &'static str = match (info.machine, info.class, info.endian) {
        (0x02, ElfClass::Bits32, Endian::Big) => "qemu-sparc",
        (0x03, _, _) => "qemu-i386",
        (0x04, ElfClass::Bits32, Endian::Big) => "qemu-m68k",
        (0x08, ElfClass::Bits32, Endian::Little) => "qemu-mipsel",
        (0x08, ElfClass::Bits32, Endian::Big) => "qemu-mips",
        (0x08, ElfClass::Bits64, Endian::Little) => "qemu-mips64el",
        (0x08, ElfClass::Bits64, Endian::Big) => "qemu-mips64",
        (0x12, ElfClass::Bits32, Endian::Big) => "qemu-sparc32plus",
        (0x14, _, _) => "qemu-ppc",
        (0x15, _, Endian::Little) => "qemu-ppc64le",
        (0x15, _, Endian::Big) => "qemu-ppc64",
        (0x16, _, _) => "qemu-s390x",
        (0x28, _, Endian::Little) => "qemu-arm",
        (0x28, _, Endian::Big) => "qemu-armeb",
        (0x2a, _, Endian::Little) => "qemu-sh4",
        (0x2a, _, Endian::Big) => "qemu-sh4eb",
        (0x2b, ElfClass::Bits64, Endian::Big) => "qemu-sparc64",
        (0x3e, _, _) => "qemu-x86_64",
        (0xb7, _, Endian::Little) => "qemu-aarch64",
        (0xb7, _, Endian::Big) => "qemu-aarch64_be",
        (0xf3, ElfClass::Bits32, Endian::Little) => "qemu-riscv32",
        (0xf3, ElfClass::Bits64, Endian::Little) => "qemu-riscv64",
        (0x102, _, Endian::Little) => "qemu-loongarch64",
        (0x9026, ElfClass::Bits64, Endian::Little) => "qemu-alpha",
        (0xbaab, ElfClass::Bits32, Endian::Big) => "qemu-microblaze",
        _ => {
            proof {
                assert(str_views(r@) =~= entry_names_for(*info));
            }
            return r;
        },
    };
    r.push(name);
    proof {
        assert(str_views(r@) =~= entry_names_for(*info));
    }
    r
}

/// The bytes that a field of a rule stands for: `\xNN` is a byte in
/// hexadecimal, and any other ASCII character is its own byte. Anything else
/// makes the field unreadable.
pub open spec fn unescaped(field: Seq<char>) -> Option<Seq<u8>>
    decreases field.len(),
{
    if field.len() == 0 {
        Some(Seq::empty())
    } else if field[0] == '\\' {
        if field.len() >= 4 && field[1] == 'x' && crate::text::hex_value(field[2]) is Some
            && crate::text::hex_value(field[3]) is Some {
            prepended(
                seq![
                    (crate::text::hex_value(field[2])->0 * 16 + crate::text::hex_value(
                        field[3],
                    )->0) as u8,
                ],
                unescaped(field.skip(4)),
            )
        } else {
            None
        }
    } else if field[0] <= '\u{7f}' {
        prepended(seq![field[0] as u8], unescaped(field.skip(1)))
    } else {
        None
    }
}

/// `front` and what follows, if anything readable does.
pub open spec fn prepended(front: Seq<u8>, back: Option<Seq<u8>>) -> Option<Seq<u8>> {
    match back {
        Some(bytes) => Some(front + bytes),
        None => None,
    }
}

/// The bytes of an optional vector.
pub open spec fn bytes_view(v: Option<Vec<u8>>) -> Option<Seq<u8>> {
    match v {
        Some(bytes) => Some(bytes@),
        None => None,
    }
}

/// Reads a field of a rule, such as `\x7fELF`.
pub fn unescape_bytes(field: &[char]) -> (r: Option<Vec<u8>>)
    ensures
        bytes_view(r) == unescaped(field@),
{
    let mut out: Vec<u8> = Vec::new();
    let mut i: usize = 0;
    proof {
        assert(field@.skip(0) =~= field@);
        assert(unescaped(field@) is Some ==> out@ + unescaped(field@)->0 =~= unescaped(field@)->0);
    }
    while i < field.len()
        invariant
            i <= field.len(),
            unescaped(field@) == prepended(out@, unescaped(field@.skip(i as int))),
        decreases field.len() - i,
    {
        let c: char = field[i];
        let ghost was = out@;
        let ghost left = field@.skip(i as int);
        if c == '\\' {
            if field.len() - i < 4 || field[i + 1] != 'x' {
                return None;
            }
            match (hex_digit(field[i + 2]), hex_digit(field[i + 3])) {
                (Some(hi), Some(lo)) => {
                    out.push(hi * 16 + lo);
                },
                _ => return None,
            }
            proof {
                assert(left.skip(4) =~= field@.skip(i + 4));
            }
            i += 4;
        } else if c <= '\u{7f}' {
            out.push(c as u8);
            proof {
                assert(left.skip(1) =~= field@.skip(i + 1));
            }
            i += 1;
        } else {
            return None;
        }
        proof {
            let rest = unescaped(field@.skip(i as int));
            if rest is Some {
                assert(was + (seq![out@.last()] + rest->0) =~= out@ + rest->0);
            }
        }
    }
    proof {
        assert(field@.skip(i as int) =~= Seq::<char>::empty());
        assert(out@ + Seq::<u8>::empty() =~= out@);
    }
    Some(out)
}

/// The byte at `i` of a header for `info`, where `info` fixes it.
pub open spec fn header_byte(info: ElfInfo, i: int) -> u8 {
    if i == 0 {
        0x7f
    } else if i == 1 {
        0x45
    } else if i == 2 {
        0x4c
    } else if i == 3 {
        0x46
    } else if i == 4 {
        info.class.code()
    } else if i == 5 {
        info.endian.code()
    } else if i == 18 {
        info.machine_bytes().0
    } else {
        info.machine_bytes().1
    }
}

/// The places of a header that tell machines apart: the magic number, the
/// class, the byte order and the machine.
pub open spec fn is_fixed(i: int) -> bool {
    0 <= i < 6 || 18 <= i < 20
}

/// `magic` and `byte` agree in the bits of `mask`.
pub open spec fn agree(magic: u8, mask: u8, byte: u8) -> bool {
    magic & mask == byte & mask
}

/// A rule with `magic` and `mask` takes programs for `info`: it cares for the
/// class, the byte order and the machine, and finds in a header for `info`
/// what it looks for. What `info` leaves open (the file type) is left to the rule.
pub open spec fn rule_takes(magic: Seq<u8>, mask: Seq<u8>, info: ElfInfo) -> bool {
    &&& magic.len() >= 20
    &&& mask.len() >= 20
    &&& mask[4] != 0
    &&& mask[5] != 0
    &&& mask[18] != 0 || mask[19] != 0
    &&& forall|i: int| is_fixed(i) ==> #[trigger] agree(magic[i], mask[i], header_byte(info, i))
}

/// Whether a rule with `magic` and `mask` takes programs for `info`.
pub fn magic_matches(magic: &[u8], mask: &[u8], info: &ElfInfo) -> (r: bool)
    ensures
        r == rule_takes(magic@, mask@, *info),
{
    if magic.len() < 20 || mask.len() < 20 {
        return false;
    }
    if mask[4] == 0 || mask[5] == 0 || (mask[18] == 0 && mask[19] == 0) {
        return false;
    }
    let machine = info.machine_pair();
    let expected: [u8; 8] = [
        0x7f,
        0x45,
        0x4c,
        0x46,
        info.class.byte(),
        info.endian.byte(),
        machine.0,
        machine.1,
    ];
    let mut k: usize = 0;
    while k < 8
        invariant
            k <= 8,
            magic.len() >= 20,
            mask.len() >= 20,
            expected@.len() == 8,
            forall|j: int|
                0 <= j < 8 ==> #[trigger] expected@[j] == header_byte(
                    *info,
                    if j < 6 {
                        j
                    } else {
                        j + 12
                    },
                ),
            forall|i: int|
                is_fixed(i) && i < (if k <= 6 {
                    k as int
                } else {
                    k + 12
                }) ==> #[trigger] agree(magic@[i], mask@[i], header_byte(*info, i)),
        decreases 8 - k,
    {
        let i: usize = if k < 6 {
            k
        } else {
            k + 12
        };
        if magic[i] & mask[i] != expected[k] & mask[i] {
            proof {
                assert(!agree(magic@[i as int], mask@[i as int], header_byte(*info, i as int)));
            }
            return false;
        }
        k += 1;
    }
    true
}

/// What this program's own entries are called.
pub open spec fn is_own(name: Seq<char>) -> bool {
    crate::text::has_prefix(name, "aosc-exec-guard-"@)
}

/// The entry that a line of a rules file makes (`:name:M::magic:mask:interpreter:flags`),
/// where it is a rule on magic bytes at the start of the file, is not one of
/// this program's own, and takes programs for `info`.
pub open spec fn conf_entry(line: Seq<char>, info: ElfInfo) -> Option<EntryView> {
    let f = crate::text::fields(crate::text::trimmed(line), ':', 8);
    if f.len() < 7 || f[0].len() > 0 || f[1].len() == 0 || is_own(f[1]) || f[2] != "M"@ || !(
    f[3].len() == 0 || f[3] == "0"@) {
        None
    } else {
        match (unescaped(f[4]), unescaped(f[5])) {
            (Some(magic), Some(mask)) => if rule_takes(magic, mask, info) {
                Some(
                    EntryView {
                        name: f[1],
                        interpreter: crate::paths::bytes(f[6]),
                        flags: if f.len() == 8 {
                            f[7]
                        } else {
                            Seq::empty()
                        },
                    },
                )
            } else {
                None
            },
            _ => None,
        }
    }
}

/// Makes an entry.
fn make_entry(name: &[char], interpreter: &[char], flags: &[char]) -> (r: QemuEntry)
    ensures
        r@ == (EntryView {
            name: name@,
            interpreter: crate::paths::bytes(interpreter@),
            flags: flags@,
        }),
{
    QemuEntry {
        name: string_of(name),
        interpreter: to_bytes(string_of(interpreter).as_str()),
        flags: string_of(flags),
    }
}

/// Reads a line of a rules file, keeping what takes programs for `info`.
pub fn parse_conf_line(line: &[char], info: &ElfInfo) -> (r: Option<QemuEntry>)
    ensures
        entry_view(r) == conf_entry(line@, *info),
{
    let f = split_fields(trim(line), ':', 8);
    let ghost views = crate::text::views(f@);
    proof {
        assert(views.len() == f@.len());
        assert(forall|i: int| 0 <= i < f@.len() ==> views[i] == #[trigger] f@[i]@);
        crate::text::lemma_fields_len(crate::text::trimmed(line@), ':', 8);
    }
    if f.len() < 7 || f[0].len() > 0 || f[1].len() == 0 || starts_with(f[1], "aosc-exec-guard-")
        || !reads(f[2], "M") || !(f[3].len() == 0 || reads(f[3], "0")) {
        return None;
    }
    match (unescape_bytes(f[4]), unescape_bytes(f[5])) {
        (Some(magic), Some(mask)) => {
            if !magic_matches(magic.as_slice(), mask.as_slice(), info) {
                return None;
            }
            if f.len() == 8 {
                Some(make_entry(f[1], f[6], f[7]))
            } else {
                let none: Vec<char> = Vec::new();
                Some(make_entry(f[1], f[6], none.as_slice()))
            }
        },
        _ => None,
    }
}

/// What the last of `lines` that starts with `key` says behind it.
pub open spec fn last_value(lines: Seq<Seq<char>>, key: Seq<char>) -> Option<Seq<char>>
    decreases lines.len(),
{
    if lines.len() == 0 {
        None
    } else if crate::text::has_prefix(lines.last(), key) {
        Some(crate::text::trimmed(lines.last().skip(key.len() as int)))
    } else {
        last_value(lines.drop_last(), key)
    }
}

/// The entry called `name` that a file of the registry describes: its first
/// line says that it is enabled, and others name the interpreter and the flags.
pub open spec fn registered_entry(name: Seq<char>, text: Seq<char>) -> Option<EntryView> {
    let all = crate::text::lines(text);
    if all.len() == 0 || crate::text::trimmed(all[0]) != "enabled"@ {
        None
    } else {
        match last_value(all.skip(1), "interpreter "@) {
            None => None,
            Some(path) => Some(
                EntryView {
                    name,
                    interpreter: crate::paths::bytes(path),
                    flags: match last_value(all.skip(1), "flags:"@) {
                        Some(flags) => flags,
                        None => Seq::empty(),
                    },
                },
            ),
        }
    }
}

/// What an optional slice of characters holds.
spec fn chars_view(v: Option<&[char]>) -> Option<Seq<char>> {
    match v {
        Some(chars) => Some(chars@),
        None => None,
    }
}

/// What the last of `lines`, from the second on, that starts with `key` says
/// behind it.
fn find_last_value<'a>(lines: &Vec<&'a [char]>, key: &str) -> (r: Option<&'a [char]>)
    requires
        lines@.len() >= 1,
    ensures
        chars_view(r) == last_value(crate::text::views(lines@).skip(1), key@),
{
    let ghost all = crate::text::views(lines@).skip(1);
    let mut r: Option<&'a [char]> = None;
    let mut i: usize = 1;
    while i < lines.len()
        invariant
            1 <= i <= lines@.len(),
            all == crate::text::views(lines@).skip(1),
            chars_view(r) == last_value(all.take(i - 1), key@),
        decreases lines@.len() - i,
    {
        proof {
            assert(all.take(i as int).drop_last() =~= all.take(i - 1));
            assert(all.take(i as int).last() == lines@[i as int]@);
        }
        if let Some(value) = strip_prefix(lines[i], key) {
            r = Some(trim(value));
        }
        i += 1;
    }
    proof {
        assert(all.take(i - 1) =~= all);
    }
    r
}

/// Reads a file of the registry: whether the entry is enabled, and its
/// interpreter and flags.
pub fn parse_qemu_entry(name: &str, text: &str) -> (r: Option<QemuEntry>)
    ensures
        entry_view(r) == registered_entry(name@, text@),
{
    let chars = chars_of(text);
    let lines = split_lines(chars.as_slice());
    let ghost views = crate::text::views(lines@);
    proof {
        assert(views.len() == lines@.len());
    }
    if lines.len() == 0 {
        return None;
    }
    proof {
        assert(views[0] == lines@[0]@);
    }
    if !reads(trim(lines[0]), "enabled") {
        return None;
    }
    let path: &[char] = match find_last_value(&lines, "interpreter ") {
        Some(path) => path,
        None => return None,
    };
    let name_chars = chars_of(name);
    match find_last_value(&lines, "flags:") {
        Some(flags) => Some(make_entry(name_chars.as_slice(), path, flags)),
        None => {
            let none: Vec<char> = Vec::new();
            Some(make_entry(name_chars.as_slice(), path, none.as_slice()))
        },
    }
}

/// A list of one entry, or of none.
pub open spec fn as_list(entry: Option<EntryView>) -> Seq<EntryView> {
    match entry {
        Some(e) => seq![e],
        None => Seq::empty(),
    }
}

/// The entry called `name` that a file of the registry describes, where the
/// file could be read.
pub open spec fn read_entry(name: Seq<char>, text: Option<String>) -> Option<EntryView> {
    match text {
        Some(t) => registered_entry(name, t@),
        None => None,
    }
}

/// The enabled entries among those called `names`, whose files hold `texts`.
pub open spec fn registered(names: Seq<Seq<char>>, texts: Seq<Option<String>>) -> Seq<EntryView>
    decreases names.len(),
{
    if names.len() == 0 {
        Seq::empty()
    } else {
        registered(names.drop_last(), texts) + as_list(
            if names.len() <= texts.len() {
                read_entry(names.last(), texts[names.len() - 1])
            } else {
                None
            },
        )
    }
}

/// The entries of a registry that can run a program for `info`; `texts` are
/// what the files called [`qemu_entry_names`] hold there, where they can be read.
pub fn registry_entries(info: &ElfInfo, texts: &Vec<Option<String>>) -> (r: Vec<QemuEntry>)
    ensures
        entry_views(r@) == registered(entry_names_for(*info), texts@),
{
    let names = qemu_entry_names(info);
    let ghost all = entry_names_for(*info);
    proof {
        assert(all.len() == names@.len());
        assert(forall|i: int| 0 <= i < names@.len() ==> all[i] == #[trigger] names@[i]@);
    }
    let mut r: Vec<QemuEntry> = Vec::new();
    let mut i: usize = 0;
    proof {
        assert(entry_views(r@) =~= registered(all.take(0), texts@));
    }
    while i < names.len()
        invariant
            i <= names@.len(),
            all.len() == names@.len(),
            forall|j: int| 0 <= j < names@.len() ==> all[j] == #[trigger] names@[j]@,
            entry_views(r@) == registered(all.take(i as int), texts@),
        decreases names@.len() - i,
    {
        let ghost was = r@;
        proof {
            assert(all.take(i + 1).drop_last() =~= all.take(i as int));
        }
        if i < texts.len() {
            if let Some(text) = &texts[i] {
                if let Some(entry) = parse_qemu_entry(names[i], text.as_str()) {
                    r.push(entry);
                }
            }
        }
        proof {
            assert(entry_views(r@) =~= entry_views(was) + as_list(
                if i < texts@.len() {
                    read_entry(all[i as int], texts@[i as int])
                } else {
                    None
                },
            ));
        }
        i += 1;
    }
    proof {
        assert(all.take(i as int) =~= all);
    }
    r
}

/// Where a process in a chroot sees the root of the host.
pub open spec fn host_root() -> Seq<u8> {
    crate::paths::bytes("/proc/1/root"@)
}

/// An entry of the host's registry, with its interpreter as a process in a
/// chroot reaches it. One whose interpreter is not an absolute path is out of reach.
pub open spec fn host_entry(entry: EntryView) -> Option<EntryView> {
    match crate::paths::below_root(entry.interpreter) {
        Some(path) => Some(
            EntryView { interpreter: crate::paths::joined(host_root(), path), ..entry },
        ),
        None => None,
    }
}

/// The entries of the host that can be reached from here.
pub open spec fn host_entries_of(entries: Seq<EntryView>) -> Seq<EntryView>
    decreases entries.len(),
{
    if entries.len() == 0 {
        Seq::empty()
    } else {
        host_entries_of(entries.drop_last()) + as_list(host_entry(entries.last()))
    }
}

/// The entries of the host's registry that can run a program for `info`, their
/// interpreters seen by way of `/proc/1/root`; `texts` are as in [`registry_entries`].
pub fn host_entries(info: &ElfInfo, texts: &Vec<Option<String>>) -> (r: Vec<QemuEntry>)
    ensures
        entry_views(r@) == host_entries_of(registered(entry_names_for(*info), texts@)),
{
    let entries = registry_entries(info, texts);
    let ghost all = entry_views(entries@);
    let root = to_bytes("/proc/1/root");
    let mut r: Vec<QemuEntry> = Vec::new();
    let mut i: usize = 0;
    proof {
        assert(entry_views(r@) =~= host_entries_of(all.take(0)));
    }
    while i < entries.len()
        invariant
            i <= entries@.len(),
            root@ == host_root(),
            all == entry_views(entries@),
            entry_views(r@) == host_entries_of(all.take(i as int)),
        decreases entries@.len() - i,
    {
        let ghost was = r@;
        proof {
            assert(all.take(i + 1).drop_last() =~= all.take(i as int));
            assert(all.take(i + 1).last() == entries@[i as int]@);
        }
        if let Some(path) = strip_root(entries[i].interpreter.as_slice()) {
            r.push(
                QemuEntry {
                    name: entries[i].name.clone(),
                    interpreter: join(root.as_slice(), path.as_slice()),
                    flags: entries[i].flags.clone(),
                },
            );
        }
        proof {
            assert(entry_views(r@) =~= entry_views(was) + as_list(host_entry(entries@[i as int]@)));
        }
        i += 1;
    }
    proof {
        assert(all.take(i as int) =~= all);
    }
    r
}

/// A file that a package keeps ready.
#[derive(Debug)]
pub struct ConfFile {
    /// Its name in the directory.
    pub name: Vec<u8>,
    /// What it holds, if it can be read as text.
    pub text: Option<String>,
}

/// A name with the extension `conf`.
pub open spec fn is_conf_name(name: Seq<u8>) -> bool {
    let ending = crate::paths::bytes(".conf"@);
    crate::paths::has_suffix(name, ending) && name.len() > ending.len()
}

/// Whether a name has the extension `conf`.
pub fn is_rules_file(name: &[u8]) -> (r: bool)
    ensures
        r == is_conf_name(name@),
{
    let ending = to_bytes(".conf");
    strip_suffix(name, ending.as_slice()).is_some() && name.len() > ending.len()
}

/// The entries that lines of a rules file make for `info`.
pub open spec fn line_entries(lines: Seq<Seq<char>>, info: ElfInfo) -> Seq<EntryView>
    decreases lines.len(),
{
    if lines.len() == 0 {
        Seq::empty()
    } else {
        line_entries(lines.drop_last(), info) + as_list(conf_entry(lines.last(), info))
    }
}

/// The entries that a file makes for `info`: none, unless it is a readable
/// rules file.
pub open spec fn file_entries(file: ConfFile, info: ElfInfo) -> Seq<EntryView> {
    match file.text {
        Some(text) => if is_conf_name(file.name@) {
            line_entries(crate::text::lines(text@), info)
        } else {
            Seq::empty()
        },
        None => Seq::empty(),
    }
}

/// The entries that the files at the places of `order` make for `info`.
pub open spec fn ordered_entries(files: Seq<ConfFile>, order: Seq<int>, info: ElfInfo) -> Seq<
    EntryView,
>
    decreases order.len(),
{
    if order.len() == 0 {
        Seq::empty()
    } else {
        ordered_entries(files, order.drop_last(), info) + file_entries(files[order.last()], info)
    }
}

/// The names of files.
pub open spec fn conf_names(files: Seq<ConfFile>) -> Seq<Seq<u8>> {
    files.map_values(|f: ConfFile| f.name@)
}

/// The entries that the files of a directory make for `info`, in the order of
/// the files' names.
pub open spec fn kept_ready(files: Seq<ConfFile>, info: ElfInfo) -> Seq<EntryView> {
    ordered_entries(files, crate::order::sorted(conf_names(files)), info)
}

/// Adds to `r` the entries that a file makes for `info`.
fn add_file_entries(r: &mut Vec<QemuEntry>, file: &ConfFile, info: &ElfInfo)
    ensures
        entry_views(final(r)@) == entry_views(old(r)@) + file_entries(*file, *info),
{
    let ghost start = entry_views(r@);
    proof {
        assert(start + Seq::<EntryView>::empty() =~= start);
    }
    if let Some(text) = &file.text {
        if is_rules_file(file.name.as_slice()) {
            let chars = chars_of(text.as_str());
            let lines = split_lines(chars.as_slice());
            let ghost all = crate::text::lines(text@);
            let mut i: usize = 0;
            proof {
                assert(crate::text::views(lines@) == all);
                assert(all.take(0) =~= Seq::<Seq<char>>::empty());
                assert(start + line_entries(all.take(0), *info) =~= start);
            }
            while i < lines.len()
                invariant
                    i <= lines@.len(),
                    crate::text::views(lines@) == all,
                    entry_views(r@) == start + line_entries(all.take(i as int), *info),
                decreases lines@.len() - i,
            {
                let ghost was = r@;
                proof {
                    assert(all.take(i + 1).drop_last() =~= all.take(i as int));
                    assert(all.take(i + 1).last() == lines@[i as int]@);
                }
                if let Some(entry) = parse_conf_line(lines[i], info) {
                    r.push(entry);
                }
                proof {
                    assert(entry_views(r@) =~= entry_views(was) + as_list(
                        conf_entry(all[i as int], *info),
                    ));
                    assert(entry_views(r@) =~= start + line_entries(all.take(i + 1), *info));
                }
                i += 1;
            }
            proof {
                assert(all.take(i as int) =~= all);
            }
        }
    }
}

/// The entries that the rules kept ready in a directory make for `info`.
pub fn alternative_entries(info: &ElfInfo, files: &Vec<ConfFile>) -> (r: Vec<QemuEntry>)
    ensures
        entry_views(r@) == kept_ready(files@, *info),
{
    let mut keys: Vec<Vec<u8>> = Vec::new();
    let mut n: usize = 0;
    while n < files.len()
        invariant
            n <= files@.len(),
            crate::paths::byte_views(keys@) == conf_names(files@).take(n as int),
        decreases files@.len() - n,
    {
        let ghost was = keys@;
        keys.push(copy_bytes(&files[n].name));
        proof {
            assert(crate::paths::byte_views(keys@) =~= crate::paths::byte_views(was).push(
                files@[n as int].name@,
            ));
            assert(conf_names(files@).take(n + 1) =~= conf_names(files@).take(n as int).push(
                files@[n as int].name@,
            ));
        }
        n += 1;
    }
    proof {
        assert(conf_names(files@).take(n as int) =~= conf_names(files@));
        assert(crate::paths::byte_views(keys@).len() == files@.len());
    }
    let order = sort_indices(&keys);
    let ghost all = crate::order::sorted(conf_names(files@));
    let mut r: Vec<QemuEntry> = Vec::new();
    let mut i: usize = 0;
    proof {
        assert(entry_views(r@) =~= ordered_entries(files@, all.take(0), *info));
    }
    while i < order.len()
        invariant
            i <= order@.len(),
            all == crate::order::indices(order@),
            forall|j: int| 0 <= j < order@.len() ==> #[trigger] order@[j] < files@.len(),
            entry_views(r@) == ordered_entries(files@, all.take(i as int), *info),
        decreases order@.len() - i,
    {
        proof {
            assert(all.take(i + 1).drop_last() =~= all.take(i as int));
            assert(all.take(i + 1).last() == order@[i as int]);
        }
        add_file_entries(&mut r, &files[order[i]], info);
        i += 1;
    }
    proof {
        assert(all.take(i as int) =~= all);
    }
    r
}

/// An entry, and whether its interpreter is there.
#[derive(Debug)]
pub struct Candidate {
    /// The entry.
    pub entry: QemuEntry,
    /// Its interpreter is a regular file.
    pub present: bool,
}

/// The first candidate whose interpreter is there.
pub open spec fn first_present(candidates: Seq<Candidate>) -> Option<EntryView>
    decreases candidates.len(),
{
    if candidates.len() == 0 {
        None
    } else if candidates[0].present {
        Some(candidates[0].entry@)
    } else {
        first_present(candidates.drop_first())
    }
}

/// The first candidate that has one of `names` and whose interpreter is there.
pub open spec fn first_named(candidates: Seq<Candidate>, names: Seq<Seq<char>>) -> Option<EntryView>
    decreases candidates.len(),
{
    if candidates.len() == 0 {
        None
    } else if candidates[0].present && names.contains(candidates[0].entry@.name) {
        Some(candidates[0].entry@)
    } else {
        first_named(candidates.drop_first(), names)
    }
}

/// The candidate to take of those kept ready: one called like a registered
/// one if there is any, else the first.
pub open spec fn best_alternative(candidates: Seq<Candidate>, info: ElfInfo) -> Option<EntryView> {
    match first_named(candidates, entry_names_for(info)) {
        Some(entry) => Some(entry),
        None => first_present(candidates),
    }
}

/// The emulator to use.
pub open spec fn chosen(
    info: ElfInfo,
    visible: bool,
    local: Seq<Candidate>,
    host: Seq<Candidate>,
    alternatives: Seq<Candidate>,
) -> Option<EntryView> {
    match first_present(
        if visible {
            local
        } else {
            host
        },
    ) {
        Some(entry) => Some(entry),
        None => best_alternative(alternatives, info),
    }
}

/// The first candidate whose interpreter is there.
pub fn find_qemu_entry_in(candidates: &Vec<Candidate>) -> (r: Option<QemuEntry>)
    ensures
        entry_view(r) == first_present(candidates@),
{
    let mut i: usize = 0;
    proof {
        assert(candidates@.skip(0) =~= candidates@);
    }
    while i < candidates.len()
        invariant
            i <= candidates@.len(),
            first_present(candidates@) == first_present(candidates@.skip(i as int)),
        decreases candidates@.len() - i,
    {
        if candidates[i].present {
            return Some(candidates[i].entry.clone());
        }
        proof {
            assert(candidates@.skip(i as int).drop_first() =~= candidates@.skip(i + 1));
        }
        i += 1;
    }
    None
}

/// Whether `name` is one of `names`.
fn is_one_of(name: &str, names: &Vec<&'static str>) -> (r: bool)
    ensures
        r == str_views(names@).contains(name@),
{
    let ghost all = str_views(names@);
    let mut i: usize = 0;
    while i < names.len()
        invariant
            i <= names@.len(),
            all == str_views(names@),
            forall|j: int| 0 <= j < i ==> all[j] != name@,
        decreases names@.len() - i,
    {
        if same_str(name, names[i]) {
            proof {
                assert(all[i as int] == name@);
            }
            return true;
        }
        i += 1;
    }
    false
}

/// The candidate to take of those kept ready: one called like a registered
/// one if there is any, else the first whose interpreter is there.
pub fn find_alternatives_entry(candidates: &Vec<Candidate>, info: &ElfInfo) -> (r: Option<
    QemuEntry,
>)
    ensures
        entry_view(r) == best_alternative(candidates@, *info),
{
    let names = qemu_entry_names(info);
    let mut i: usize = 0;
    proof {
        assert(candidates@.skip(0) =~= candidates@);
    }
    while i < candidates.len()
        invariant
            i <= candidates@.len(),
            str_views(names@) == entry_names_for(*info),
            first_named(candidates@, entry_names_for(*info)) == first_named(
                candidates@.skip(i as int),
                entry_names_for(*info),
            ),
        decreases candidates@.len() - i,
    {
        if candidates[i].present && is_one_of(candidates[i].entry.name.as_str(), &names) {
            return Some(candidates[i].entry.clone());
        }
        proof {
            assert(candidates@.skip(i as int).drop_first() =~= candidates@.skip(i + 1));
        }
        i += 1;
    }
    find_qemu_entry_in(candidates)
}

/// Finds an emulator for a program: in the registry that is `visible` here, or
/// in the host's if none is; and if there is none, among the rules kept ready.
pub fn find_qemu_entry(
    info: &ElfInfo,
    visible: bool,
    local: &Vec<Candidate>,
    host: &Vec<Candidate>,
    alternatives: &Vec<Candidate>,
) -> (r: Option<QemuEntry>)
    ensures
        entry_view(r) == chosen(*info, visible, local@, host@, alternatives@),
{
    let registered = if visible {
        find_qemu_entry_in(local)
    } else {
        find_qemu_entry_in(host)
    };
    match registered {
        Some(entry) => Some(entry),
        None => find_alternatives_entry(alternatives, info),
    }
}

/// A file of the registry.
#[derive(Debug)]
pub struct RegistryFile {
    /// Its name.
    pub name: String,
    /// What it holds, if it can be read as text.
    pub text: Option<String>,
}

/// The names at the places of `order` that start with `prefix`.
pub open spec fn kept_names(names: Seq<Seq<char>>, order: Seq<int>, prefix: Seq<char>) -> Seq<
    Seq<char>,
>
    decreases order.len(),
{
    if order.len() == 0 {
        Seq::empty()
    } else if crate::text::has_prefix(names[order.last()], prefix) {
        kept_names(names, order.drop_last(), prefix).push(names[order.last()])
    } else {
        kept_names(names, order.drop_last(), prefix)
    }
}

/// The bytes of names.
pub open spec fn name_bytes(names: Seq<Seq<char>>) -> Seq<Seq<u8>> {
    names.map_values(|n: Seq<char>| crate::paths::bytes(n))
}

/// Those of `names` that start with `prefix`, in order.
pub open spec fn names_with(names: Seq<Seq<char>>, prefix: Seq<char>) -> Seq<Seq<char>> {
    kept_names(names, crate::order::sorted(name_bytes(names)), prefix)
}

/// The places of `names` in the order of their bytes.
fn name_order(names: &Vec<String>) -> (r: Vec<usize>)
    ensures
        crate::order::indices(r@) == crate::order::sorted(name_bytes(string_views(names@))),
        forall|i: int| 0 <= i < r@.len() ==> #[trigger] r@[i] < names@.len(),
{
    let ghost all = name_bytes(string_views(names@));
    let mut keys: Vec<Vec<u8>> = Vec::new();
    let mut n: usize = 0;
    while n < names.len()
        invariant
            n <= names@.len(),
            all == name_bytes(string_views(names@)),
            crate::paths::byte_views(keys@) == all.take(n as int),
        decreases names@.len() - n,
    {
        let ghost was = keys@;
        keys.push(to_bytes(names[n].as_str()));
        proof {
            assert(crate::paths::byte_views(keys@) =~= crate::paths::byte_views(was).push(
                all[n as int],
            ));
            assert(all.take(n + 1) =~= all.take(n as int).push(all[n as int]));
        }
        n += 1;
    }
    proof {
        assert(all.take(n as int) =~= all);
        assert(crate::paths::byte_views(keys@).len() == names@.len());
    }
    sort_indices(&keys)
}

/// Those of `names` that start with `prefix`, in order.
pub fn entry_names(names: &Vec<String>, prefix: &str) -> (r: Vec<String>)
    ensures
        string_views(r@) == names_with(string_views(names@), prefix@),
{
    let ghost all = string_views(names@);
    let order = name_order(names);
    let ghost places = crate::order::indices(order@);
    let mut r: Vec<String> = Vec::new();
    let mut i: usize = 0;
    proof {
        assert(string_views(r@) =~= kept_names(all, places.take(0), prefix@));
    }
    while i < order.len()
        invariant
            i <= order@.len(),
            all == string_views(names@),
            places == crate::order::indices(order@),
            forall|j: int| 0 <= j < order@.len() ==> #[trigger] order@[j] < names@.len(),
            string_views(r@) == kept_names(all, places.take(i as int), prefix@),
        decreases order@.len() - i,
    {
        let ghost was = r@;
        proof {
            assert(places.take(i + 1).drop_last() =~= places.take(i as int));
            assert(places.take(i + 1).last() == order@[i as int]);
        }
        let name = &names[order[i]];
        if starts_with(chars_of(name.as_str()).as_slice(), prefix) {
            r.push(name.clone());
            proof {
                assert(string_views(r@) =~= string_views(was).push(name@));
            }
        }
        i += 1;
    }
    proof {
        assert(places.take(i as int) =~= places);
    }
    r
}

/// Those of `names` that are this program's own, in order.
pub open spec fn own_names(names: Seq<Seq<char>>) -> Seq<Seq<char>> {
    names_with(names, "aosc-exec-guard-"@)
}

/// The names, among those of the files in the registry, of this program's own
/// entries, in order.
pub fn guard_entries(names: &Vec<String>) -> (r: Vec<String>)
    ensures
        string_views(r@) == names_with(string_views(names@), "aosc-exec-guard-"@),
        string_views(r@) == own_names(string_views(names@)),
{
    entry_names(names, "aosc-exec-guard-")
}

/// A file of the registry that says on its first line that it is enabled.
pub open spec fn is_enabled(file: RegistryFile) -> bool {
    match file.text {
        Some(text) => crate::text::lines(text@).len() > 0 && crate::text::lines(text@)[0]
            == "enabled"@,
        None => false,
    }
}

/// Whether a file of the registry says on its first line that it is enabled.
fn says_enabled(file: &RegistryFile) -> (r: bool)
    ensures
        r == is_enabled(*file),
{
    match &file.text {
        Some(text) => {
            let chars = chars_of(text.as_str());
            let lines = split_lines(chars.as_slice());
            proof {
                assert(crate::text::views(lines@).len() == lines@.len());
                assert(lines@.len() > 0 ==> crate::text::views(lines@)[0] == lines@[0]@);
            }
            lines.len() > 0 && reads(lines[0], "enabled")
        },
        None => false,
    }
}

/// The names of files of the registry.
pub open spec fn file_names(files: Seq<RegistryFile>) -> Seq<Seq<char>> {
    files.map_values(|f: RegistryFile| f.name@)
}

/// The names at the places of `order` of enabled qemu entries.
pub open spec fn enabled_names(files: Seq<RegistryFile>, order: Seq<int>) -> Seq<Seq<char>>
    decreases order.len(),
{
    if order.len() == 0 {
        Seq::empty()
    } else {
        let file = files[order.last()];
        let front = enabled_names(files, order.drop_last());
        if crate::text::has_prefix(file.name@, "qemu-"@) && is_enabled(file) {
            front.push(file.name@)
        } else {
            front
        }
    }
}

/// The names of the enabled qemu entries among the files of the registry, in
/// order. Their interpreters need not be there: the kernel may hold them open.
pub fn enabled_qemu_entries(files: &Vec<RegistryFile>) -> (r: Vec<String>)
    ensures
        string_views(r@) == enabled_names(
            files@,
            crate::order::sorted(name_bytes(file_names(files@))),
        ),
{
    let ghost all = file_names(files@);
    let mut names: Vec<String> = Vec::new();
    let mut n: usize = 0;
    while n < files.len()
        invariant
            n <= files@.len(),
            all == file_names(files@),
            string_views(names@) == all.take(n as int),
        decreases files@.len() - n,
    {
        let ghost was = names@;
        names.push(files[n].name.clone());
        proof {
            assert(string_views(names@) =~= string_views(was).push(all[n as int]));
            assert(all.take(n + 1) =~= all.take(n as int).push(all[n as int]));
        }
        n += 1;
    }
    proof {
        assert(all.take(n as int) =~= all);
        assert(string_views(names@).len() == files@.len());
    }
    let order = name_order(&names);
    let ghost places = crate::order::indices(order@);
    let mut r: Vec<String> = Vec::new();
    let mut i: usize = 0;
    proof {
        assert(string_views(r@) =~= enabled_names(files@, places.take(0)));
    }
    while i < order.len()
        invariant
            i <= order@.len(),
            places == crate::order::indices(order@),
            forall|j: int| 0 <= j < order@.len() ==> #[trigger] order@[j] < files@.len(),
            string_views(r@) == enabled_names(files@, places.take(i as int)),
        decreases order@.len() - i,
    {
        let ghost was = r@;
        proof {
            assert(places.take(i + 1).drop_last() =~= places.take(i as int));
            assert(places.take(i + 1).last() == order@[i as int]);
        }
        let file = &files[order[i]];
        if starts_with(chars_of(file.name.as_str()).as_slice(), "qemu-") && says_enabled(file) {
            r.push(file.name.clone());
            proof {
                assert(string_views(r@) =~= string_views(was).push(file.name@));
            }
        }
        i += 1;
    }
    proof {
        assert(places.take(i as int) =~= places);
    }
    r
}

/// A program to start, and its arguments.
#[derive(Debug)]
pub struct Invocation {
    /// The path of the program.
    pub program: Vec<u8>,
    /// The arguments behind it.
    pub args: Vec<Vec<u8>>,
}

/// The arguments with which the kernel calls an emulator that has `flags`: the
/// path of the program to run and that program's own arguments. With the flag
/// `P` the name under which the program was called stands between; that is
/// lost here, and the path stands in for it.
pub open spec fn emulator_args(
    flags: Seq<char>,
    target: Seq<u8>,
    program_args: Seq<Seq<u8>>,
) -> Seq<Seq<u8>> {
    if flags.contains('P') {
        seq![target, target] + program_args
    } else {
        seq![target] + program_args
    }
}

/// The call that hands a program to an emulator: the interpreter, and its arguments.
pub open spec fn call_of(
    entry: EntryView,
    target: Seq<u8>,
    program_args: Seq<Seq<u8>>,
) -> (Seq<u8>, Seq<Seq<u8>>) {
    (entry.interpreter, emulator_args(entry.flags, target, program_args))
}

/// How to hand the program `target` to an emulator.
pub fn run_via_qemu(entry: &QemuEntry, target: &Vec<u8>, program_args: &Vec<Vec<u8>>) -> (r:
    Invocation)
    ensures
        r.program@ == entry.interpreter@,
        crate::paths::byte_views(r.args@) == emulator_args(
            entry.flags@,
            target@,
            crate::paths::byte_views(program_args@),
        ),
        (r.program@, crate::paths::byte_views(r.args@)) == call_of(
            entry@,
            target@,
            crate::paths::byte_views(program_args@),
        ),
{
    let flags = chars_of(entry.flags.as_str());
    let at: usize = find(flags.as_slice(), 'P');
    let ghost own = crate::paths::byte_views(program_args@);
    proof {
        crate::text::lemma_position(flags@, 'P');
        if at < flags@.len() {
            assert(flags@[at as int] == 'P');
        } else {
            assert(!flags@.contains('P'));
        }
    }
    let mut args: Vec<Vec<u8>> = Vec::new();
    args.push(copy_bytes(target));
    if at < flags.len() {
        args.push(copy_bytes(target));
    }
    let ghost front = crate::paths::byte_views(args@);
    let mut i: usize = 0;
    proof {
        assert(front =~= emulator_args(entry.flags@, target@, Seq::empty()));
        assert(front =~= front + own.take(0));
    }
    while i < program_args.len()
        invariant
            i <= program_args@.len(),
            own == crate::paths::byte_views(program_args@),
            crate::paths::byte_views(args@) == front + own.take(i as int),
        decreases program_args@.len() - i,
    {
        let ghost was = args@;
        args.push(copy_bytes(&program_args[i]));
        proof {
            assert(crate::paths::byte_views(args@) =~= crate::paths::byte_views(was).push(
                own[i as int],
            ));
            assert(front + own.take(i + 1) =~= (front + own.take(i as int)).push(own[i as int]));
        }
        i += 1;
    }
    proof {
        assert(own.take(i as int) =~= own);
        assert(front + own =~= emulator_args(entry.flags@, target@, own));
    }
    Invocation { program: copy_bytes(&entry.interpreter), args }
}

/// How bytes are written in a rule.
pub open spec fn escaped_bytes(bytes: Seq<u8>) -> Seq<char>
    decreases bytes.len(),
{
    if bytes.len() == 0 {
        Seq::empty()
    } else {
        seq![
            '\\',
            'x',
            crate::text::digit_char((bytes[0] / 16) as nat),
            crate::text::digit_char((bytes[0] % 16) as nat),
        ] + escaped_bytes(bytes.drop_first())
    }
}

/// Bytes that were written in a rule are read back.
pub proof fn escaped_bytes_are_read_back(bytes: Seq<u8>)
    ensures
        unescaped(escaped_bytes(bytes)) == Some(bytes),
    decreases bytes.len(),
{
    if bytes.len() == 0 {
    } else {
        let field = escaped_bytes(bytes);
        let b = bytes[0];
        escaped_bytes_are_read_back(bytes.drop_first());
        assert(field.skip(4) =~= escaped_bytes(bytes.drop_first()));
        assert(crate::text::hex_value(field[2]) == Some((b / 16) as u8));
        assert(crate::text::hex_value(field[3]) == Some((b % 16) as u8));
        assert(seq![b] + bytes.drop_first() =~= bytes);
    }
}

/// A rule that cares for every bit that tells machines apart, and was written
/// for one machine, takes the programs of that machine and of no other: not
/// those of another class, another byte order or another number.
pub proof fn exact_rule_takes_one_machine(
    magic: Seq<u8>,
    mask: Seq<u8>,
    target: ElfInfo,
    info: ElfInfo,
)
    requires
        magic.len() >= 20,
        mask.len() >= 20,
        forall|i: int| is_fixed(i) ==> #[trigger] mask[i] == 0xff,
        forall|i: int| is_fixed(i) ==> #[trigger] magic[i] == header_byte(target, i),
    ensures
        rule_takes(magic, mask, info) <==> info == target,
{
    assert forall|i: int| is_fixed(i) implies (#[trigger] agree(
        magic[i],
        mask[i],
        header_byte(info, i),
    ) <==> header_byte(target, i) == header_byte(info, i)) by {
        let a = magic[i];
        let b = header_byte(info, i);
        assert(mask[i] == 0xff);
        assert(a & 0xff == a && b & 0xff == b) by (bit_vector);
    }
    assert(is_fixed(4) && is_fixed(5) && is_fixed(18) && is_fixed(19));
    assert(mask[4] == 0xff && mask[5] == 0xff && mask[18] == 0xff);
    if rule_takes(magic, mask, info) {
        assert(agree(magic[4], mask[4], header_byte(info, 4)));
        assert(agree(magic[5], mask[5], header_byte(info, 5)));
        assert(agree(magic[18], mask[18], header_byte(info, 18)));
        assert(agree(magic[19], mask[19], header_byte(info, 19)));
        assert(info.class == target.class);
        assert(info.endian == target.endian);
        assert(info.machine == 256 * (info.machine / 256) + info.machine % 256);
        assert(target.machine == 256 * (target.machine / 256) + target.machine % 256);
        assert(info.machine == target.machine);
    }
}

/// A rule that takes whatever comes takes nothing here.
pub proof fn catch_all_rule_is_ignored(magic: Seq<u8>, mask: Seq<u8>, info: ElfInfo)
    requires
        forall|i: int| 0 <= i < mask.len() ==> #[trigger] mask[i] == 0,
    ensures
        !rule_takes(magic, mask, info),
{
}

/// Lines make none of this program's own entries.
proof fn lemma_lines_make_no_own(lines: Seq<Seq<char>>, info: ElfInfo, i: int)
    requires
        0 <= i < line_entries(lines, info).len(),
    ensures
        !is_own(line_entries(lines, info)[i].name),
    decreases lines.len(),
{
    let front = line_entries(lines.drop_last(), info);
    if i < front.len() {
        lemma_lines_make_no_own(lines.drop_last(), info, i);
    } else {
        assert(line_entries(lines, info)[i] == conf_entry(lines.last(), info)->0);
    }
}

/// Files make none of this program's own entries.
proof fn lemma_files_make_no_own(files: Seq<ConfFile>, order: Seq<int>, info: ElfInfo, i: int)
    requires
        0 <= i < ordered_entries(files, order, info).len(),
    ensures
        !is_own(ordered_entries(files, order, info)[i].name),
    decreases order.len(),
{
    let front = ordered_entries(files, order.drop_last(), info);
    if i < front.len() {
        lemma_files_make_no_own(files, order.drop_last(), info, i);
    } else {
        let file = files[order.last()];
        let at = i - front.len();
        assert(ordered_entries(files, order, info)[i] == file_entries(file, info)[at]);
        lemma_lines_make_no_own(crate::text::lines(file.text->0@), info, at);
    }
}

/// The program never hands a program to itself: none of the rules kept ready
/// that it considers is its own.
pub proof fn own_rules_are_skipped(files: Seq<ConfFile>, info: ElfInfo, i: int)
    requires
        0 <= i < kept_ready(files, info).len(),
    ensures
        !is_own(kept_ready(files, info)[i].name),
{
    lemma_files_make_no_own(files, crate::order::sorted(conf_names(files)), info, i);
}

/// The first candidate that is there is one that is there, if any is.
proof fn lemma_first_present(candidates: Seq<Candidate>)
    ensures
        first_present(candidates) is Some <==> exists|i: int|
            0 <= i < candidates.len() && (#[trigger] candidates[i]).present,
        first_present(candidates) is Some ==> exists|i: int|
            0 <= i < candidates.len() && (#[trigger] candidates[i]).present && candidates[i].entry@
                == first_present(candidates)->0,
    decreases candidates.len(),
{
    if candidates.len() > 0 && !candidates[0].present {
        let rest = candidates.drop_first();
        lemma_first_present(rest);
        if first_present(rest) is Some {
            let i = choose|i: int|
                0 <= i < rest.len() && (#[trigger] rest[i]).present && rest[i].entry@
                    == first_present(rest)->0;
            assert(candidates[i + 1] == rest[i]);
        } else {
            assert forall|i: int| 0 <= i < candidates.len() implies !(
            #[trigger] candidates[i]).present by {
                if i > 0 {
                    assert(candidates[i] == rest[i - 1]);
                }
            }
        }
    }
}

/// The first candidate that is there and has one of some names is one that is there.
proof fn lemma_first_named(candidates: Seq<Candidate>, names: Seq<Seq<char>>)
    ensures
        first_named(candidates, names) is Some ==> exists|i: int|
            0 <= i < candidates.len() && (#[trigger] candidates[i]).present && candidates[i].entry@
                == first_named(candidates, names)->0,
    decreases candidates.len(),
{
    if candidates.len() > 0 && !(candidates[0].present && names.contains(
        candidates[0].entry@.name,
    )) {
        let rest = candidates.drop_first();
        lemma_first_named(rest, names);
        if first_named(rest, names) is Some {
            let i = choose|i: int|
                0 <= i < rest.len() && (#[trigger] rest[i]).present && rest[i].entry@
                    == first_named(rest, names)->0;
            assert(candidates[i + 1] == rest[i]);
        }
    }
}

/// `entry` is that of one of `candidates` whose interpreter is there.
pub open spec fn is_present_in(candidates: Seq<Candidate>, entry: EntryView) -> bool {
    exists|i: int|
        0 <= i < candidates.len() && (#[trigger] candidates[i]).present && candidates[i].entry@
            == entry
}

/// One of `candidates` is there.
pub open spec fn any_present(candidates: Seq<Candidate>) -> bool {
    exists|i: int| 0 <= i < candidates.len() && (#[trigger] candidates[i]).present
}

/// An emulator is found exactly where the registry that counts, or a rule kept
/// ready, has one whose interpreter is there; it is one of those, and of the
/// registry's if the registry has any.
pub proof fn chosen_emulator_is_there(
    info: ElfInfo,
    visible: bool,
    local: Seq<Candidate>,
    host: Seq<Candidate>,
    alternatives: Seq<Candidate>,
)
    ensures
        ({
            let registry = if visible {
                local
            } else {
                host
            };
            let found = chosen(info, visible, local, host, alternatives);
            &&& found is Some <==> any_present(registry) || any_present(alternatives)
            &&& any_present(registry) ==> is_present_in(registry, found->0)
            &&& !any_present(registry) && found is Some ==> is_present_in(alternatives, found->0)
        }),
{
    lemma_first_present(local);
    lemma_first_present(host);
    lemma_first_present(alternatives);
    lemma_first_named(alternatives, entry_names_for(info));
}

/// A registry that is in sight decides: what the host's says does not matter,
/// so an entry that is disabled here is not found there.
pub proof fn visible_registry_decides(
    info: ElfInfo,
    local: Seq<Candidate>,
    host: Seq<Candidate>,
    other_host: Seq<Candidate>,
    alternatives: Seq<Candidate>,
)
    ensures
        chosen(info, true, local, host, alternatives) == chosen(
            info,
            true,
            local,
            other_host,
            alternatives,
        ),
{
}

/// An entry that is not enabled is none.
pub proof fn disabled_entry_is_ignored(name: Seq<char>, text: Seq<char>)
    requires
        crate::text::lines(text).len() > 0 ==> crate::text::trimmed(crate::text::lines(text)[0])
            != "enabled"@,
    ensures
        registered_entry(name, text) is None,
{
}

/// What is kept of names: those at the places of `order` with the prefix, in
/// ascending order if the places are.
proof fn lemma_kept_names(names: Seq<Seq<char>>, order: Seq<int>, prefix: Seq<char>)
    requires
        crate::order::ascending(name_bytes(names), order),
        forall|i: int| 0 <= i < order.len() ==> 0 <= #[trigger] order[i] < names.len(),
    ensures
        forall|i: int|
            0 <= i < order.len() && crate::text::has_prefix(names[#[trigger] order[i]], prefix)
                ==> kept_names(names, order, prefix).contains(names[order[i]]),
        forall|k: int|
            0 <= k < kept_names(names, order, prefix).len() ==> crate::text::has_prefix(
                #[trigger] kept_names(names, order, prefix)[k],
                prefix,
            ) && exists|i: int|
                0 <= i < order.len() && names[#[trigger] order[i]] == kept_names(
                    names,
                    order,
                    prefix,
                )[k],
        in_order(kept_names(names, order, prefix)),
    decreases order.len(),
{
    if order.len() > 0 {
        let shorter = order.drop_last();
        let last = names[order.last()];
        let front = kept_names(names, shorter, prefix);
        let all = kept_names(names, order, prefix);
        crate::order::lemma_ascending_front(name_bytes(names), order);
        assert forall|i: int| 0 <= i < shorter.len() implies 0 <= #[trigger] shorter[i]
            < names.len() by {
            assert(shorter[i] == order[i]);
        }
        lemma_kept_names(names, shorter, prefix);
        let kept = crate::text::has_prefix(last, prefix);
        assert forall|i: int|
            0 <= i < order.len() && crate::text::has_prefix(
                names[#[trigger] order[i]],
                prefix,
            ) implies all.contains(names[order[i]]) by {
            if i < shorter.len() {
                assert(shorter[i] == order[i]);
                let k = choose|k: int| 0 <= k < front.len() && front[k] == names[order[i]];
                assert(all[k] == front[k]);
            } else {
                assert(all[front.len() as int] == last);
            }
        }
        assert forall|k: int| 0 <= k < all.len() implies crate::text::has_prefix(
            #[trigger] all[k],
            prefix,
        ) && exists|i: int| 0 <= i < order.len() && names[#[trigger] order[i]] == all[k] by {
            if k < front.len() {
                assert(all[k] == front[k]);
                let i = choose|i: int|
                    0 <= i < shorter.len() && names[#[trigger] shorter[i]] == front[k];
                assert(names[order[i]] == all[k]);
            } else {
                assert(names[order[order.len() - 1]] == all[k]);
            }
        }
        assert forall|a: int, b: int|
            #![trigger all[a], all[b]]
            0 <= a < b < all.len() implies crate::order::le(
            crate::paths::bytes(all[a]),
            crate::paths::bytes(all[b]),
        ) by {
            assert(all[a] == front[a]);
            if b < front.len() {
                assert(all[b] == front[b]);
            } else {
                let i = choose|i: int|
                    0 <= i < shorter.len() && names[#[trigger] shorter[i]] == front[a];
                assert(shorter[i] == order[i]);
                assert(crate::order::le(
                    name_bytes(names)[order[i]],
                    name_bytes(names)[order[order.len() - 1]],
                ));
            }
        }
    }
}

/// Names in ascending order of their bytes.
pub open spec fn in_order(names: Seq<Seq<char>>) -> bool {
    forall|a: int, b: int|
        #![trigger names[a], names[b]]
        0 <= a < b < names.len() ==> crate::order::le(
            crate::paths::bytes(names[a]),
            crate::paths::bytes(names[b]),
        )
}

/// Listing names by a prefix finds every name that has it, and no other, and
/// lists them in order.
pub proof fn all_names_are_listed(names: Seq<Seq<char>>, prefix: Seq<char>, name: Seq<char>)
    ensures
        names_with(names, prefix).contains(name) <==> names.contains(name)
            && crate::text::has_prefix(name, prefix),
        in_order(names_with(names, prefix)),
{
    let keys = name_bytes(names);
    let order = crate::order::sorted(keys);
    crate::order::sorting_sorts(keys, keys.len());
    lemma_kept_names(names, order, prefix);
    let all = names_with(names, prefix);
    if all.contains(name) {
        let k = choose|k: int| 0 <= k < all.len() && all[k] == name;
        assert(crate::text::has_prefix(all[k], prefix));
        let i = choose|i: int| 0 <= i < order.len() && names[#[trigger] order[i]] == all[k];
        assert(names[order[i]] == name);
    }
    if names.contains(name) && crate::text::has_prefix(name, prefix) {
        let n = choose|n: int| 0 <= n < names.len() && names[n] == name;
        assert(order.contains(n));
        let i = choose|i: int| 0 <= i < order.len() && order[i] == n;
        assert(names[order[i]] == name);
    }
}

/// A file of the registry that is an enabled qemu entry called `name`.
pub open spec fn is_enabled_qemu(file: RegistryFile, name: Seq<char>) -> bool {
    file.name@ == name && crate::text::has_prefix(name, "qemu-"@) && is_enabled(file)
}

/// The enabled names are those of the files at the places of `order`.
proof fn lemma_enabled_names(files: Seq<RegistryFile>, order: Seq<int>, name: Seq<char>)
    ensures
        enabled_names(files, order).contains(name) <==> exists|i: int|
            0 <= i < order.len() && is_enabled_qemu(files[#[trigger] order[i]], name),
    decreases order.len(),
{
    if order.len() > 0 {
        let shorter = order.drop_last();
        let front = enabled_names(files, shorter);
        let all = enabled_names(files, order);
        lemma_enabled_names(files, shorter, name);
        if all.contains(name) {
            let k = choose|k: int| 0 <= k < all.len() && all[k] == name;
            if k < front.len() {
                assert(front[k] == name);
                let i = choose|i: int|
                    0 <= i < shorter.len() && is_enabled_qemu(files[#[trigger] shorter[i]], name);
                assert(is_enabled_qemu(files[order[i]], name));
            } else {
                assert(is_enabled_qemu(files[order[order.len() - 1]], name));
            }
        }
        if exists|i: int| 0 <= i < order.len() && is_enabled_qemu(files[#[trigger] order[i]], name) {
            let i = choose|i: int|
                0 <= i < order.len() && is_enabled_qemu(files[#[trigger] order[i]], name);
            if i < shorter.len() {
                assert(is_enabled_qemu(files[shorter[i]], name));
                let k = choose|k: int| 0 <= k < front.len() && front[k] == name;
                assert(all[k] == name);
            } else {
                assert(all.last() == name);
            }
        }
    }
}

/// The enabled names are in ascending order if the places are.
proof fn lemma_enabled_in_order(files: Seq<RegistryFile>, order: Seq<int>)
    requires
        crate::order::ascending(name_bytes(file_names(files)), order),
        forall|i: int| 0 <= i < order.len() ==> 0 <= #[trigger] order[i] < files.len(),
    ensures
        in_order(enabled_names(files, order)),
    decreases order.len(),
{
    if order.len() > 0 {
        let keys = name_bytes(file_names(files));
        let shorter = order.drop_last();
        let front = enabled_names(files, shorter);
        let all = enabled_names(files, order);
        crate::order::lemma_ascending_front(keys, order);
        assert forall|i: int| 0 <= i < shorter.len() implies 0 <= #[trigger] shorter[i]
            < files.len() by {
            assert(shorter[i] == order[i]);
        }
        lemma_enabled_in_order(files, shorter);
        assert forall|a: int, b: int|
            #![trigger all[a], all[b]]
            0 <= a < b < all.len() implies crate::order::le(
            crate::paths::bytes(all[a]),
            crate::paths::bytes(all[b]),
        ) by {
            assert(all[a] == front[a]);
            if b < front.len() {
                assert(all[b] == front[b]);
            } else {
                lemma_enabled_names(files, shorter, front[a]);
                assert(front.contains(front[a]));
                let i = choose|i: int|
                    0 <= i < shorter.len() && is_enabled_qemu(
                        files[#[trigger] shorter[i]],
                        front[a],
                    );
                assert(shorter[i] == order[i]);
                assert(crate::order::le(keys[order[i]], keys[order[order.len() - 1]]));
            }
        }
    }
}

/// Every qemu entry that is enabled is listed, and no other, and they are
/// listed in order.
pub proof fn all_enabled_entries_are_listed(files: Seq<RegistryFile>, name: Seq<char>)
    ensures
        enabled_names(files, crate::order::sorted(name_bytes(file_names(files)))).contains(name)
            <==> exists|n: int| 0 <= n < files.len() && is_enabled_qemu(#[trigger] files[n], name),
        in_order(enabled_names(files, crate::order::sorted(name_bytes(file_names(files))))),
{
    let keys = name_bytes(file_names(files));
    let order = crate::order::sorted(keys);
    crate::order::sorting_sorts(keys, keys.len());
    lemma_enabled_names(files, order, name);
    lemma_enabled_in_order(files, order);
    if exists|n: int| 0 <= n < files.len() && is_enabled_qemu(#[trigger] files[n], name) {
        let n = choose|n: int| 0 <= n < files.len() && is_enabled_qemu(#[trigger] files[n], name);
        assert(order.contains(n));
        let i = choose|i: int| 0 <= i < order.len() && order[i] == n;
        assert(is_enabled_qemu(files[order[i]], name));
    }
}

/// No two files have the same name.
pub open spec fn names_differ(files: Seq<ConfFile>) -> bool {
    forall|i: int, j: int|
        #![trigger files[i], files[j]]
        0 <= i < j < files.len() ==> files[i].name@ != files[j].name@
}

/// Files in ascending order of their names, no two of which are the same.
spec fn is_lineup(files: Seq<ConfFile>) -> bool {
    names_differ(files) && forall|i: int, j: int|
        #![trigger files[i], files[j]]
        0 <= i < j < files.len() ==> crate::order::le(files[i].name@, files[j].name@)
}

/// The files of a directory in the order of their names.
spec fn lineup(files: Seq<ConfFile>) -> Seq<ConfFile> {
    crate::order::sorted(conf_names(files)).map_values(|i: int| files[i])
}

/// The entries of files, one file after the other.
spec fn entries_of(files: Seq<ConfFile>, info: ElfInfo) -> Seq<EntryView>
    decreases files.len(),
{
    if files.len() == 0 {
        Seq::empty()
    } else {
        entries_of(files.drop_last(), info) + file_entries(files.last(), info)
    }
}

/// Going by places is going by the files there.
proof fn lemma_entries_by_place(files: Seq<ConfFile>, order: Seq<int>, info: ElfInfo)
    ensures
        ordered_entries(files, order, info) == entries_of(
            order.map_values(|i: int| files[i]),
            info,
        ),
    decreases order.len(),
{
    let line = order.map_values(|i: int| files[i]);
    if order.len() > 0 {
        lemma_entries_by_place(files, order.drop_last(), info);
        assert(line.drop_last() =~= order.drop_last().map_values(|i: int| files[i]));
    }
}

/// The files of a directory in the order of their names are those files, in
/// that order.
proof fn lemma_lineup(files: Seq<ConfFile>)
    requires
        names_differ(files),
    ensures
        is_lineup(lineup(files)),
        forall|f: ConfFile| lineup(files).contains(f) <==> #[trigger] files.contains(f),
{
    let keys = conf_names(files);
    let order = crate::order::sorted(keys);
    let line = lineup(files);
    crate::order::sorting_sorts(keys, keys.len());
    assert forall|f: ConfFile| line.contains(f) <==> #[trigger] files.contains(f) by {
        if line.contains(f) {
            let i = choose|i: int| 0 <= i < line.len() && line[i] == f;
            assert(files[order[i]] == f);
        }
        if files.contains(f) {
            let n = choose|n: int| 0 <= n < files.len() && files[n] == f;
            assert(order.contains(n));
            let i = choose|i: int| 0 <= i < order.len() && order[i] == n;
            assert(line[i] == f);
        }
    }
    assert forall|i: int, j: int|
        #![trigger line[i], line[j]]
        0 <= i < j < line.len() implies line[i].name@ != line[j].name@ && crate::order::le(
        line[i].name@,
        line[j].name@,
    ) by {
        assert(order[i] != order[j]);
        assert(line[i] == files[order[i]] && line[j] == files[order[j]]);
        assert(crate::order::le(keys[order[i]], keys[order[j]]));
        if order[i] < order[j] {
            assert(files[order[i]].name@ != files[order[j]].name@);
        } else {
            assert(files[order[j]].name@ != files[order[i]].name@);
        }
    }
}

/// The front of a line-up is one, and holds all files but the last.
proof fn lemma_lineup_front(line: Seq<ConfFile>)
    requires
        is_lineup(line),
        line.len() > 0,
    ensures
        is_lineup(line.drop_last()),
        forall|f: ConfFile| #[trigger]
            line.drop_last().contains(f) <==> line.contains(f) && f != line.last(),
{
    let front = line.drop_last();
    assert forall|i: int, j: int|
        #![trigger front[i], front[j]]
        0 <= i < j < front.len() implies front[i].name@ != front[j].name@ && crate::order::le(
        front[i].name@,
        front[j].name@,
    ) by {
        assert(front[i] == line[i] && front[j] == line[j]);
    }
    assert forall|f: ConfFile| #[trigger]
        front.contains(f) <==> line.contains(f) && f != line.last() by {
        if front.contains(f) {
            let i = choose|i: int| 0 <= i < front.len() && front[i] == f;
            assert(line[i] == f);
            assert(line[i].name@ != line[line.len() - 1].name@);
        }
        if line.contains(f) && f != line.last() {
            let i = choose|i: int| 0 <= i < line.len() && line[i] == f;
            assert(front[i] == f);
        }
    }
}

/// Two line-ups of the same files are the same.
proof fn lemma_lineups_agree(a: Seq<ConfFile>, b: Seq<ConfFile>)
    requires
        is_lineup(a),
        is_lineup(b),
        forall|f: ConfFile| #[trigger] a.contains(f) <==> b.contains(f),
    ensures
        a == b,
    decreases a.len(),
{
    if a.len() == 0 {
        if b.len() > 0 {
            assert(b.contains(b[0]));
            assert(a.contains(b[0]));
        }
        assert(a =~= b);
    } else {
        assert(a.contains(a.last()));
        assert(b.contains(a.last()));
        let i = choose|i: int| 0 <= i < b.len() && b[i] == a.last();
        assert(b.contains(b.last()));
        assert(a.contains(b.last()));
        let j = choose|j: int| 0 <= j < a.len() && a[j] == b.last();
        assert(a.last() == b.last()) by {
            if i < b.len() - 1 && j < a.len() - 1 {
                assert(crate::order::le(b[i].name@, b[b.len() - 1].name@));
                assert(crate::order::le(a[j].name@, a[a.len() - 1].name@));
                crate::order::lemma_le_antisymmetric(a.last().name@, b.last().name@);
                assert(b[i].name@ != b[b.len() - 1].name@);
            }
        }
        lemma_lineup_front(a);
        lemma_lineup_front(b);
        lemma_lineups_agree(a.drop_last(), b.drop_last());
        assert(a =~= a.drop_last().push(a.last()));
        assert(b =~= b.drop_last().push(b.last()));
    }
}

/// The rules kept ready do not depend on the order in which a directory lists
/// its files: the same files, each with a name of its own, make the same
/// entries in the same order.
pub proof fn listing_order_does_not_matter(a: Seq<ConfFile>, b: Seq<ConfFile>, info: ElfInfo)
    requires
        names_differ(a),
        names_differ(b),
        forall|f: ConfFile| #[trigger] a.contains(f) <==> b.contains(f),
    ensures
        kept_ready(a, info) == kept_ready(b, info),
{
    lemma_entries_by_place(a, crate::order::sorted(conf_names(a)), info);
    lemma_entries_by_place(b, crate::order::sorted(conf_names(b)), info);
    lemma_lineup(a);
    lemma_lineup(b);
    assert forall|f: ConfFile| #[trigger] lineup(a).contains(f) <==> lineup(b).contains(f) by {
        assert(a.contains(f) <==> b.contains(f));
    }
    lemma_lineups_agree(lineup(a), lineup(b));
}

/// An emulator of the host is reached below the host's root.
pub proof fn host_interpreter_is_below_host_root(entry: EntryView)
    requires
        host_entry(entry) is Some,
    ensures
        host_entry(entry)->0.interpreter == host_root().push(crate::paths::SLASH)
            + crate::paths::below_root(entry.interpreter)->0,
        host_entry(entry)->0.name == entry.name,
        host_entry(entry)->0.flags == entry.flags,
{
    reveal_strlit("/proc/1/root");
    crate::paths::lemma_ascii_bytes("/proc/1/root"@);
    assert(host_root().last() == "/proc/1/root"@[11] as u8);
    crate::paths::lemma_below_root_is_relative(entry.interpreter);
}

/// The number of the machine that a name stands for, told by its length and
/// the characters behind `qemu-`.
spec fn machine_named(name: Seq<char>) -> u16 {
    if name[5] == 's' {
        if name[6] == 'p' {
            if name.len() == 10 {
                0x02
            } else if name.len() == 16 {
                0x12
            } else {
                0x2b
            }
        } else if name[6] == '3' {
            0x16
        } else {
            0x2a
        }
    } else if name[5] == 'i' {
        0x03
    } else if name[5] == 'm' {
        if name[6] == '6' {
            0x04
        } else if name[7] == 'p' {
            0x08
        } else {
            0xbaab
        }
    } else if name[5] == 'p' {
        if name.len() == 8 {
            0x14
        } else {
            0x15
        }
    } else if name[5] == 'a' {
        if name[6] == 'r' {
            0x28
        } else if name[6] == 'a' {
            0xb7
        } else {
            0x9026
        }
    } else if name[5] == 'x' {
        0x3e
    } else if name[5] == 'r' {
        0xf3
    } else {
        0x102
    }
}

/// The machine can be told from the name of its entry.
#[verifier::spinoff_prover]
proof fn lemma_machine_named(info: ElfInfo)
    requires
        entry_name(info) is Some,
    ensures
        machine_named(entry_name(info)->0) == info.machine,
{
    reveal_strlit("qemu-sparc");
    reveal_strlit("qemu-i386");
    reveal_strlit("qemu-m68k");
    reveal_strlit("qemu-mipsel");
    reveal_strlit("qemu-mips");
    reveal_strlit("qemu-mips64el");
    reveal_strlit("qemu-mips64");
    reveal_strlit("qemu-sparc32plus");
    reveal_strlit("qemu-ppc");
    reveal_strlit("qemu-ppc64le");
    reveal_strlit("qemu-ppc64");
    reveal_strlit("qemu-s390x");
    reveal_strlit("qemu-arm");
    reveal_strlit("qemu-armeb");
    reveal_strlit("qemu-sh4");
    reveal_strlit("qemu-sh4eb");
    reveal_strlit("qemu-sparc64");
    reveal_strlit("qemu-x86_64");
    reveal_strlit("qemu-aarch64");
    reveal_strlit("qemu-aarch64_be");
    reveal_strlit("qemu-riscv32");
    reveal_strlit("qemu-riscv64");
    reveal_strlit("qemu-loongarch64");
    reveal_strlit("qemu-alpha");
    reveal_strlit("qemu-microblaze");
}

/// A name stands for one machine: two programs whose emulators have the same
/// name are of machines with the same number.
pub proof fn entry_name_tells_the_machine(a: ElfInfo, b: ElfInfo)
    requires
        entry_name(a) is Some,
        entry_name(a) == entry_name(b),
    ensures
        a.machine == b.machine,
{
    lemma_machine_named(a);
    lemma_machine_named(b);
}

} // verus!
