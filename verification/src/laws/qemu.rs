//! Of entries, rules and emulators.

use vstd::prelude::*;

use crate::elf::{ElfClass, ElfInfo, Endian};
use crate::qemu::{Candidate, ConfFile, EntryView, RegistryFile};

verus! {

/// Each machine has the entry that qemu gives it, by its number and, where
/// that is not enough, its class and byte order; no other machine has one.
pub proof fn machines_have_their_entries(info: ElfInfo)
    ensures
        info.machine == 0x02 && info.class == ElfClass::Bits32 && info.endian == Endian::Big ==> crate::qemu::entry_names_for(info) == seq!["qemu-sparc"@],
        info.machine == 0x03 ==> crate::qemu::entry_names_for(info) == seq!["qemu-i386"@],
        info.machine == 0x04 && info.class == ElfClass::Bits32 && info.endian == Endian::Big ==> crate::qemu::entry_names_for(info) == seq!["qemu-m68k"@],
        info.machine == 0x08 && info.class == ElfClass::Bits32 && info.endian == Endian::Little ==> crate::qemu::entry_names_for(info) == seq!["qemu-mipsel"@],
        info.machine == 0x08 && info.class == ElfClass::Bits32 && info.endian == Endian::Big ==> crate::qemu::entry_names_for(info) == seq!["qemu-mips"@],
        info.machine == 0x08 && info.class == ElfClass::Bits64 && info.endian == Endian::Little ==> crate::qemu::entry_names_for(info) == seq!["qemu-mips64el"@],
        info.machine == 0x08 && info.class == ElfClass::Bits64 && info.endian == Endian::Big ==> crate::qemu::entry_names_for(info) == seq!["qemu-mips64"@],
        info.machine == 0x12 && info.class == ElfClass::Bits32 && info.endian == Endian::Big ==> crate::qemu::entry_names_for(info) == seq!["qemu-sparc32plus"@],
        info.machine == 0x14 ==> crate::qemu::entry_names_for(info) == seq!["qemu-ppc"@],
        info.machine == 0x15 && info.endian == Endian::Little ==> crate::qemu::entry_names_for(info) == seq!["qemu-ppc64le"@],
        info.machine == 0x15 && info.endian == Endian::Big ==> crate::qemu::entry_names_for(info) == seq!["qemu-ppc64"@],
        info.machine == 0x16 ==> crate::qemu::entry_names_for(info) == seq!["qemu-s390x"@],
        info.machine == 0x28 && info.endian == Endian::Little ==> crate::qemu::entry_names_for(info) == seq!["qemu-arm"@],
        info.machine == 0x28 && info.endian == Endian::Big ==> crate::qemu::entry_names_for(info) == seq!["qemu-armeb"@],
        info.machine == 0x2a && info.endian == Endian::Little ==> crate::qemu::entry_names_for(info) == seq!["qemu-sh4"@],
        info.machine == 0x2a && info.endian == Endian::Big ==> crate::qemu::entry_names_for(info) == seq!["qemu-sh4eb"@],
        info.machine == 0x2b && info.class == ElfClass::Bits64 && info.endian == Endian::Big ==> crate::qemu::entry_names_for(info) == seq!["qemu-sparc64"@],
        info.machine == 0x3e ==> crate::qemu::entry_names_for(info) == seq!["qemu-x86_64"@],
        info.machine == 0xb7 && info.endian == Endian::Little ==> crate::qemu::entry_names_for(info) == seq!["qemu-aarch64"@],
        info.machine == 0xb7 && info.endian == Endian::Big ==> crate::qemu::entry_names_for(info) == seq!["qemu-aarch64_be"@],
        info.machine == 0xf3 && info.class == ElfClass::Bits32 && info.endian == Endian::Little ==> crate::qemu::entry_names_for(info) == seq!["qemu-riscv32"@],
        info.machine == 0xf3 && info.class == ElfClass::Bits64 && info.endian == Endian::Little ==> crate::qemu::entry_names_for(info) == seq!["qemu-riscv64"@],
        info.machine == 0x102 && info.endian == Endian::Little ==> crate::qemu::entry_names_for(info) == seq!["qemu-loongarch64"@],
        info.machine == 0x9026 && info.class == ElfClass::Bits64 && info.endian == Endian::Little ==> crate::qemu::entry_names_for(info) == seq!["qemu-alpha"@],
        info.machine == 0xbaab && info.class == ElfClass::Bits32 && info.endian == Endian::Big ==> crate::qemu::entry_names_for(info) == seq!["qemu-microblaze"@],
        crate::qemu::entry_names_for(info).len() == 0 <==> !(
        (info.machine == 0x02 && info.class == ElfClass::Bits32 && info.endian == Endian::Big)
        || info.machine == 0x03
        || (info.machine == 0x04 && info.class == ElfClass::Bits32 && info.endian == Endian::Big)
        || (info.machine == 0x08 && info.class == ElfClass::Bits32 && info.endian == Endian::Little)
        || (info.machine == 0x08 && info.class == ElfClass::Bits32 && info.endian == Endian::Big)
        || (info.machine == 0x08 && info.class == ElfClass::Bits64 && info.endian == Endian::Little)
        || (info.machine == 0x08 && info.class == ElfClass::Bits64 && info.endian == Endian::Big)
        || (info.machine == 0x12 && info.class == ElfClass::Bits32 && info.endian == Endian::Big)
        || info.machine == 0x14
        || (info.machine == 0x15 && info.endian == Endian::Little)
        || (info.machine == 0x15 && info.endian == Endian::Big)
        || info.machine == 0x16
        || (info.machine == 0x28 && info.endian == Endian::Little)
        || (info.machine == 0x28 && info.endian == Endian::Big)
        || (info.machine == 0x2a && info.endian == Endian::Little)
        || (info.machine == 0x2a && info.endian == Endian::Big)
        || (info.machine == 0x2b && info.class == ElfClass::Bits64 && info.endian == Endian::Big)
        || info.machine == 0x3e
        || (info.machine == 0xb7 && info.endian == Endian::Little)
        || (info.machine == 0xb7 && info.endian == Endian::Big)
        || (info.machine == 0xf3 && info.class == ElfClass::Bits32 && info.endian == Endian::Little)
        || (info.machine == 0xf3 && info.class == ElfClass::Bits64 && info.endian == Endian::Little)
        || (info.machine == 0x102 && info.endian == Endian::Little)
        || (info.machine == 0x9026 && info.class == ElfClass::Bits64 && info.endian == Endian::Little)
        || (info.machine == 0xbaab && info.class == ElfClass::Bits32 && info.endian == Endian::Big)),
{
}

/// An emulator is called with the program's path and the program's own
/// arguments, unchanged and in order; with the flag `P` the path stands there
/// twice, and no other flag matters.
pub proof fn emulators_are_called_with_path_and_arguments(
    flags: Seq<char>,
    target: Seq<u8>,
    args: Seq<Seq<u8>>,
)
    ensures
        ({
            let list = crate::qemu::emulator_args(flags, target, args);
            let asked = exists|i: int| 0 <= i < flags.len() && #[trigger] flags[i] == 'P';
            let front: int = if asked {
                2
            } else {
                1
            };
            &&& list.len() == front + args.len()
            &&& forall|i: int| 0 <= i < front ==> #[trigger] list[i] == target
            &&& forall|i: int| 0 <= i < args.len() ==> list[front + i] == #[trigger] args[i]
        }),
{
    let asked = exists|i: int| 0 <= i < flags.len() && #[trigger] flags[i] == 'P';
    assert(asked == flags.contains('P'));
}

/// Two sets of flags that agree on `P` make the same call.
pub proof fn only_one_flag_matters(
    flags: Seq<char>,
    others: Seq<char>,
    target: Seq<u8>,
    args: Seq<Seq<u8>>,
)
    requires
        (exists|i: int| 0 <= i < flags.len() && #[trigger] flags[i] == 'P') <==> (exists|i: int|
            0 <= i < others.len() && #[trigger] others[i] == 'P'),
    ensures
        crate::qemu::emulator_args(flags, target, args) == crate::qemu::emulator_args(
            others,
            target,
            args,
        ),
{
    emulators_are_called_with_path_and_arguments(flags, target, args);
    emulators_are_called_with_path_and_arguments(others, target, args);
    let a = crate::qemu::emulator_args(flags, target, args);
    let b = crate::qemu::emulator_args(others, target, args);
    let front = a.len() - args.len();
    assert forall|i: int| 0 <= i < a.len() implies a[i] == b[i] by {
        if i >= front {
            assert(args[i - front] == args[i - front]);
        }
    }
    assert(a =~= b);
}

/// In a field of a rule an ASCII character stands for itself, but for the
/// backslash; that stands, with `x` and two hexadecimal digits behind it, for
/// the byte that they make; and nothing else can be read.
pub proof fn fields_stand_for_bytes(c: char, hi: char, lo: char, rest: Seq<char>)
    ensures
        c as int <= 127 && c != '\\' ==> crate::qemu::unescaped(seq![c] + rest)
            == crate::qemu::prepended(seq![c as u8], crate::qemu::unescaped(rest)),
        c as int > 127 ==> crate::qemu::unescaped(seq![c] + rest) is None,
        crate::text::hex_value(hi) is Some && crate::text::hex_value(lo) is Some
            ==> crate::qemu::unescaped(seq!['\\', 'x', hi, lo] + rest) == crate::qemu::prepended(
            seq![(16 * crate::text::hex_value(hi)->0 + crate::text::hex_value(lo)->0) as u8],
            crate::qemu::unescaped(rest),
        ),
        crate::text::hex_value(hi) is None || crate::text::hex_value(lo) is None
            ==> crate::qemu::unescaped(seq!['\\', 'x', hi, lo] + rest) is None,
        c != 'x' ==> crate::qemu::unescaped(seq!['\\', c] + rest) is None,
        rest.len() < 3 ==> crate::qemu::unescaped(seq!['\\'] + rest) is None,
        crate::qemu::unescaped(Seq::empty()) == Some(Seq::<u8>::empty()),
{
    let one = seq![c] + rest;
    assert(one[0] == c);
    assert(one.skip(1) =~= rest);
    let four = seq!['\\', 'x', hi, lo] + rest;
    assert(four[0] == '\\' && four[1] == 'x' && four[2] == hi && four[3] == lo);
    assert(four.skip(4) =~= rest);
    let two = seq!['\\', c] + rest;
    assert(two[0] == '\\' && two[1] == c);
    let short = seq!['\\'] + rest;
    assert(short[0] == '\\');
}

/// What is readable is put behind, and what is not spoils all.
pub proof fn bytes_are_put_before(front: Seq<u8>, back: Option<Seq<u8>>)
    ensures
        back is Some ==> crate::qemu::prepended(front, back) == Some(front + back->0),
        back is None ==> crate::qemu::prepended(front, back) is None,
{
}

/// A place in a header that tells machines apart.
pub open spec fn tells_machines_apart(i: int) -> bool {
    i == 0 || i == 1 || i == 2 || i == 3 || i == 4 || i == 5 || i == 18 || i == 19
}

/// The byte that stands there in a program for `info`.
pub open spec fn byte_there(info: ElfInfo, i: int) -> u8 {
    let low = (info.machine % 256) as u8;
    let high = (info.machine / 256) as u8;
    let little = info.endian == Endian::Little;
    if i == 0 {
        0x7f
    } else if i == 1 {
        0x45
    } else if i == 2 {
        0x4c
    } else if i == 3 {
        0x46
    } else if i == 4 {
        if info.class == ElfClass::Bits32 {
            1
        } else {
            2
        }
    } else if i == 5 {
        if little {
            1
        } else {
            2
        }
    } else if (i == 18) == little {
        low
    } else {
        high
    }
}

/// A rule takes the programs of a machine exactly where it cares for the
/// class, the byte order and the machine, and agrees with such a program in
/// every bit that it cares for at the places that tell machines apart.
pub proof fn rules_take_what_they_look_for(magic: Seq<u8>, mask: Seq<u8>, info: ElfInfo)
    ensures
        crate::qemu::rule_takes(magic, mask, info) <==> magic.len() >= 20 && mask.len() >= 20
            && mask[4] != 0 && mask[5] != 0 && (mask[18] != 0 || mask[19] != 0) && forall|i: int|
            tells_machines_apart(i) ==> (#[trigger] magic[i]) & mask[i] == byte_there(info, i)
                & mask[i],
{
    assert forall|i: int| crate::qemu::is_fixed(i) <==> tells_machines_apart(i) by {}
    assert forall|i: int| tells_machines_apart(i) implies crate::qemu::header_byte(info, i)
        == byte_there(info, i) by {}
    if crate::qemu::rule_takes(magic, mask, info) {
        assert forall|i: int| tells_machines_apart(i) implies (#[trigger] magic[i]) & mask[i]
            == byte_there(info, i) & mask[i] by {
            assert(crate::qemu::agree(magic[i], mask[i], crate::qemu::header_byte(info, i)));
        }
    }
    if forall|i: int|
        tells_machines_apart(i) ==> (#[trigger] magic[i]) & mask[i] == byte_there(info, i)
            & mask[i] {
        assert forall|i: int| crate::qemu::is_fixed(i) implies #[trigger] crate::qemu::agree(
            magic[i],
            mask[i],
            crate::qemu::header_byte(info, i),
        ) by {
            assert(tells_machines_apart(i));
            assert(magic[i] & mask[i] == byte_there(info, i) & mask[i]);
        }
    }
}

/// A rule that looks at those places only takes a program here exactly where
/// the kernel, which looks at the file, would take it.
pub proof fn the_kernel_takes_the_same(magic: Seq<u8>, mask: Seq<u8>, file: Seq<u8>)
    requires
        crate::elf::header_info(file) is Ok,
        magic.len() == 20,
        mask.len() == 20,
        mask[4] != 0,
        mask[5] != 0,
        mask[18] != 0 || mask[19] != 0,
        forall|i: int| 0 <= i < 20 && !tells_machines_apart(i) ==> #[trigger] mask[i] == 0,
    ensures
        crate::qemu::rule_takes(magic, mask, crate::elf::header_info(file)->Ok_0) <==> forall|
            i: int,
        |
            0 <= i < 20 ==> (#[trigger] magic[i]) & mask[i] == file[i] & mask[i],
{
    let info = crate::elf::header_info(file)->Ok_0;
    crate::laws::elf::defects_are_told_in_order(file);
    crate::laws::elf::header_says_what_its_bytes_do(file);
    rules_take_what_they_look_for(magic, mask, info);
    assert forall|i: int| tells_machines_apart(i) implies #[trigger] file[i] == byte_there(
        info,
        i,
    ) by {
        assert(info.machine == 256 * (info.machine / 256) + info.machine % 256);
    }
    assert forall|i: int| 0 <= i < 20 && !tells_machines_apart(i) implies (#[trigger] magic[i])
        & mask[i] == file[i] & mask[i] by {
        let a = magic[i];
        let b = file[i];
        assert(mask[i] == 0);
        assert(a & 0 == b & 0) by (bit_vector);
    }
    if crate::qemu::rule_takes(magic, mask, info) {
        assert forall|i: int| 0 <= i < 20 implies (#[trigger] magic[i]) & mask[i] == file[i]
            & mask[i] by {
            if tells_machines_apart(i) {
                assert(file[i] == byte_there(info, i));
            }
        }
    }
    if forall|i: int| 0 <= i < 20 ==> (#[trigger] magic[i]) & mask[i] == file[i] & mask[i] {
        assert forall|i: int| tells_machines_apart(i) implies (#[trigger] magic[i]) & mask[i]
            == byte_there(info, i) & mask[i] by {
            assert(file[i] == byte_there(info, i));
        }
    }
}

/// A line of a rules file.
pub open spec fn rule_line(
    name: Seq<char>,
    kind: Seq<char>,
    offset: Seq<char>,
    magic: Seq<char>,
    mask: Seq<char>,
    tail: Seq<char>,
) -> Seq<char> {
    Seq::<char>::empty().push(':') + (name.push(':') + (kind.push(':') + (offset.push(':') + (
    magic.push(':') + (mask.push(':') + tail)))))
}

/// The fields of a line of a rules file.
proof fn lemma_rule_fields(
    name: Seq<char>,
    kind: Seq<char>,
    offset: Seq<char>,
    magic: Seq<char>,
    mask: Seq<char>,
    tail: Seq<char>,
)
    requires
        crate::laws::text::is_free_of(name, ':'),
        crate::laws::text::is_free_of(kind, ':'),
        crate::laws::text::is_free_of(offset, ':'),
        crate::laws::text::is_free_of(magic, ':'),
        crate::laws::text::is_free_of(mask, ':'),
    ensures
        crate::text::fields(rule_line(name, kind, offset, magic, mask, tail), ':', 8) == seq![
            Seq::empty(),
            name,
            kind,
            offset,
            magic,
            mask,
        ] + crate::text::fields(tail, ':', 2),
{
    let none = Seq::<char>::empty();
    let t5 = mask.push(':') + tail;
    let t4 = magic.push(':') + t5;
    let t3 = offset.push(':') + t4;
    let t2 = kind.push(':') + t3;
    let t1 = name.push(':') + t2;
    crate::laws::text::fields_are_between_separators(none, ':', t1, 7);
    crate::laws::text::fields_are_between_separators(name, ':', t2, 6);
    crate::laws::text::fields_are_between_separators(kind, ':', t3, 5);
    crate::laws::text::fields_are_between_separators(offset, ':', t4, 4);
    crate::laws::text::fields_are_between_separators(magic, ':', t5, 3);
    crate::laws::text::fields_are_between_separators(mask, ':', tail, 2);
    assert(crate::text::fields(rule_line(name, kind, offset, magic, mask, tail), ':', 8) =~= seq![
        none,
        name,
        kind,
        offset,
        magic,
        mask,
    ] + crate::text::fields(tail, ':', 2));
}

/// A rule makes an entry exactly where it has a name that is not one of this
/// program's own, goes by magic bytes at the start of the file, can be read, and
/// takes programs for `info`.
pub open spec fn makes_an_entry(
    name: Seq<char>,
    kind: Seq<char>,
    offset: Seq<char>,
    magic: Seq<char>,
    mask: Seq<char>,
    info: ElfInfo,
) -> bool {
    &&& name.len() > 0
    &&& !crate::text::has_prefix(name, "aosc-exec-guard-"@)
    &&& kind == "M"@
    &&& offset.len() == 0 || offset == "0"@
    &&& crate::qemu::unescaped(magic) is Some
    &&& crate::qemu::unescaped(mask) is Some
    &&& crate::qemu::rule_takes(
        crate::qemu::unescaped(magic)->0,
        crate::qemu::unescaped(mask)->0,
        info,
    )
}

/// A rule that was written is read back, with blanks around it or without: its
/// name, its interpreter and its flags make the entry, where it makes one.
pub proof fn rules_are_read_back(
    a: Seq<char>,
    name: Seq<char>,
    kind: Seq<char>,
    offset: Seq<char>,
    magic: Seq<char>,
    mask: Seq<char>,
    interpreter: Seq<char>,
    flags: Seq<char>,
    b: Seq<char>,
    info: ElfInfo,
)
    requires
        crate::laws::text::is_free_of(name, ':'),
        crate::laws::text::is_free_of(kind, ':'),
        crate::laws::text::is_free_of(offset, ':'),
        crate::laws::text::is_free_of(magic, ':'),
        crate::laws::text::is_free_of(mask, ':'),
        crate::laws::text::is_free_of(interpreter, ':'),
        flags.len() > 0 ==> !crate::text::white_space(flags.last()),
        crate::laws::text::is_blank(a),
        crate::laws::text::is_blank(b),
    ensures
        crate::qemu::conf_entry(
            a + rule_line(name, kind, offset, magic, mask, interpreter.push(':') + flags) + b,
            info,
        ) == if makes_an_entry(name, kind, offset, magic, mask, info) {
            Some(
                EntryView { name, interpreter: crate::paths::bytes(interpreter), flags },
            )
        } else {
            None
        },
{
    let tail = interpreter.push(':') + flags;
    let line = rule_line(name, kind, offset, magic, mask, tail);
    assert(line[0] == ':');
    assert(line.last() == tail.last());
    assert(tail.last() == if flags.len() > 0 {
        flags.last()
    } else {
        ':'
    });
    crate::laws::text::trimming_takes_the_ends_off(a, line, b);
    lemma_rule_fields(name, kind, offset, magic, mask, tail);
    crate::laws::text::fields_are_between_separators(interpreter, ':', flags, 1);
    let f = crate::text::fields(line, ':', 8);
    assert(crate::text::fields(flags, ':', 1) == seq![flags]);
    assert(f =~= seq![
        Seq::empty(),
        name,
        kind,
        offset,
        magic,
        mask,
        interpreter,
        flags,
    ]);
}

/// A rule may do without flags.
pub proof fn rules_may_do_without_flags(
    name: Seq<char>,
    kind: Seq<char>,
    offset: Seq<char>,
    magic: Seq<char>,
    mask: Seq<char>,
    interpreter: Seq<char>,
    info: ElfInfo,
)
    requires
        crate::laws::text::is_free_of(name, ':'),
        crate::laws::text::is_free_of(kind, ':'),
        crate::laws::text::is_free_of(offset, ':'),
        crate::laws::text::is_free_of(magic, ':'),
        crate::laws::text::is_free_of(mask, ':'),
        crate::laws::text::is_free_of(interpreter, ':'),
        interpreter.len() > 0 ==> !crate::text::white_space(interpreter.last()),
    ensures
        crate::qemu::conf_entry(
            rule_line(name, kind, offset, magic, mask, interpreter),
            info,
        ) == if makes_an_entry(name, kind, offset, magic, mask, info) {
            Some(
                EntryView {
                    name,
                    interpreter: crate::paths::bytes(interpreter),
                    flags: Seq::empty(),
                },
            )
        } else {
            None
        },
{
    let none = Seq::<char>::empty();
    let line = rule_line(name, kind, offset, magic, mask, interpreter);
    assert(line[0] == ':');
    assert(line.last() == if interpreter.len() > 0 {
        interpreter.last()
    } else {
        ':'
    });
    crate::text::lemma_trimmed_tight(line);
    lemma_rule_fields(name, kind, offset, magic, mask, interpreter);
    crate::laws::text::fields_are_between_separators(interpreter, ':', none, 2);
    assert(crate::text::fields(line, ':', 8) =~= seq![
        none,
        name,
        kind,
        offset,
        magic,
        mask,
        interpreter,
    ]);
}

/// A line that does not start with a colon, such as a comment, is no rule.
pub proof fn comments_are_no_rules(line: Seq<char>, info: ElfInfo)
    requires
        crate::text::trimmed(line).len() == 0 || crate::text::trimmed(line)[0] != ':',
    ensures
        crate::qemu::conf_entry(line, info) is None,
{
    let s = crate::text::trimmed(line);
    let f = crate::text::fields(s, ':', 8);
    crate::text::lemma_position(s, ':');
    assert(s.len() == 0 ==> f.len() == 1);
    assert(s.len() > 0 ==> f[0].len() > 0);
}

/// A line with fewer than seven fields is no rule.
pub proof fn short_lines_are_no_rules(line: Seq<char>, info: ElfInfo)
    requires
        crate::text::fields(crate::text::trimmed(line), ':', 8).len() < 7,
    ensures
        crate::qemu::conf_entry(line, info) is None,
{
}

/// Of the lines with a key, the last counts.
pub proof fn the_last_line_with_a_key_counts(lines: Seq<Seq<char>>, key: Seq<char>, i: int)
    ensures
        crate::qemu::last_value(lines, key) is Some <==> exists|k: int|
            0 <= k < lines.len() && crate::text::has_prefix(#[trigger] lines[k], key),
        0 <= i < lines.len() && crate::text::has_prefix(lines[i], key) && (forall|k: int|
            i < k < lines.len() ==> !crate::text::has_prefix(#[trigger] lines[k], key))
            ==> crate::qemu::last_value(lines, key) == Some(
            crate::text::trimmed(lines[i].skip(key.len() as int)),
        ),
    decreases lines.len(),
{
    if lines.len() > 0 {
        let front = lines.drop_last();
        let end = lines.len() - 1;
        the_last_line_with_a_key_counts(front, key, i);
        assert(forall|k: int| 0 <= k < front.len() ==> front[k] == #[trigger] lines[k]);
        if crate::text::has_prefix(lines[end], key) {
        } else if exists|k: int|
            0 <= k < lines.len() && crate::text::has_prefix(#[trigger] lines[k], key) {
            let k = choose|k: int|
                0 <= k < lines.len() && crate::text::has_prefix(#[trigger] lines[k], key);
            assert(crate::text::has_prefix(front[k], key));
        }
    }
}

/// A file of the registry describes an entry exactly where its first line says
/// that it is enabled and a later one names an interpreter.
pub proof fn entries_are_enabled_and_have_an_interpreter(name: Seq<char>, text: Seq<char>)
    ensures
        crate::qemu::registered_entry(name, text) is Some <==> ({
            let all = crate::text::lines(text);
            &&& all.len() > 0
            &&& crate::text::trimmed(all[0]) == "enabled"@
            &&& exists|k: int|
                1 <= k < all.len() && crate::text::has_prefix(
                    #[trigger] all[k],
                    "interpreter "@,
                )
        }),
        crate::qemu::registered_entry(name, text) is Some ==> crate::qemu::registered_entry(
            name,
            text,
        )->0.name == name,
{
    let all = crate::text::lines(text);
    let rest = all.skip(1);
    the_last_line_with_a_key_counts(rest, "interpreter "@, 0);
    if all.len() > 0 {
        if exists|k: int|
            1 <= k < all.len() && crate::text::has_prefix(#[trigger] all[k], "interpreter "@) {
            let k = choose|k: int|
                1 <= k < all.len() && crate::text::has_prefix(#[trigger] all[k], "interpreter "@);
            assert(rest[k - 1] == all[k]);
        }
        if exists|k: int|
            0 <= k < rest.len() && crate::text::has_prefix(#[trigger] rest[k], "interpreter "@) {
            let k = choose|k: int|
                0 <= k < rest.len() && crate::text::has_prefix(
                    #[trigger] rest[k],
                    "interpreter "@,
                );
            assert(all[k + 1] == rest[k]);
        }
    }
}

/// An entry has the interpreter that the last line on one names, and the flags
/// that the last line on them names, or none where no line does.
pub proof fn entries_hold_what_the_lines_say(name: Seq<char>, text: Seq<char>)
    requires
        crate::qemu::registered_entry(name, text) is Some,
    ensures
        ({
            let entry = crate::qemu::registered_entry(name, text)->0;
            let later = crate::text::lines(text).skip(1);
            let path = crate::qemu::last_value(later, "interpreter "@);
            let flags = crate::qemu::last_value(later, "flags:"@);
            &&& path is Some && entry.interpreter == crate::paths::bytes(path->0)
            &&& flags is Some ==> entry.flags == flags->0
            &&& flags is None ==> entry.flags.len() == 0
        }),
{
}

/// An enabled entry, written as the kernel writes it, is read back: its
/// interpreter and its flags, whatever else follows.
pub proof fn entries_are_read_back(
    name: Seq<char>,
    interpreter: Seq<char>,
    flags: Seq<char>,
    rest: Seq<char>,
)
    requires
        crate::laws::text::is_free_of(interpreter, '\n'),
        crate::laws::text::is_tight(interpreter),
        interpreter.len() > 0,
        crate::laws::text::is_free_of(flags, '\n'),
        crate::laws::text::is_tight(flags),
        forall|k: int|
            0 <= k < crate::text::lines(rest).len() ==> !crate::text::has_prefix(
                #[trigger] crate::text::lines(rest)[k],
                "interpreter "@,
            ) && !crate::text::has_prefix(crate::text::lines(rest)[k], "flags:"@),
    ensures
        crate::qemu::registered_entry(
            name,
            "enabled"@.push('\n') + (("interpreter "@ + interpreter).push('\n') + (("flags: "@
                + flags).push('\n') + rest)),
        ) == Some(
            EntryView { name, interpreter: crate::paths::bytes(interpreter), flags },
        ),
{
    reveal_strlit("enabled");
    reveal_strlit("interpreter ");
    reveal_strlit("flags: ");
    reveal_strlit("flags:");
    let none = Seq::<char>::empty();
    let second = "interpreter "@ + interpreter;
    let third = "flags: "@ + flags;
    let t3 = third.push('\n') + rest;
    let t2 = second.push('\n') + t3;
    let text = "enabled"@.push('\n') + t2;
    assert(second.last() == interpreter.last());
    assert(third.last() != '\r') by {
        if flags.len() > 0 {
            assert(third.last() == flags.last());
        }
    }
    assert(crate::laws::text::is_free_of("enabled"@, '\n'));
    assert(crate::laws::text::is_free_of(second, '\n'));
    assert(crate::laws::text::is_free_of(third, '\n'));
    crate::laws::text::lines_end_with_line_feeds("enabled"@, t2);
    crate::laws::text::lines_end_with_line_feeds(second, t3);
    crate::laws::text::lines_end_with_line_feeds(third, rest);
    let all = crate::text::lines(text);
    let others = crate::text::lines(rest);
    assert(all =~= seq!["enabled"@, second, third] + others);
    crate::text::lemma_trimmed_tight("enabled"@);
    let later = all.skip(1);
    assert(later =~= seq![second, third] + others);
    assert(second.skip(12) =~= interpreter);
    crate::laws::text::trimming_takes_the_ends_off(none, interpreter, none);
    assert(none + interpreter + none =~= interpreter);
    let value = third.skip(6);
    assert(value =~= seq![' '] + flags + none);
    crate::laws::text::trimming_takes_the_ends_off(seq![' '], flags, none);
    crate::laws::text::prefixes_come_first("interpreter "@, interpreter, second);
    assert(third =~= "flags:"@ + (seq![' '] + flags));
    crate::laws::text::prefixes_come_first("flags:"@, seq![' '] + flags, third);
    assert(!crate::text::has_prefix(third, "interpreter "@)) by {
        if crate::text::has_prefix(third, "interpreter "@) {
            assert(third.take(12)[0] == third[0]);
        }
    }
    assert forall|k: int| 0 < k < later.len() implies !crate::text::has_prefix(
        #[trigger] later[k],
        "interpreter "@,
    ) by {
        if k > 1 {
            assert(later[k] == others[k - 2]);
        }
    }
    assert forall|k: int| 1 < k < later.len() implies !crate::text::has_prefix(
        #[trigger] later[k],
        "flags:"@,
    ) by {
        assert(later[k] == others[k - 2]);
    }
    the_last_line_with_a_key_counts(later, "interpreter "@, 0);
    the_last_line_with_a_key_counts(later, "flags:"@, 1);
}

/// A registry has for a machine the entry that the file with its name
/// describes, and none where the machine has no name, the file cannot be read,
/// or it describes none.
pub proof fn registries_are_read_by_name(info: ElfInfo, texts: Seq<Option<String>>)
    requires
        texts.len() == crate::qemu::entry_names_for(info).len(),
    ensures
        ({
            let names = crate::qemu::entry_names_for(info);
            let found = crate::qemu::registered(names, texts);
            &&& found.len() <= 1
            &&& found.len() == 1 <==> names.len() == 1 && texts[0] is Some
                && crate::qemu::registered_entry(names[0], texts[0]->0@) is Some
            &&& found.len() == 1 ==> Some(found[0]) == crate::qemu::registered_entry(
                names[0],
                texts[0]->0@,
            )
        }),
{
    let names = crate::qemu::entry_names_for(info);
    reveal_with_fuel(crate::qemu::registered, 2);
    if names.len() > 0 {
        assert(names.drop_last() =~= Seq::<Seq<char>>::empty());
    }
}

/// An interpreter of the host is reached below `/proc/1/root`; only one with an
/// absolute path is.
pub proof fn host_interpreters_are_reached_through_process_one(entry: EntryView, rest: Seq<u8>)
    requires
        rest.len() > 0,
        rest[0] != 0x2f && rest[0] != 0x2e,
        rest.last() != 0x2f && rest.last() != 0x2e,
    ensures
        crate::qemu::host_entry(entry) is Some <==> entry.interpreter.len() > 0
            && entry.interpreter[0] == 0x2f,
        entry.interpreter == seq![0x2fu8] + rest ==> crate::qemu::host_entry(entry) == Some(
            EntryView {
                name: entry.name,
                interpreter: crate::paths::bytes("/proc/1/root"@) + seq![0x2fu8] + rest,
                flags: entry.flags,
            },
        ),
{
    crate::laws::text::the_root_is_taken_off(entry.interpreter, rest);
    let root = crate::paths::bytes("/proc/1/root"@);
    reveal_strlit("/proc/1/root");
    crate::paths::lemma_ascii_bytes("/proc/1/root"@);
    assert(root.last() == "/proc/1/root"@[11] as u8);
    crate::laws::text::paths_are_joined_by_a_slash(root, rest);
}

/// The entries of the host are those that can be reached, each as it is reached.
pub proof fn host_entries_are_those_in_reach(entries: Seq<EntryView>, entry: EntryView)
    ensures
        crate::qemu::host_entries_of(entries).contains(entry) <==> exists|i: int|
            0 <= i < entries.len() && crate::qemu::host_entry(#[trigger] entries[i]) == Some(
                entry,
            ),
    decreases entries.len(),
{
    if entries.len() > 0 {
        let shorter = entries.drop_last();
        let front = crate::qemu::host_entries_of(shorter);
        let all = crate::qemu::host_entries_of(entries);
        host_entries_are_those_in_reach(shorter, entry);
        if all.contains(entry) {
            let k = choose|k: int| 0 <= k < all.len() && all[k] == entry;
            if k < front.len() {
                assert(front[k] == entry);
                let i = choose|i: int|
                    0 <= i < shorter.len() && crate::qemu::host_entry(#[trigger] shorter[i])
                        == Some(entry);
                assert(entries[i] == shorter[i]);
            } else {
                assert(crate::qemu::host_entry(entries[entries.len() - 1]) == Some(entry));
            }
        }
        if exists|i: int|
            0 <= i < entries.len() && crate::qemu::host_entry(#[trigger] entries[i]) == Some(
                entry,
            ) {
            let i = choose|i: int|
                0 <= i < entries.len() && crate::qemu::host_entry(#[trigger] entries[i]) == Some(
                    entry,
                );
            if i < shorter.len() {
                assert(shorter[i] == entries[i]);
                let k = choose|k: int| 0 <= k < front.len() && front[k] == entry;
                assert(all[k] == entry);
            } else {
                assert(all[front.len() as int] == entry);
            }
        }
    }
}

/// A rules file is one whose name is something and `.conf`.
pub proof fn rules_files_end_with_conf(stem: Seq<u8>, name: Seq<u8>)
    ensures
        crate::qemu::is_conf_name(stem + crate::paths::bytes(".conf"@)) <==> stem.len() > 0,
        crate::qemu::is_conf_name(name) ==> exists|s: Seq<u8>|
            name == #[trigger] (s + crate::paths::bytes(".conf"@)),
{
    let ending = crate::paths::bytes(".conf"@);
    let all = stem + ending;
    assert(all.skip(all.len() - ending.len()) =~= ending);
    if crate::qemu::is_conf_name(name) {
        let s = name.take(name.len() - ending.len());
        assert(name =~= s + ending);
    }
}

/// The entries of lines are those that one of them makes.
proof fn lemma_line_entries(lines: Seq<Seq<char>>, info: ElfInfo, entry: EntryView)
    ensures
        crate::qemu::line_entries(lines, info).contains(entry) <==> exists|i: int|
            0 <= i < lines.len() && crate::qemu::conf_entry(#[trigger] lines[i], info) == Some(
                entry,
            ),
    decreases lines.len(),
{
    if lines.len() > 0 {
        let shorter = lines.drop_last();
        let front = crate::qemu::line_entries(shorter, info);
        let all = crate::qemu::line_entries(lines, info);
        lemma_line_entries(shorter, info, entry);
        if all.contains(entry) {
            let k = choose|k: int| 0 <= k < all.len() && all[k] == entry;
            if k < front.len() {
                assert(front[k] == entry);
                let i = choose|i: int|
                    0 <= i < shorter.len() && crate::qemu::conf_entry(#[trigger] shorter[i], info)
                        == Some(entry);
                assert(lines[i] == shorter[i]);
            } else {
                assert(crate::qemu::conf_entry(lines[lines.len() - 1], info) == Some(entry));
            }
        }
        if exists|i: int|
            0 <= i < lines.len() && crate::qemu::conf_entry(#[trigger] lines[i], info) == Some(
                entry,
            ) {
            let i = choose|i: int|
                0 <= i < lines.len() && crate::qemu::conf_entry(#[trigger] lines[i], info) == Some(
                    entry,
                );
            if i < shorter.len() {
                assert(shorter[i] == lines[i]);
                let k = choose|k: int| 0 <= k < front.len() && front[k] == entry;
                assert(all[k] == entry);
            } else {
                assert(all[front.len() as int] == entry);
            }
        }
    }
}

/// A file makes an entry where it is a rules file, can be read, and one of its
/// lines makes the entry.
pub open spec fn file_makes(file: ConfFile, info: ElfInfo, entry: EntryView) -> bool {
    &&& crate::qemu::is_conf_name(file.name@)
    &&& file.text is Some
    &&& exists|k: int|
        0 <= k < crate::text::lines(file.text->0@).len() && crate::qemu::conf_entry(
            #[trigger] crate::text::lines(file.text->0@)[k],
            info,
        ) == Some(entry)
}

/// The entries of the files at the places of `order` are those that one of
/// them makes.
proof fn lemma_ordered_entries(
    files: Seq<ConfFile>,
    order: Seq<int>,
    info: ElfInfo,
    entry: EntryView,
)
    ensures
        crate::qemu::ordered_entries(files, order, info).contains(entry) <==> exists|i: int|
            0 <= i < order.len() && file_makes(files[#[trigger] order[i]], info, entry),
    decreases order.len(),
{
    if order.len() > 0 {
        let shorter = order.drop_last();
        let file = files[order.last()];
        let front = crate::qemu::ordered_entries(files, shorter, info);
        let own = crate::qemu::file_entries(file, info);
        let all = crate::qemu::ordered_entries(files, order, info);
        lemma_ordered_entries(files, shorter, info, entry);
        if file.text is Some {
            lemma_line_entries(crate::text::lines(file.text->0@), info, entry);
        }
        assert(own.contains(entry) <==> file_makes(file, info, entry));
        if all.contains(entry) {
            let k = choose|k: int| 0 <= k < all.len() && all[k] == entry;
            if k < front.len() {
                assert(front[k] == entry);
                let i = choose|i: int|
                    0 <= i < shorter.len() && file_makes(files[#[trigger] shorter[i]], info, entry);
                assert(order[i] == shorter[i]);
            } else {
                assert(own[k - front.len()] == entry);
                assert(file_makes(files[order[order.len() - 1]], info, entry));
            }
        }
        if exists|i: int|
            0 <= i < order.len() && file_makes(files[#[trigger] order[i]], info, entry) {
            let i = choose|i: int|
                0 <= i < order.len() && file_makes(files[#[trigger] order[i]], info, entry);
            if i < shorter.len() {
                assert(shorter[i] == order[i]);
                let k = choose|k: int| 0 <= k < front.len() && front[k] == entry;
                assert(all[k] == entry);
            } else {
                let k = choose|k: int| 0 <= k < own.len() && own[k] == entry;
                assert(all[front.len() + k] == entry);
            }
        }
    }
}

/// The rules kept ready make the entries that a line of a readable rules file
/// makes, and no others.
pub proof fn rules_kept_ready_make_all_entries(
    files: Seq<ConfFile>,
    info: ElfInfo,
    entry: EntryView,
)
    ensures
        crate::qemu::kept_ready(files, info).contains(entry) <==> exists|n: int|
            0 <= n < files.len() && file_makes(#[trigger] files[n], info, entry),
{
    let keys = crate::qemu::conf_names(files);
    let order = crate::order::sorted(keys);
    crate::order::sorting_sorts(keys, keys.len());
    lemma_ordered_entries(files, order, info, entry);
    if exists|n: int| 0 <= n < files.len() && file_makes(#[trigger] files[n], info, entry) {
        let n = choose|n: int| 0 <= n < files.len() && file_makes(#[trigger] files[n], info, entry);
        assert(order.contains(n));
        let i = choose|i: int| 0 <= i < order.len() && order[i] == n;
        assert(file_makes(files[order[i]], info, entry));
    }
    if exists|i: int| 0 <= i < order.len() && file_makes(files[#[trigger] order[i]], info, entry) {
        let i = choose|i: int|
            0 <= i < order.len() && file_makes(files[#[trigger] order[i]], info, entry);
        assert(file_makes(files[order[i]], info, entry));
    }
}

/// A file is read line by line: each line adds the entry that it makes behind
/// those before it. A file that is no rules file, or cannot be read, makes none.
pub proof fn files_are_read_line_by_line(
    lines: Seq<Seq<char>>,
    line: Seq<char>,
    file: ConfFile,
    info: ElfInfo,
)
    ensures
        crate::qemu::line_entries(Seq::empty(), info).len() == 0,
        crate::qemu::conf_entry(line, info) is Some ==> crate::qemu::line_entries(
            lines.push(line),
            info,
        ) == crate::qemu::line_entries(lines, info).push(crate::qemu::conf_entry(line, info)->0),
        crate::qemu::conf_entry(line, info) is None ==> crate::qemu::line_entries(
            lines.push(line),
            info,
        ) == crate::qemu::line_entries(lines, info),
        crate::qemu::is_conf_name(file.name@) && file.text is Some ==> crate::qemu::file_entries(
            file,
            info,
        ) == crate::qemu::line_entries(crate::text::lines(file.text->0@), info),
        !crate::qemu::is_conf_name(file.name@) || file.text is None ==> crate::qemu::file_entries(
            file,
            info,
        ).len() == 0,
{
    assert(lines.push(line).drop_last() =~= lines);
    assert(crate::qemu::line_entries(lines.push(line), info) =~= crate::qemu::line_entries(
        lines,
        info,
    ) + crate::qemu::as_list(crate::qemu::conf_entry(line, info)));
    if crate::qemu::conf_entry(line, info) is Some {
        assert(crate::qemu::line_entries(lines.push(line), info) =~= crate::qemu::line_entries(
            lines,
            info,
        ).push(crate::qemu::conf_entry(line, info)->0));
    } else {
        assert(crate::qemu::line_entries(lines.push(line), info) =~= crate::qemu::line_entries(
            lines,
            info,
        ));
    }
}

/// Places of the first files do not depend on a file behind them.
proof fn lemma_ordered_prefix(
    files: Seq<ConfFile>,
    file: ConfFile,
    order: Seq<int>,
    info: ElfInfo,
)
    requires
        forall|i: int| 0 <= i < order.len() ==> 0 <= #[trigger] order[i] < files.len(),
    ensures
        crate::qemu::ordered_entries(files.push(file), order, info)
            == crate::qemu::ordered_entries(files, order, info),
    decreases order.len(),
{
    if order.len() > 0 {
        let shorter = order.drop_last();
        assert(0 <= order[order.len() - 1] < files.len());
        assert forall|i: int| 0 <= i < shorter.len() implies 0 <= #[trigger] shorter[i]
            < files.len() by {
            assert(shorter[i] == order[i]);
        }
        lemma_ordered_prefix(files, file, shorter, info);
    }
}

/// The file whose name comes last comes last: what it makes stands behind what
/// all others make.
pub proof fn the_last_name_comes_last(files: Seq<ConfFile>, file: ConfFile, info: ElfInfo)
    requires
        forall|i: int|
            0 <= i < files.len() ==> crate::order::le((#[trigger] files[i]).name@, file.name@),
    ensures
        crate::qemu::kept_ready(files.push(file), info) == crate::qemu::kept_ready(files, info)
            + crate::qemu::file_entries(file, info),
        crate::qemu::kept_ready(Seq::empty(), info).len() == 0,
{
    let keys = crate::qemu::conf_names(files);
    let more = crate::qemu::conf_names(files.push(file));
    assert(more =~= keys.push(file.name@));
    crate::order::sorting_sorts(keys, keys.len());
    crate::order::lemma_sorted_prefix(keys, file.name@, keys.len());
    let order = crate::order::sorted(keys);
    let all = crate::order::sorted(more);
    if order.len() > 0 {
        let last = order[order.len() - 1];
        assert(0 <= last < keys.len());
        assert(more[last] == files[last].name@);
    }
    assert(crate::order::place(more, order, file.name@) == order.len());
    assert(all =~= order.push(keys.len() as int));
    assert(all.drop_last() =~= order);
    lemma_ordered_prefix(files, file, order, info);
    assert(crate::qemu::conf_names(Seq::empty()) =~= Seq::<Seq<u8>>::empty());
}

/// The first candidate whose interpreter is there is taken.
proof fn lemma_first_present_is(candidates: Seq<Candidate>, i: int)
    requires
        forall|k: int| 0 <= k < candidates.len() && k < i ==> !(#[trigger] candidates[k]).present,
        0 <= i <= candidates.len(),
        i < candidates.len() ==> candidates[i].present,
    ensures
        i < candidates.len() ==> crate::qemu::first_present(candidates) == Some(
            candidates[i].entry@,
        ),
        i == candidates.len() ==> crate::qemu::first_present(candidates) is None,
    decreases candidates.len(),
{
    if i > 0 {
        let rest = candidates.drop_first();
        assert(!candidates[0].present);
        assert forall|k: int| 0 <= k < rest.len() && k < i - 1 implies !(
        #[trigger] rest[k]).present by {
            assert(rest[k] == candidates[k + 1]);
        }
        lemma_first_present_is(rest, i - 1);
    }
}

/// A candidate that is there and has one of some names.
pub open spec fn is_named(candidate: Candidate, names: Seq<Seq<char>>) -> bool {
    candidate.present && names.contains(candidate.entry@.name)
}

/// The first candidate that is there and has one of some names is taken.
proof fn lemma_first_named_is(candidates: Seq<Candidate>, names: Seq<Seq<char>>, i: int)
    requires
        0 <= i <= candidates.len(),
        forall|k: int| 0 <= k < i ==> !is_named(#[trigger] candidates[k], names),
        i < candidates.len() ==> is_named(candidates[i], names),
    ensures
        i < candidates.len() ==> crate::qemu::first_named(candidates, names) == Some(
            candidates[i].entry@,
        ),
        i == candidates.len() ==> crate::qemu::first_named(candidates, names) is None,
    decreases candidates.len(),
{
    if i > 0 {
        let rest = candidates.drop_first();
        assert(!is_named(candidates[0], names));
        assert forall|k: int| 0 <= k < i - 1 implies !is_named(#[trigger] rest[k], names) by {
            assert(rest[k] == candidates[k + 1]);
        }
        lemma_first_named_is(rest, names, i - 1);
    }
}

/// The registry in sight, or the host's where none is, comes before all else,
/// and its first entry whose interpreter is there is taken.
pub proof fn the_registry_comes_first(
    info: ElfInfo,
    registry: Seq<Candidate>,
    other: Seq<Candidate>,
    alternatives: Seq<Candidate>,
    i: int,
)
    requires
        0 <= i < registry.len(),
        registry[i].present,
        forall|k: int| 0 <= k < i ==> !(#[trigger] registry[k]).present,
    ensures
        crate::qemu::chosen(info, true, registry, other, alternatives) == Some(
            registry[i].entry@,
        ),
        crate::qemu::chosen(info, false, other, registry, alternatives) == Some(
            registry[i].entry@,
        ),
{
    lemma_first_present_is(registry, i);
}

/// Where the registry has nothing, the rules kept ready are gone through: the
/// first that is there under the qemu name of the machine is taken; where none
/// is, the first that is there; and where none is there, nothing.
pub proof fn then_the_rules_kept_ready(
    info: ElfInfo,
    registry: Seq<Candidate>,
    other: Seq<Candidate>,
    ready: Seq<Candidate>,
    named: int,
    first: int,
)
    requires
        forall|k: int| 0 <= k < registry.len() ==> !(#[trigger] registry[k]).present,
        0 <= named <= ready.len(),
        forall|k: int|
            0 <= k < named ==> !is_named(
                #[trigger] ready[k],
                crate::qemu::entry_names_for(info),
            ),
        named < ready.len() ==> is_named(ready[named], crate::qemu::entry_names_for(info)),
        0 <= first <= ready.len(),
        forall|k: int| 0 <= k < first ==> !(#[trigger] ready[k]).present,
        first < ready.len() ==> ready[first].present,
    ensures
        ({
            let found = if named < ready.len() {
                Some(ready[named].entry@)
            } else if first < ready.len() {
                Some(ready[first].entry@)
            } else {
                None
            };
            &&& crate::qemu::chosen(info, true, registry, other, ready) == found
            &&& crate::qemu::chosen(info, false, other, registry, ready) == found
        }),
{
    lemma_first_present_is(registry, registry.len() as int);
    lemma_first_named_is(ready, crate::qemu::entry_names_for(info), named);
    lemma_first_present_is(ready, first);
}

/// Our own entries are those that are called `aosc-exec-guard-` and something,
/// and all of them are listed.
pub proof fn own_entries_are_told_by_name(
    names: Seq<Seq<char>>,
    rest: Seq<char>,
    name: Seq<char>,
)
    ensures
        crate::qemu::is_own("aosc-exec-guard-"@ + rest),
        crate::qemu::is_own(name) ==> exists|r: Seq<char>|
            name == #[trigger] ("aosc-exec-guard-"@ + r),
        crate::qemu::own_names(names).contains(name) <==> names.contains(name)
            && crate::qemu::is_own(name),
{
    crate::laws::text::prefixes_come_first("aosc-exec-guard-"@, rest, name);
    crate::qemu::all_names_are_listed(names, "aosc-exec-guard-"@, name);
}

/// A file of the registry is enabled exactly where its first line is the word,
/// and nothing else.
pub proof fn enabled_files_say_so_first(file: RegistryFile, rest: Seq<char>)
    requires
        file.text is Some,
    ensures
        file.text->0@ == "enabled"@.push('\n') + rest ==> crate::qemu::is_enabled(file),
        file.text->0@ == "disabled"@.push('\n') + rest ==> !crate::qemu::is_enabled(file),
        crate::qemu::is_enabled(file) <==> crate::text::lines(file.text->0@).len() > 0
            && crate::text::lines(file.text->0@)[0] == "enabled"@,
{
    reveal_strlit("enabled");
    reveal_strlit("disabled");
    assert("enabled"@.len() == 7 && "disabled"@.len() == 8);
    assert(crate::laws::text::is_free_of("enabled"@, '\n'));
    assert(crate::laws::text::is_free_of("disabled"@, '\n'));
    crate::laws::text::lines_end_with_line_feeds("enabled"@, rest);
    crate::laws::text::lines_end_with_line_feeds("disabled"@, rest);
}

/// A pinned registry is seen where it exists, and the real one where its
/// `register` is.
pub proof fn registries_are_seen_by_their_files(dir_exists: bool, register_exists: bool)
    ensures
        crate::qemu::in_sight(true, dir_exists, register_exists) == dir_exists,
        crate::qemu::in_sight(false, dir_exists, register_exists) == register_exists,
{
}

/// What is pinned is where it is pinned, whatever the usual place.
pub proof fn pinned_places_are_taken(place: Seq<u8>, usual: Seq<char>)
    ensures
        crate::qemu::place_of(Some(place), usual) == place,
        crate::qemu::place_of(None, usual) == crate::paths::bytes(usual),
{
}

/// The host's registry is reached below the host's root.
pub proof fn the_host_registry_is_below_its_root()
    ensures
        crate::qemu::host_registry() == crate::paths::bytes("/proc/1/root"@) + seq![0x2fu8]
            + crate::paths::bytes("proc/sys/fs/binfmt_misc"@),
{
    reveal_strlit("/proc/1/root");
    reveal_strlit("proc/sys/fs/binfmt_misc");
    crate::paths::lemma_ascii_bytes("/proc/1/root"@);
    crate::paths::lemma_ascii_bytes("proc/sys/fs/binfmt_misc"@);
    let root = crate::paths::bytes("/proc/1/root"@);
    let part = crate::paths::bytes("proc/sys/fs/binfmt_misc"@);
    assert(root.last() == "/proc/1/root"@[11] as u8);
    assert(part[0] == "proc/sys/fs/binfmt_misc"@[0] as u8);
    crate::laws::text::paths_are_joined_by_a_slash(root, part);
}

/// The interpreter of the entry is what is called, whatever it is called with.
pub proof fn the_interpreter_is_called(
    entry: EntryView,
    target: Seq<u8>,
    program_args: Seq<Seq<u8>>,
)
    ensures
        crate::qemu::call_of(entry, target, program_args).0 == entry.interpreter,
        crate::qemu::call_of(entry, target, program_args).1 == crate::qemu::emulator_args(
            entry.flags,
            target,
            program_args,
        ),
{
}

} // verus!
