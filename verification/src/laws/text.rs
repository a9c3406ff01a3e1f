//! Of text, paths and their order.

use vstd::prelude::*;

verus! {

/// All of `s` is white space.
pub open spec fn is_blank(s: Seq<char>) -> bool {
    forall|i: int| 0 <= i < s.len() ==> crate::text::white_space(#[trigger] s[i])
}

/// `s` neither starts nor ends with white space.
pub open spec fn is_tight(s: Seq<char>) -> bool {
    s.len() > 0 ==> !crate::text::white_space(s[0]) && !crate::text::white_space(s.last())
}

/// `c` stands nowhere in `s`.
pub open spec fn is_free_of(s: Seq<char>, c: char) -> bool {
    forall|i: int| 0 <= i < s.len() ==> #[trigger] s[i] != c
}

/// Trimming at the front goes on behind blanks.
proof fn lemma_trimmed_start(a: Seq<char>, s: Seq<char>)
    requires
        is_blank(a),
    ensures
        crate::text::trimmed_start(a + s) == crate::text::trimmed_start(s),
    decreases a.len(),
{
    if a.len() > 0 {
        assert(crate::text::white_space(a[0]));
        assert((a + s).drop_first() =~= a.drop_first() + s);
        assert(is_blank(a.drop_first())) by {
            assert forall|i: int| 0 <= i < a.drop_first().len() implies crate::text::white_space(
                #[trigger] a.drop_first()[i],
            ) by {
                assert(a.drop_first()[i] == a[i + 1]);
            }
        }
        lemma_trimmed_start(a.drop_first(), s);
    } else {
        assert(a + s =~= s);
    }
}

/// Trimming at the back goes on before blanks.
proof fn lemma_trimmed_end(s: Seq<char>, b: Seq<char>)
    requires
        is_blank(b),
    ensures
        crate::text::trimmed_end(s + b) == crate::text::trimmed_end(s),
    decreases b.len(),
{
    if b.len() > 0 {
        assert(crate::text::white_space(b[b.len() - 1]));
        assert((s + b).last() == b[b.len() - 1]);
        assert((s + b).drop_last() =~= s + b.drop_last());
        assert(is_blank(b.drop_last())) by {
            assert forall|i: int| 0 <= i < b.drop_last().len() implies crate::text::white_space(
                #[trigger] b.drop_last()[i],
            ) by {
                assert(b.drop_last()[i] == b[i]);
            }
        }
        lemma_trimmed_end(s, b.drop_last());
    } else {
        assert(s + b =~= s);
    }
}

/// Trimming takes the white space off the two ends, all of it and nothing else.
pub proof fn trimming_takes_the_ends_off(a: Seq<char>, middle: Seq<char>, b: Seq<char>)
    requires
        is_blank(a),
        is_tight(middle),
        is_blank(b),
    ensures
        crate::text::trimmed(a + middle + b) == middle,
{
    let none = Seq::<char>::empty();
    assert(a + middle + b =~= a + (middle + b));
    lemma_trimmed_start(a, middle + b);
    if middle.len() > 0 {
        assert((middle + b)[0] == middle[0]);
        assert(crate::text::trimmed_start(middle + b) == middle + b);
        lemma_trimmed_end(middle, b);
    } else {
        assert(middle + b =~= b + none);
        lemma_trimmed_start(b, none);
    }
}

/// The first of a character cuts a text in two; without any, all of it is
/// before.
pub proof fn text_is_cut_at_the_first(a: Seq<char>, c: char, b: Seq<char>)
    requires
        is_free_of(a, c),
    ensures
        crate::text::before(a.push(c) + b, c) == a,
        crate::text::after(a.push(c) + b, c) == b,
        crate::text::position(a.push(c) + b, c) == a.len(),
        crate::text::before(a, c) == a,
        crate::text::after(a, c).len() == 0,
        crate::text::position(a, c) == a.len(),
{
    let s = a.push(c) + b;
    crate::text::lemma_position_is(s, c, a.len() as int);
    crate::text::lemma_position_is(a, c, a.len() as int);
    assert(crate::text::before(s, c) =~= a);
    assert(crate::text::after(s, c) =~= b);
    assert(crate::text::before(a, c) =~= a);
}

/// A line ends with a line feed, before which one carriage return does not
/// count; what follows is read on; and the last line may do without.
pub proof fn lines_end_with_line_feeds(line: Seq<char>, rest: Seq<char>)
    requires
        is_free_of(line, '\n'),
    ensures
        crate::text::lines(line.push('\r').push('\n') + rest) == seq![line] + crate::text::lines(
            rest,
        ),
        line.len() == 0 || line.last() != '\r' ==> crate::text::lines(line.push('\n') + rest)
            == seq![line] + crate::text::lines(rest),
        line.len() > 0 ==> crate::text::lines(line) == seq![line],
        crate::text::lines(Seq::empty()).len() == 0,
{
    crate::text::lemma_lines_of_line(line, rest);
    let returned = line.push('\r');
    assert(is_free_of(returned, '\n'));
    crate::text::lemma_lines_of_line(returned, rest);
    assert(returned.drop_last() =~= line);
    crate::text::lemma_position_is(line, '\n', line.len() as int);
}

/// Fields are what is between the separators, the last one keeping what is
/// left where no more are asked for.
pub proof fn fields_are_between_separators(a: Seq<char>, c: char, b: Seq<char>, n: nat)
    requires
        is_free_of(a, c),
        n >= 1,
    ensures
        crate::text::fields(a, c, n) == seq![a],
        crate::text::fields(a.push(c) + b, c, 1) == seq![a.push(c) + b],
        crate::text::fields(a.push(c) + b, c, n + 1) == seq![a] + crate::text::fields(b, c, n),
{
    text_is_cut_at_the_first(a, c, b);
}

/// A text starts with a prefix exactly where it is the prefix and a rest.
pub proof fn prefixes_come_first(prefix: Seq<char>, rest: Seq<char>, s: Seq<char>)
    ensures
        crate::text::has_prefix(prefix + rest, prefix),
        crate::text::has_prefix(s, prefix) ==> exists|r: Seq<char>| s == #[trigger] (prefix + r),
{
    assert((prefix + rest).take(prefix.len() as int) =~= prefix);
    if crate::text::has_prefix(s, prefix) {
        let r = s.skip(prefix.len() as int);
        assert(s =~= prefix + r);
    }
}

/// A text holds a part exactly where it is something, the part, and something.
pub proof fn parts_stand_between(a: Seq<char>, part: Seq<char>, b: Seq<char>, s: Seq<char>)
    ensures
        crate::text::has_part(a + part + b, part),
        crate::text::has_part(s, part) ==> exists|x: Seq<char>, y: Seq<char>|
            s == #[trigger] (x + part + y),
{
    let all = a + part + b;
    assert(all.subrange(a.len() as int, (a.len() + part.len()) as int) =~= part);
    assert(crate::text::stands_at(all, part, a.len() as int));
    if crate::text::has_part(s, part) {
        let at = choose|at: int| crate::text::stands_at(s, part, at);
        let x = s.take(at);
        let y = s.skip(at + part.len());
        assert(s =~= x + part + y) by {
            assert(s.subrange(at, at + part.len()) == part);
            assert forall|i: int| 0 <= i < s.len() implies s[i] == (x + part + y)[i] by {
                if at <= i < at + part.len() {
                    assert(s.subrange(at, at + part.len())[i - at] == s[i]);
                }
            }
        }
    }
}

/// Lower case changes the capital letters of ASCII, each to the letter 32
/// places on, and nothing else.
pub proof fn capitals_are_lowered(s: Seq<char>, i: int)
    requires
        0 <= i < s.len(),
    ensures
        crate::text::lowered(s).len() == s.len(),
        65 <= s[i] as int <= 90 ==> crate::text::lowered(s)[i] as int == s[i] as int + 32,
        !(65 <= s[i] as int <= 90) ==> crate::text::lowered(s)[i] == s[i],
{
}

/// What the last of `digits` stands for, and `base` times what is before it.
pub open spec fn value(digits: Seq<char>, base: nat) -> int
    decreases digits.len(),
{
    if digits.len() == 0 {
        0
    } else {
        base * value(digits.drop_last(), base) + (if digits.last() <= '9' {
            digits.last() as int - 48
        } else {
            digits.last() as int - 87
        })
    }
}

/// A number is written so that it can be read back, and without leading zeros.
pub proof fn numerals_are_read_back(n: nat, base: nat)
    requires
        2 <= base <= 16,
    ensures
        value(crate::text::numeral(n, base), base) == n,
        crate::text::numeral(n, base).len() > 0,
        n > 0 ==> crate::text::numeral(n, base)[0] != '0',
        n < base ==> crate::text::numeral(n, base).len() == 1,
    decreases n,
{
    let s = crate::text::numeral(n, base);
    reveal_with_fuel(value, 2);
    if n >= base {
        assert(n / base < n && n / base >= 1 && n % base < base && base * (n / base) + n % base
            == n) by (nonlinear_arith)
            requires
                n >= base,
                base >= 2,
        ;
        numerals_are_read_back(n / base, base);
        let front = crate::text::numeral(n / base, base);
        assert(s.drop_last() =~= front);
        assert(s[0] == front[0]);
    } else {
        assert(s.drop_last() =~= Seq::<char>::empty());
        assert(base * 0 == 0) by (nonlinear_arith);
    }
}

/// A relative path is put behind a directory, with one slash between where the
/// directory does not end with one; an absolute one stands alone.
pub proof fn paths_are_joined_by_a_slash(base: Seq<u8>, part: Seq<u8>)
    ensures
        part.len() > 0 && part[0] == 0x2f ==> crate::paths::joined(base, part) == part,
        (part.len() == 0 || part[0] != 0x2f) && base.len() > 0 && base.last() != 0x2f
            ==> crate::paths::joined(base, part) == base + seq![0x2fu8] + part,
        (part.len() == 0 || part[0] != 0x2f) && (base.len() == 0 || base.last() == 0x2f)
            ==> crate::paths::joined(base, part) == base + part,
{
    assert(base.push(0x2f) + part =~= base + seq![0x2fu8] + part);
}

/// A file is renamed in its directory; a path without a file name gets the new
/// name behind it.
pub proof fn renaming_replaces_the_name(path: Seq<u8>, name: Seq<u8>)
    ensures
        crate::paths::file_name(path) is Some ==> crate::paths::renamed(path, name)
            == crate::paths::joined(crate::paths::parent(path), name),
        crate::paths::file_name(path) is None ==> crate::paths::renamed(path, name)
            == crate::paths::joined(path, name),
{
}

/// The name of a file, and its directory, are what the path was made of.
pub proof fn paths_fall_into_directory_and_name(dir: Seq<u8>, name: Seq<u8>)
    requires
        dir.len() > 0,
        dir[0] != 0x2e && dir.last() != 0x2f && dir.last() != 0x2e,
        name.len() > 0,
        name[0] != 0x2e,
        forall|i: int| 0 <= i < name.len() ==> #[trigger] name[i] != 0x2f,
    ensures
        crate::paths::file_name(dir + seq![0x2fu8] + name) == Some(name),
        crate::paths::parent(dir + seq![0x2fu8] + name) == dir,
{
    crate::paths::lemma_tidy_end(dir);
    assert(seq![0x2eu8][0] == 0x2e && seq![0x2eu8, 0x2eu8][0] == 0x2e);
    assert(crate::paths::is_plain(name));
    paths_are_joined_by_a_slash(dir, name);
    crate::paths::lemma_join_tidy(dir, name);
}

/// What an absolute path says from the root on is the path without its first
/// slash; a relative path says nothing.
pub proof fn the_root_is_taken_off(path: Seq<u8>, rest: Seq<u8>)
    requires
        rest.len() > 0,
        rest[0] != 0x2f && rest[0] != 0x2e,
        rest.last() != 0x2f && rest.last() != 0x2e,
    ensures
        crate::paths::below_root(path) is Some <==> path.len() > 0 && path[0] == 0x2f,
        crate::paths::below_root(seq![0x2fu8] + rest) == Some(rest),
{
    let p = seq![0x2fu8] + rest;
    assert(p.skip(1) =~= rest);
    crate::paths::lemma_ends_stay(rest);
}

/// Names are ordered by the first byte in which they differ, and a name comes
/// before those that go on.
pub proof fn the_first_difference_decides(p: Seq<u8>, x: u8, a: Seq<u8>, y: u8, b: Seq<u8>)
    requires
        x < y,
    ensures
        crate::order::le(p.push(x) + a, p.push(y) + b),
        !crate::order::le(p.push(y) + b, p.push(x) + a),
        crate::order::le(p, p + a),
        crate::order::le(p + a, p) <==> a.len() == 0,
    decreases p.len(),
{
    let s = p.push(x) + a;
    let t = p.push(y) + b;
    if p.len() > 0 {
        let q = p.drop_first();
        assert(s.drop_first() =~= q.push(x) + a);
        assert(t.drop_first() =~= q.push(y) + b);
        assert((p + a).drop_first() =~= q + a);
        assert((p + a)[0] == p[0]);
        the_first_difference_decides(q, x, a, y, b);
    } else {
        assert(s[0] == x && t[0] == y);
        assert(p + a =~= a);
    }
}

} // verus!
