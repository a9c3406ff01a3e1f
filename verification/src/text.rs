//! Text as sequences of characters.
//!
//! The parsers of this crate read text one character at a time: a `&str` is
//! turned into its characters once ([`chars_of`]), the work is done on slices
//! of them, and what is kept becomes a `String` again ([`string_of`]).

use vstd::prelude::*;
use vstd::slice::slice_subrange;
use vstd::string::*;

verus! {

/// `String::push` appends one character to the end of the string.
pub assume_specification[ String::push ](s: &mut String, ch: char)
    ensures
        final(s)@ == old(s)@.push(ch),
;

/// The characters with Unicode's `White_Space` property.
pub open spec fn white_space(c: char) -> bool {
    ||| '\u{9}' <= c <= '\u{d}'
    ||| c == ' '
    ||| c == '\u{85}'
    ||| c == '\u{a0}'
    ||| c == '\u{1680}'
    ||| '\u{2000}' <= c <= '\u{200a}'
    ||| c == '\u{2028}'
    ||| c == '\u{2029}'
    ||| c == '\u{202f}'
    ||| c == '\u{205f}'
    ||| c == '\u{3000}'
}

/// `s` without the white space it starts with.
pub open spec fn trimmed_start(s: Seq<char>) -> Seq<char>
    decreases s.len(),
{
    if s.len() > 0 && white_space(s[0]) {
        trimmed_start(s.drop_first())
    } else {
        s
    }
}

/// `s` without the white space it ends with.
pub open spec fn trimmed_end(s: Seq<char>) -> Seq<char>
    decreases s.len(),
{
    if s.len() > 0 && white_space(s.last()) {
        trimmed_end(s.drop_last())
    } else {
        s
    }
}

/// `s` without the white space at its two ends.
pub open spec fn trimmed(s: Seq<char>) -> Seq<char> {
    trimmed_end(trimmed_start(s))
}

/// Where `c` first stands in `s`; the length of `s` if it stands nowhere.
pub open spec fn position(s: Seq<char>, c: char) -> int
    decreases s.len(),
{
    if s.len() == 0 || s[0] == c {
        0
    } else {
        1 + position(s.drop_first(), c)
    }
}

/// What stands before the first `c` (all of `s` if there is none).
pub open spec fn before(s: Seq<char>, c: char) -> Seq<char> {
    s.take(position(s, c))
}

/// What stands after the first `c` (nothing if there is none).
pub open spec fn after(s: Seq<char>, c: char) -> Seq<char> {
    if position(s, c) < s.len() {
        s.skip(position(s, c) + 1)
    } else {
        Seq::empty()
    }
}

/// `s` without the carriage return it ends with, if it does.
pub open spec fn without_return(s: Seq<char>) -> Seq<char> {
    if s.len() > 0 && s.last() == '\r' {
        s.drop_last()
    } else {
        s
    }
}

/// The lines of `s`: a line ends with a line feed, or with a carriage return
/// and a line feed, and the last one may do without.
pub open spec fn lines(s: Seq<char>) -> Seq<Seq<char>>
    decreases s.len(),
    via lines_shrinks
{
    if s.len() == 0 {
        Seq::empty()
    } else if position(s, '\n') == s.len() {
        seq![s]
    } else {
        seq![without_return(before(s, '\n'))] + lines(after(s, '\n'))
    }
}

#[via_fn]
proof fn lines_shrinks(s: Seq<char>) {
    lemma_position(s, '\n');
}

/// `s` cut at each `c`, into `n` pieces at most: the last piece keeps what is left.
pub open spec fn fields(s: Seq<char>, c: char, n: nat) -> Seq<Seq<char>>
    decreases n,
{
    if n <= 1 || position(s, c) == s.len() {
        seq![s]
    } else {
        seq![before(s, c)] + fields(after(s, c), c, (n - 1) as nat)
    }
}

/// `s` starts with `prefix`.
pub open spec fn has_prefix(s: Seq<char>, prefix: Seq<char>) -> bool {
    prefix.len() <= s.len() && s.take(prefix.len() as int) == prefix
}

/// `part` stands in `s` at `at`.
pub open spec fn stands_at(s: Seq<char>, part: Seq<char>, at: int) -> bool {
    0 <= at && at + part.len() <= s.len() && s.subrange(at, at + part.len()) == part
}

/// `part` stands somewhere in `s`.
pub open spec fn has_part(s: Seq<char>, part: Seq<char>) -> bool {
    exists|at: int| stands_at(s, part, at)
}

/// `c` in lower case, where it is an ASCII letter.
pub open spec fn lower(c: char) -> char {
    if 'A' <= c <= 'Z' {
        (c as u8 + 32) as u8 as char
    } else {
        c
    }
}

/// `s` with its ASCII letters in lower case.
pub open spec fn lowered(s: Seq<char>) -> Seq<char> {
    s.map_values(|c: char| lower(c))
}

/// The character that stands for the digit `d`, up to 15.
pub open spec fn digit_char(d: nat) -> char {
    if d < 10 {
        (d + 48) as u8 as char
    } else {
        (d + 87) as u8 as char
    }
}

/// What the hexadecimal digit `c` stands for, in either case.
pub open spec fn hex_value(c: char) -> Option<u8> {
    if '0' <= c <= '9' {
        Some((c as u8 - 48) as u8)
    } else if 'a' <= c <= 'f' {
        Some((c as u8 - 87) as u8)
    } else if 'A' <= c <= 'F' {
        Some((c as u8 - 55) as u8)
    } else {
        None
    }
}

/// `n` written in `base`, without leading zeros.
pub open spec fn numeral(n: nat, base: nat) -> Seq<char>
    decreases n,
{
    if base < 2 || n < base {
        seq![digit_char(n)]
    } else {
        proof {
            assert(n / base < n) by (nonlinear_arith)
                requires
                    n >= base,
                    base >= 2,
            ;
        }
        numeral(n / base, base).push(digit_char(n % base))
    }
}

/// The characters of each of a list of slices.
pub open spec fn views(list: Seq<&[char]>) -> Seq<Seq<char>> {
    list.map_values(|s: &[char]| s@)
}

/// The first place of a character: it is in bounds, the character is there if
/// it is anywhere, and nowhere before.
pub proof fn lemma_position(s: Seq<char>, c: char)
    ensures
        0 <= position(s, c) <= s.len(),
        position(s, c) < s.len() ==> s[position(s, c)] == c,
        forall|i: int| 0 <= i < position(s, c) ==> s[i] != c,
    decreases s.len(),
{
    if s.len() > 0 && s[0] != c {
        lemma_position(s.drop_first(), c);
        assert forall|i: int| 0 <= i < position(s, c) implies s[i] != c by {
            if i > 0 {
                assert(s[i] == s.drop_first()[i - 1]);
            }
        }
    }
}

/// A place that holds a character, with none before it, is the first.
pub proof fn lemma_position_is(s: Seq<char>, c: char, at: int)
    requires
        0 <= at <= s.len(),
        at < s.len() ==> s[at] == c,
        forall|i: int| 0 <= i < at ==> s[i] != c,
    ensures
        position(s, c) == at,
{
    lemma_position(s, c);
    if position(s, c) < at {
        assert(s[position(s, c)] != c);
    }
    if at < position(s, c) {
        assert(s[at] == c);
    }
}

/// A line, its end, and what follows are read as that line and the lines of
/// what follows.
pub proof fn lemma_lines_of_line(line: Seq<char>, rest: Seq<char>)
    requires
        forall|i: int| 0 <= i < line.len() ==> line[i] != '\n',
    ensures
        lines(line.push('\n') + rest) == seq![without_return(line)] + lines(rest),
{
    let s = line.push('\n') + rest;
    lemma_position_is(s, '\n', line.len() as int);
    assert(before(s, '\n') =~= line);
    assert(after(s, '\n') =~= rest);
}

/// There is nothing to trim where neither end is white space.
pub proof fn lemma_trimmed_tight(s: Seq<char>)
    requires
        s.len() > 0,
        !white_space(s[0]),
        !white_space(s.last()),
    ensures
        trimmed(s) == s,
{
}

/// There is a first piece, and there are no more pieces than asked for.
pub proof fn lemma_fields_len(s: Seq<char>, c: char, n: nat)
    ensures
        1 <= fields(s, c, n).len(),
        n >= 1 ==> fields(s, c, n).len() <= n,
    decreases n,
{
    if n > 1 && position(s, c) != s.len() {
        lemma_fields_len(after(s, c), c, (n - 1) as nat);
    }
}

/// The characters of `s`, in order.
pub fn chars_of(s: &str) -> (r: Vec<char>)
    ensures
        r@ == s@,
{
    let mut r: Vec<char> = Vec::new();
    for c in it: s.chars()
        invariant
            r@ == it.seq().take(it.index()),
            it.seq() == s@,
    {
        proof {
            assert(it.seq().take(it.index() + 1) =~= it.seq().take(it.index()).push(
                it.seq()[it.index()],
            ));
        }
        r.push(c);
    }
    proof {
        assert(s@.take(s@.len() as int) =~= s@);
    }
    r
}

/// The string made of `chars`.
pub fn string_of(chars: &[char]) -> (r: String)
    ensures
        r@ == chars@,
{
    let mut r = String::new();
    let mut i: usize = 0;
    while i < chars.len()
        invariant
            i <= chars.len(),
            r@ == chars@.take(i as int),
        decreases chars.len() - i,
    {
        proof {
            assert(chars@.take(i + 1) =~= chars@.take(i as int).push(chars@[i as int]));
        }
        r.push(chars[i]);
        i += 1;
    }
    proof {
        assert(chars@.take(chars@.len() as int) =~= chars@);
    }
    r
}

/// Whether the two hold the same characters.
pub fn same(a: &[char], b: &[char]) -> (r: bool)
    ensures
        r == (a@ == b@),
{
    if a.len() != b.len() {
        return false;
    }
    let mut i: usize = 0;
    while i < a.len()
        invariant
            i <= a.len(),
            a.len() == b.len(),
            forall|j: int| 0 <= j < i ==> a@[j] == b@[j],
        decreases a.len() - i,
    {
        if a[i] != b[i] {
            return false;
        }
        i += 1;
    }
    proof {
        assert(a@ =~= b@);
    }
    true
}

/// Whether `chars` are those of `text`.
pub fn reads(chars: &[char], text: &str) -> (r: bool)
    ensures
        r == (chars@ == text@),
{
    same(chars, chars_of(text).as_slice())
}

/// Whether the two strings hold the same characters.
pub fn same_str(a: &str, b: &str) -> (r: bool)
    ensures
        r == (a@ == b@),
{
    same(chars_of(a).as_slice(), chars_of(b).as_slice())
}

/// Whether `c` is white space.
pub fn is_white(c: char) -> (r: bool)
    ensures
        r == white_space(c),
{
    ('\u{9}' <= c && c <= '\u{d}') || c == ' ' || c == '\u{85}' || c == '\u{a0}' || c == '\u{1680}'
        || ('\u{2000}' <= c && c <= '\u{200a}') || c == '\u{2028}' || c == '\u{2029}' || c
        == '\u{202f}' || c == '\u{205f}' || c == '\u{3000}'
}

/// `s` without the white space at its two ends.
pub fn trim(s: &[char]) -> (r: &[char])
    ensures
        r@ == trimmed(s@),
{
    let mut from: usize = 0;
    proof {
        assert(s@.skip(0) =~= s@);
    }
    while from < s.len() && is_white(s[from])
        invariant
            from <= s.len(),
            trimmed_start(s@.skip(from as int)) == trimmed_start(s@),
        decreases s.len() - from,
    {
        proof {
            assert(s@.skip(from as int).drop_first() =~= s@.skip(from + 1));
        }
        from += 1;
    }
    let mut to: usize = s.len();
    proof {
        assert(trimmed_start(s@) == s@.skip(from as int));
        assert(s@.subrange(from as int, to as int) =~= s@.skip(from as int));
    }
    while from < to && is_white(s[to - 1])
        invariant
            from <= to <= s.len(),
            trimmed_end(s@.subrange(from as int, to as int)) == trimmed(s@),
        decreases to - from,
    {
        proof {
            assert(s@.subrange(from as int, to as int).drop_last() =~= s@.subrange(
                from as int,
                to - 1,
            ));
        }
        to -= 1;
    }
    slice_subrange(s, from, to)
}

/// Where `c` first stands in `s`.
pub fn find(s: &[char], c: char) -> (r: usize)
    ensures
        r == position(s@, c),
        r <= s.len(),
{
    let mut i: usize = 0;
    while i < s.len() && s[i] != c
        invariant
            i <= s.len(),
            forall|j: int| 0 <= j < i ==> s@[j] != c,
        decreases s.len() - i,
    {
        i += 1;
    }
    proof {
        lemma_position_is(s@, c, i as int);
    }
    i
}

/// The part of `s` before `at`.
pub fn head(s: &[char], at: usize) -> (r: &[char])
    requires
        at <= s.len(),
    ensures
        r@ == s@.take(at as int),
{
    proof {
        assert(s@.subrange(0, at as int) =~= s@.take(at as int));
    }
    slice_subrange(s, 0, at)
}

/// The part of `s` from `at` on.
pub fn tail(s: &[char], at: usize) -> (r: &[char])
    requires
        at <= s.len(),
    ensures
        r@ == s@.skip(at as int),
{
    proof {
        assert(s@.subrange(at as int, s@.len() as int) =~= s@.skip(at as int));
    }
    slice_subrange(s, at, s.len())
}

/// `s` without the carriage return it ends with, if it does.
fn drop_return(s: &[char]) -> (r: &[char])
    ensures
        r@ == without_return(s@),
{
    if s.len() > 0 && s[s.len() - 1] == '\r' {
        proof {
            assert(s@.take(s@.len() - 1) =~= s@.drop_last());
        }
        head(s, s.len() - 1)
    } else {
        s
    }
}

/// The lines of `s`.
pub fn split_lines(s: &[char]) -> (r: Vec<&[char]>)
    ensures
        views(r@) == lines(s@),
{
    let mut r: Vec<&[char]> = Vec::new();
    let mut rest: &[char] = s;
    proof {
        assert(views(r@) + lines(rest@) =~= lines(s@));
    }
    while rest.len() > 0
        invariant
            views(r@) + lines(rest@) == lines(s@),
        decreases rest.len(),
    {
        let at: usize = find(rest, '\n');
        let ghost was = r@;
        let ghost all = rest@;
        if at == rest.len() {
            r.push(rest);
            proof {
                assert(views(r@) =~= views(was) + seq![all]);
                assert(lines(Seq::<char>::empty()) =~= Seq::<Seq<char>>::empty());
            }
            rest = tail(rest, rest.len());
            proof {
                assert(rest@ =~= Seq::<char>::empty());
                assert(views(r@) + lines(rest@) =~= lines(s@));
            }
        } else {
            let line: &[char] = drop_return(head(rest, at));
            r.push(line);
            rest = tail(rest, at + 1);
            proof {
                assert(views(r@) =~= views(was) + seq![line@]);
                assert(views(r@) + lines(rest@) =~= views(was) + (seq![line@] + lines(rest@)));
            }
        }
    }
    proof {
        assert(lines(rest@) =~= Seq::<Seq<char>>::empty());
        assert(views(r@) =~= lines(s@));
    }
    r
}

/// `s` cut at each `c`, into `n` pieces at most.
pub fn split_fields(s: &[char], c: char, n: usize) -> (r: Vec<&[char]>)
    ensures
        views(r@) == fields(s@, c, n as nat),
{
    let mut r: Vec<&[char]> = Vec::new();
    let mut rest: &[char] = s;
    let mut left: usize = n;
    proof {
        assert(views(r@) + fields(rest@, c, left as nat) =~= fields(s@, c, n as nat));
    }
    while left > 1 && find(rest, c) < rest.len()
        invariant
            views(r@) + fields(rest@, c, left as nat) == fields(s@, c, n as nat),
        decreases left,
    {
        let at: usize = find(rest, c);
        let ghost was = r@;
        let piece: &[char] = head(rest, at);
        r.push(piece);
        rest = tail(rest, at + 1);
        left -= 1;
        proof {
            assert(views(r@) =~= views(was) + seq![piece@]);
            assert(views(r@) + fields(rest@, c, left as nat) =~= views(was) + (seq![piece@]
                + fields(rest@, c, left as nat)));
        }
    }
    let ghost was = r@;
    r.push(rest);
    proof {
        assert(views(r@) =~= views(was) + seq![rest@]);
    }
    r
}

/// Whether `s` starts with `prefix`.
pub fn starts_with(s: &[char], prefix: &str) -> (r: bool)
    ensures
        r == has_prefix(s@, prefix@),
{
    let p = chars_of(prefix);
    if p.len() > s.len() {
        return false;
    }
    same(head(s, p.len()), p.as_slice())
}

/// What follows `prefix` in `s`, where `s` starts with it.
pub fn strip_prefix<'a>(s: &'a [char], prefix: &str) -> (r: Option<&'a [char]>)
    ensures
        r is Some == has_prefix(s@, prefix@),
        r is Some ==> r->0@ == s@.skip(prefix@.len() as int),
{
    if starts_with(s, prefix) {
        let n: usize = chars_of(prefix).len();
        Some(tail(s, n))
    } else {
        None
    }
}

/// Whether `part` stands somewhere in `s`.
pub fn contains(s: &[char], part: &str) -> (r: bool)
    ensures
        r == has_part(s@, part@),
{
    let p = chars_of(part);
    if p.len() > s.len() {
        return false;
    }
    let mut at: usize = 0;
    while at <= s.len() - p.len()
        invariant
            p@ == part@,
            p.len() <= s.len(),
            at <= s.len() - p.len() + 1,
            forall|i: int| 0 <= i < at ==> !stands_at(s@, part@, i),
        decreases s.len() - p.len() + 1 - at,
    {
        if same(slice_subrange(s, at, at + p.len()), p.as_slice()) {
            assert(stands_at(s@, part@, at as int));
            return true;
        }
        if at == s.len() - p.len() {
            assert forall|i: int| !stands_at(s@, part@, i) by {
                if i == at {
                }
            }
            return false;
        }
        at += 1;
    }
    false
}

/// `s` with its ASCII letters in lower case.
pub fn to_lower(s: &[char]) -> (r: Vec<char>)
    ensures
        r@ == lowered(s@),
{
    let mut r: Vec<char> = Vec::new();
    let mut i: usize = 0;
    while i < s.len()
        invariant
            i <= s.len(),
            r@ == lowered(s@.take(i as int)),
        decreases s.len() - i,
    {
        let c: char = s[i];
        if 'A' <= c && c <= 'Z' {
            r.push((c as u8 + 32) as char);
        } else {
            r.push(c);
        }
        proof {
            assert(r@ =~= lowered(s@.take(i + 1)));
        }
        i += 1;
    }
    proof {
        assert(s@.take(s@.len() as int) =~= s@);
    }
    r
}

/// What the hexadecimal digit `c` stands for.
pub fn hex_digit(c: char) -> (r: Option<u8>)
    ensures
        r == hex_value(c),
{
    if '0' <= c && c <= '9' {
        Some(c as u8 - 48)
    } else if 'a' <= c && c <= 'f' {
        Some(c as u8 - 87)
    } else if 'A' <= c && c <= 'F' {
        Some(c as u8 - 55)
    } else {
        None
    }
}

/// Writes `n` in `base` at the end of `s`.
pub fn push_numeral(s: &mut String, n: u64, base: u64)
    requires
        2 <= base <= 16,
    ensures
        final(s)@ == old(s)@ + numeral(n as nat, base as nat),
    decreases n,
{
    if n >= base {
        proof {
            assert(n / base < n) by (nonlinear_arith)
                requires
                    n >= base >= 2,
            ;
        }
        push_numeral(s, n / base, base);
    }
    let d: u8 = (n % base) as u8;
    let ghost was = s@;
    if d < 10 {
        s.push((d + 48) as char);
    } else {
        s.push((d + 87) as char);
    }
    proof {
        assert(n < base ==> n % base == n) by (nonlinear_arith);
        assert(s@ =~= old(s)@ + numeral(n as nat, base as nat));
    }
}

} // verus!
