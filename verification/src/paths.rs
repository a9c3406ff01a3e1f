//! Paths, as the bytes that Unix takes them for.
//!
//! A path is cut into components at its slashes. Empty components, and `.`
//! anywhere but at the start, stand for nothing.

use vstd::prelude::*;
use vstd::slice::{slice_subrange, slice_to_vec};
use vstd::string::*;
use vstd::utf8::*;

verus! {

/// The byte between components.
pub const SLASH: u8 = 0x2f;

/// The byte of which `.` and `..` are made.
pub const DOT: u8 = 0x2e;

/// The bytes of a text.
pub open spec fn bytes(text: Seq<char>) -> Seq<u8> {
    encode_utf8(text)
}

/// The bytes of each of a list of vectors.
pub open spec fn byte_views(list: Seq<Vec<u8>>) -> Seq<Seq<u8>> {
    list.map_values(|v: Vec<u8>| v@)
}

/// The path of `part`, seen from `base`.
pub open spec fn joined(base: Seq<u8>, part: Seq<u8>) -> Seq<u8> {
    if part.len() > 0 && part[0] == SLASH {
        part
    } else if base.len() > 0 && base.last() != SLASH {
        base.push(SLASH) + part
    } else {
        base + part
    }
}

/// A component that stands for nothing.
pub open spec fn is_void(component: Seq<u8>) -> bool {
    component.len() == 0 || component == seq![DOT]
}

/// Where the components start: behind the root, or behind a leading `.`.
pub open spec fn body_start(path: Seq<u8>) -> nat {
    if path.len() > 0 && path[0] == SLASH {
        1
    } else if path.len() > 0 && path[0] == DOT && (path.len() == 1 || path[1] == SLASH) {
        1
    } else {
        0
    }
}

/// Where the last component starts, from `from` on.
pub open spec fn last_start(path: Seq<u8>, from: nat) -> int
    decreases path.len(),
{
    if path.len() <= from || path.last() == SLASH {
        path.len() as int
    } else {
        last_start(path.drop_last(), from)
    }
}

/// What is before the component that starts at `at`, without the slash between.
pub open spec fn up_to(path: Seq<u8>, from: nat, at: int) -> Seq<u8> {
    if at > from {
        path.take(at - 1)
    } else {
        path.take(at)
    }
}

/// `path` without the void components that it ends with.
pub open spec fn trimmed_back(path: Seq<u8>, from: nat) -> Seq<u8>
    decreases path.len(),
    via trimmed_back_shrinks
{
    if path.len() <= from || !is_void(path.skip(last_start(path, from))) {
        path
    } else {
        trimmed_back(up_to(path, from, last_start(path, from)), from)
    }
}

#[via_fn]
proof fn trimmed_back_shrinks(path: Seq<u8>, from: nat) {
    lemma_last_start(path, from);
}

/// Where the first component ends.
pub open spec fn first_end(path: Seq<u8>) -> int
    decreases path.len(),
{
    if path.len() == 0 || path[0] == SLASH {
        0
    } else {
        1 + first_end(path.drop_first())
    }
}

/// `path` without the void components that it starts with.
pub open spec fn trimmed_front(path: Seq<u8>) -> Seq<u8>
    decreases path.len(),
    via trimmed_front_shrinks
{
    if path.len() == 0 || !is_void(path.take(first_end(path))) {
        path
    } else if first_end(path) == path.len() {
        Seq::empty()
    } else {
        trimmed_front(path.skip(first_end(path) + 1))
    }
}

#[via_fn]
proof fn trimmed_front_shrinks(path: Seq<u8>) {
    lemma_first_end(path);
}

/// `path` up to its last component.
pub open spec fn clean(path: Seq<u8>) -> Seq<u8> {
    trimmed_back(path, body_start(path))
}

/// The last component, unless there is none or it is `..`.
pub open spec fn file_name(path: Seq<u8>) -> Option<Seq<u8>> {
    let all = clean(path);
    let from = body_start(path);
    if all.len() <= from {
        None
    } else if all.skip(last_start(all, from)) == seq![DOT, DOT] {
        None
    } else {
        Some(all.skip(last_start(all, from)))
    }
}

/// The directory that the file is in.
pub open spec fn parent(path: Seq<u8>) -> Seq<u8> {
    let all = clean(path);
    let from = body_start(path);
    trimmed_back(up_to(all, from, last_start(all, from)), from)
}

/// `path` with another file name; one that has none gets it behind.
pub open spec fn renamed(path: Seq<u8>, name: Seq<u8>) -> Seq<u8> {
    if file_name(path) is Some {
        joined(parent(path), name)
    } else {
        joined(path, name)
    }
}

/// What an absolute path says from the root on, without void components at its
/// two ends.
pub open spec fn below_root(path: Seq<u8>) -> Option<Seq<u8>> {
    if path.len() > 0 && path[0] == SLASH {
        Some(trimmed_back(trimmed_front(path.skip(1)), 0))
    } else {
        None
    }
}

/// `s` ends with `suffix`.
pub open spec fn has_suffix(s: Seq<u8>, suffix: Seq<u8>) -> bool {
    suffix.len() <= s.len() && s.skip(s.len() - suffix.len()) == suffix
}

/// The start of the last component is in bounds, behind a slash if it is not
/// where the components start, and no slash follows it.
proof fn lemma_last_start(path: Seq<u8>, from: nat)
    ensures
        path.len() <= from ==> last_start(path, from) == path.len(),
        path.len() > from ==> from <= last_start(path, from) <= path.len(),
        path.len() > from && last_start(path, from) > from ==> path[last_start(path, from) - 1]
            == SLASH,
        path.len() > from && last_start(path, from) == from ==> path[from as int] != SLASH,
        forall|i: int| last_start(path, from) <= i < path.len() ==> path[i] != SLASH,
    decreases path.len(),
{
    if path.len() > from && path.last() != SLASH {
        let shorter = path.drop_last();
        lemma_last_start(shorter, from);
        assert forall|i: int| last_start(path, from) <= i < path.len() implies path[i]
            != SLASH by {
            if i < shorter.len() {
                assert(path[i] == shorter[i]);
            }
        }
        if last_start(path, from) > from && shorter.len() > from {
            assert(path[last_start(path, from) - 1] == shorter[last_start(path, from) - 1]);
        }
    }
}

/// A place behind a slash, or where the components start, with no slash from
/// there on, is the start of the last component.
proof fn lemma_last_start_is(path: Seq<u8>, from: nat, at: int)
    requires
        0 <= from <= at <= path.len(),
        from < path.len(),
        at == from || path[at - 1] == SLASH,
        forall|i: int| at <= i < path.len() ==> path[i] != SLASH,
    ensures
        last_start(path, from) == at,
    decreases path.len(),
{
    reveal_with_fuel(last_start, 2);
    if at < path.len() && path.len() - 1 > from {
        let shorter = path.drop_last();
        assert forall|i: int| at <= i < shorter.len() implies shorter[i] != SLASH by {
            assert(shorter[i] == path[i]);
        }
        lemma_last_start_is(shorter, from, at);
    }
}

/// The end of the first component is in bounds.
proof fn lemma_first_end(path: Seq<u8>)
    ensures
        0 <= first_end(path) <= path.len(),
        first_end(path) < path.len() ==> path[first_end(path)] == SLASH,
        forall|i: int| 0 <= i < first_end(path) ==> path[i] != SLASH,
    decreases path.len(),
{
    if path.len() > 0 && path[0] != SLASH {
        lemma_first_end(path.drop_first());
        assert forall|i: int| 0 <= i < first_end(path) implies path[i] != SLASH by {
            if i > 0 {
                assert(path[i] == path.drop_first()[i - 1]);
            }
        }
    }
}

/// The bytes of `text`.
pub fn to_bytes(text: &str) -> (r: Vec<u8>)
    ensures
        r@ == bytes(text@),
{
    slice_to_vec(text.as_bytes())
}

/// A copy of `bytes`.
pub fn copy_bytes(bytes: &Vec<u8>) -> (r: Vec<u8>)
    ensures
        r@ == bytes@,
{
    slice_to_vec(bytes.as_slice())
}

/// Whether the two hold the same bytes.
pub fn same_bytes(a: &[u8], b: &[u8]) -> (r: bool)
    ensures
        r == (a@ == b@),
{
    if a.len() != b.len() {
        return false;
    }
    let mut i: usize = 0;
    while i < a.len()
        invariant
            i <= a.len(),
            a.len() == b.len(),
            forall|j: int| 0 <= j < i ==> a@[j] == b@[j],
        decreases a.len() - i,
    {
        if a[i] != b[i] {
            return false;
        }
        i += 1;
    }
    proof {
        assert(a@ =~= b@);
    }
    true
}

/// `a` and `b`, one behind the other.
fn concat(a: &[u8], b: &[u8]) -> (r: Vec<u8>)
    ensures
        r@ == a@ + b@,
{
    let mut r = slice_to_vec(a);
    let mut i: usize = 0;
    proof {
        assert(r@ =~= a@ + b@.take(0));
    }
    while i < b.len()
        invariant
            i <= b.len(),
            r@ == a@ + b@.take(i as int),
        decreases b.len() - i,
    {
        r.push(b[i]);
        proof {
            assert(r@ =~= a@ + b@.take(i + 1));
        }
        i += 1;
    }
    proof {
        assert(b@.take(b@.len() as int) =~= b@);
    }
    r
}

/// The path of `part`, seen from `base`.
pub fn join(base: &[u8], part: &[u8]) -> (r: Vec<u8>)
    ensures
        r@ == joined(base@, part@),
{
    if part.len() > 0 && part[0] == SLASH {
        slice_to_vec(part)
    } else if base.len() > 0 && base[base.len() - 1] != SLASH {
        let mut stem = slice_to_vec(base);
        stem.push(SLASH);
        concat(stem.as_slice(), part)
    } else {
        concat(base, part)
    }
}

/// Whether a component stands for nothing.
fn void(component: &[u8]) -> (r: bool)
    ensures
        r == is_void(component@),
{
    if component.len() == 1 {
        proof {
            assert(component@ =~= seq![component@[0]]);
            assert(seq![DOT][0] == DOT);
        }
        component[0] == DOT
    } else {
        component.len() == 0
    }
}

/// Where the components start.
fn find_body(path: &[u8]) -> (r: usize)
    ensures
        r == body_start(path@),
        r <= path.len(),
{
    if path.len() == 0 {
        0
    } else if path[0] == SLASH {
        1
    } else if path[0] == DOT && (path.len() == 1 || path[1] == SLASH) {
        1
    } else {
        0
    }
}

/// Where the last component starts, from `from` on.
fn find_last(path: &[u8], from: usize) -> (r: usize)
    requires
        from < path.len(),
    ensures
        r == last_start(path@, from as nat),
        from <= r <= path.len(),
{
    let mut at: usize = path.len();
    while at > from && path[at - 1] != SLASH
        invariant
            from <= at <= path.len(),
            forall|i: int| at <= i < path.len() ==> path@[i] != SLASH,
        decreases at,
    {
        at -= 1;
    }
    proof {
        lemma_last_start_is(path@, from as nat, at as int);
    }
    at
}

/// What is before `at`.
fn cut(path: &[u8], at: usize) -> (r: &[u8])
    requires
        at <= path.len(),
    ensures
        r@ == path@.take(at as int),
{
    proof {
        assert(path@.subrange(0, at as int) =~= path@.take(at as int));
    }
    slice_subrange(path, 0, at)
}

/// What is from `at` on.
fn rest(path: &[u8], at: usize) -> (r: &[u8])
    requires
        at <= path.len(),
    ensures
        r@ == path@.skip(at as int),
{
    proof {
        assert(path@.subrange(at as int, path@.len() as int) =~= path@.skip(at as int));
    }
    slice_subrange(path, at, path.len())
}

/// What is before the component that starts at `at`, without the slash between.
fn cut_before(path: &[u8], from: usize, at: usize) -> (r: &[u8])
    requires
        from <= at <= path.len(),
    ensures
        r@ == up_to(path@, from as nat, at as int),
{
    if at > from {
        cut(path, at - 1)
    } else {
        cut(path, at)
    }
}

/// `path` without the void components that it ends with.
fn trim_back(path: &[u8], from: usize) -> (r: &[u8])
    ensures
        r@ == trimmed_back(path@, from as nat),
{
    let mut left: &[u8] = path;
    while left.len() > from
        invariant
            trimmed_back(left@, from as nat) == trimmed_back(path@, from as nat),
        decreases left.len(),
    {
        let at: usize = find_last(left, from);
        if !void(rest(left, at)) {
            return left;
        }
        left = cut_before(left, from, at);
    }
    left
}

/// `path` without the void components that it starts with.
fn trim_front(path: &[u8]) -> (r: &[u8])
    ensures
        r@ == trimmed_front(path@),
{
    let mut left: &[u8] = path;
    while left.len() > 0
        invariant
            trimmed_front(left@) == trimmed_front(path@),
        decreases left.len(),
    {
        let mut end: usize = 0;
        while end < left.len() && left[end] != SLASH
            invariant
                end <= left.len(),
                forall|i: int| 0 <= i < end ==> left@[i] != SLASH,
            decreases left.len() - end,
        {
            end += 1;
        }
        proof {
            lemma_first_end(left@);
            if first_end(left@) < end {
                assert(left@[first_end(left@)] == SLASH);
            }
            if end < first_end(left@) {
                assert(left@[end as int] != SLASH);
            }
        }
        if !void(cut(left, end)) {
            return left;
        }
        if end == left.len() {
            proof {
                assert(left@.skip(left@.len() as int) =~= Seq::<u8>::empty());
            }
            return rest(left, left.len());
        }
        left = rest(left, end + 1);
    }
    proof {
        assert(left@ =~= Seq::<u8>::empty());
    }
    left
}

/// The last component, unless there is none or it is `..`.
fn find_file_name(path: &[u8]) -> (r: Option<&[u8]>)
    ensures
        r is Some == file_name(path@) is Some,
        r is Some ==> r->0@ == file_name(path@)->0,
{
    let from: usize = find_body(path);
    let all: &[u8] = trim_back(path, from);
    if all.len() <= from {
        return None;
    }
    let name: &[u8] = rest(all, find_last(all, from));
    if name.len() == 2 && name[0] == DOT && name[1] == DOT {
        proof {
            assert(name@ =~= seq![DOT, DOT]);
        }
        return None;
    }
    proof {
        assert(seq![DOT, DOT].len() == 2 && seq![DOT, DOT][0] == DOT && seq![DOT, DOT][1] == DOT);
    }
    Some(name)
}

/// The last component of `path`, unless there is none or it is `..`.
pub fn get_file_name(path: &[u8]) -> (r: Option<Vec<u8>>)
    ensures
        r is Some == file_name(path@) is Some,
        r is Some ==> r->0@ == file_name(path@)->0,
{
    match find_file_name(path) {
        Some(name) => Some(slice_to_vec(name)),
        None => None,
    }
}

/// `path` with another file name.
pub fn with_file_name(path: &[u8], name: &[u8]) -> (r: Vec<u8>)
    ensures
        r@ == renamed(path@, name@),
{
    if find_file_name(path).is_some() {
        let from: usize = find_body(path);
        let all: &[u8] = trim_back(path, from);
        let at: usize = find_last(all, from);
        join(trim_back(cut_before(all, from, at), from), name)
    } else {
        join(path, name)
    }
}

/// What an absolute path says from the root on.
pub fn strip_root(path: &[u8]) -> (r: Option<Vec<u8>>)
    ensures
        r is Some == below_root(path@) is Some,
        r is Some ==> r->0@ == below_root(path@)->0,
{
    if path.len() > 0 && path[0] == SLASH {
        Some(slice_to_vec(trim_back(trim_front(rest(path, 1)), 0)))
    } else {
        None
    }
}

/// What is before `suffix` in `s`, where `s` ends with it.
pub fn strip_suffix(s: &[u8], suffix: &[u8]) -> (r: Option<Vec<u8>>)
    ensures
        r is Some == has_suffix(s@, suffix@),
        r is Some ==> r->0@ == s@.take(s@.len() - suffix@.len()),
{
    if suffix.len() > s.len() {
        return None;
    }
    let at: usize = s.len() - suffix.len();
    if same_bytes(rest(s, at), suffix) {
        Some(slice_to_vec(cut(s, at)))
    } else {
        None
    }
}

/// A name that can stand for a file.
pub open spec fn is_plain(name: Seq<u8>) -> bool {
    &&& !is_void(name)
    &&& name != seq![DOT, DOT]
    &&& forall|i: int| 0 <= i < name.len() ==> name[i] != SLASH
}

/// What is left after void components were cut off: a beginning of the path,
/// that keeps what is before the components and ends with no void one.
proof fn lemma_trimmed_back(path: Seq<u8>, from: nat)
    ensures
        trimmed_back(path, from).len() <= path.len(),
        trimmed_back(path, from) == path.take(trimmed_back(path, from).len() as int),
        from <= path.len() ==> from <= trimmed_back(path, from).len(),
        trimmed_back(path, from).len() <= from || !is_void(
            trimmed_back(path, from).skip(last_start(trimmed_back(path, from), from)),
        ),
    decreases path.len(),
{
    lemma_last_start(path, from);
    if path.len() > from && is_void(path.skip(last_start(path, from))) {
        let shorter = up_to(path, from, last_start(path, from));
        lemma_trimmed_back(shorter, from);
        let n = trimmed_back(shorter, from).len() as int;
        assert(shorter.take(n) =~= path.take(n));
    } else {
        assert(path.take(path.len() as int) =~= path);
    }
}

/// A directory that ends with no void component, and with no slash but that of
/// the root.
pub open spec fn is_tidy(base: Seq<u8>) -> bool {
    &&& trimmed_back(base, body_start(base)) == base
    &&& base.len() > 0 && base.last() == SLASH ==> base.len() == 1
}

/// A plain name in any directory is the name of a file there.
pub proof fn lemma_join_plain(base: Seq<u8>, name: Seq<u8>)
    requires
        is_plain(name),
    ensures
        file_name(joined(base, name)) == Some(name),
        clean(joined(base, name)) == joined(base, name),
        last_start(joined(base, name), body_start(joined(base, name))) == joined(base, name).len()
            - name.len(),
{
    let path = joined(base, name);
    let from = body_start(path);
    let at = path.len() - name.len();
    if name[0] == DOT {
        assert(name.len() > 1) by {
            if name.len() == 1 {
                assert(name =~= seq![DOT]);
            }
        }
        assert(name[1] != SLASH);
    }
    assert(path.skip(at) =~= name);
    assert(forall|i: int| at <= i < path.len() ==> path[i] == name[i - at]);
    assert(from <= at);
    lemma_last_start_is(path, from, at);
}

/// A plain name in a tidy directory is found there again.
pub proof fn lemma_join_tidy(base: Seq<u8>, name: Seq<u8>)
    requires
        is_tidy(base),
        is_plain(name),
    ensures
        file_name(joined(base, name)) == Some(name),
        parent(joined(base, name)) == base,
{
    let path = joined(base, name);
    let from = body_start(base);
    let at = path.len() - name.len();
    lemma_join_plain(base, name);
    assert(body_start(path) == from) by {
        if base.len() > 0 {
            assert(path[0] == base[0]);
        } else {
            assert(path =~= name);
            if name.len() == 1 {
                assert(name =~= seq![name[0]]);
            }
        }
    }
    assert(up_to(path, from, at) =~= base);
}

/// The directory of a file is tidy.
proof fn lemma_parent_tidy(path: Seq<u8>)
    requires
        file_name(path) is Some,
    ensures
        is_tidy(parent(path)),
{
    let from = body_start(path);
    let all = clean(path);
    lemma_trimmed_back(path, from);
    lemma_last_start(all, from);
    let above = up_to(all, from, last_start(all, from));
    let base = parent(path);
    lemma_trimmed_back(above, from);
    assert(forall|i: int| 0 <= i < base.len() ==> base[i] == path[i]);
    lemma_last_start(base, from);
    if base.len() > from && base.last() == SLASH {
        assert(last_start(base, from) == base.len());
        assert(base.skip(base.len() as int) =~= Seq::<u8>::empty());
    }
    if from == 0 && base.len() > 0 && base[0] == DOT {
        if base.len() == 1 {
            lemma_last_start_is(base, 0, 0);
            assert(base.skip(0) =~= seq![DOT]);
        }
    }
    assert(body_start(base) == from);
}

/// A file's name is plain.
pub proof fn file_name_is_plain(path: Seq<u8>)
    requires
        file_name(path) is Some,
    ensures
        is_plain(file_name(path)->0),
{
    let from = body_start(path);
    lemma_trimmed_back(path, from);
    lemma_last_start(clean(path), from);
}

/// A renamed file has its new name and is in the same directory, so that
/// renaming it again leaves no trace of the name in between.
pub proof fn renaming_again(path: Seq<u8>, name: Seq<u8>, again: Seq<u8>)
    requires
        file_name(path) is Some,
        is_plain(name),
    ensures
        file_name(renamed(path, name)) == Some(name),
        parent(renamed(path, name)) == parent(path),
        renamed(renamed(path, name), again) == renamed(path, again),
{
    lemma_parent_tidy(path);
    lemma_join_tidy(parent(path), name);
}

/// A directory is tidy where it ends with a component that is not void.
pub proof fn lemma_tidy(dir: Seq<u8>, at: int)
    requires
        body_start(dir) <= at < dir.len(),
        at == body_start(dir) || dir[at - 1] == SLASH,
        forall|i: int| at <= i < dir.len() ==> dir[i] != SLASH,
        dir[at] != DOT,
    ensures
        is_tidy(dir),
{
    lemma_last_start_is(dir, body_start(dir), at);
    assert(dir.skip(at)[0] == dir[at]);
    assert(dir.last() == dir[dir.len() - 1]);
}

/// The bytes of an ASCII text are its characters.
pub proof fn lemma_ascii_bytes(text: Seq<char>)
    requires
        is_ascii_chars(text),
    ensures
        bytes(text).len() == text.len(),
        forall|i: int| 0 <= i < text.len() ==> #[trigger] bytes(text)[i] == text[i] as u8,
        valid_utf8(bytes(text)),
{
    is_ascii_chars_encode_utf8(text);
    encode_utf8_valid_utf8(text);
    assert forall|i: int| 0 <= i < text.len() implies #[trigger] bytes(text)[i]
        == text[i] as u8 by {
        assert(text[i] as u8 == encode_utf8(text)[i]);
    }
}

/// What is left of a path from its root on starts with no slash.
pub proof fn lemma_below_root_is_relative(path: Seq<u8>)
    ensures
        below_root(path) is Some && below_root(path)->0.len() > 0 ==> below_root(path)->0[0]
            != SLASH,
{
    if below_root(path) is Some {
        let front = trimmed_front(path.skip(1));
        lemma_trimmed_front(path.skip(1));
        lemma_trimmed_back(front, 0);
    }
}

/// What is left after void components were cut off at the front starts with no slash.
proof fn lemma_trimmed_front(path: Seq<u8>)
    ensures
        trimmed_front(path).len() > 0 ==> trimmed_front(path)[0] != SLASH,
    decreases path.len(),
{
    lemma_first_end(path);
    if path.len() > 0 {
        if !is_void(path.take(first_end(path))) {
        } else if first_end(path) < path.len() {
            lemma_trimmed_front(path.skip(first_end(path) + 1));
        }
    }
}

/// A path whose first and last bytes are neither slashes nor dots has no void
/// component at its ends.
pub proof fn lemma_ends_stay(path: Seq<u8>)
    requires
        path.len() > 0,
        path[0] != SLASH && path[0] != DOT,
        path.last() != SLASH && path.last() != DOT,
    ensures
        trimmed_front(path) == path,
        trimmed_back(path, 0) == path,
{
    lemma_first_end(path);
    assert(path.take(first_end(path))[0] == path[0]);
    lemma_last_start(path, 0);
    let last = path.skip(last_start(path, 0));
    assert(last.len() > 0 && last.last() == path.last());
}

/// A directory whose last byte is neither a slash nor a dot is tidy.
pub proof fn lemma_tidy_end(dir: Seq<u8>)
    requires
        dir.len() > 0,
        dir[0] != DOT,
        dir.last() != SLASH && dir.last() != DOT,
    ensures
        is_tidy(dir),
{
    let from = body_start(dir);
    lemma_last_start(dir, from);
    let last = dir.skip(last_start(dir, from));
    assert(dir.len() > from);
    assert(last.len() > 0 && last.last() == dir.last());
}

} // verus!
