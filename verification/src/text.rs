//! Character-level helpers for path text.
use vstd::prelude::*;

verus! {

/// The characters of a string, in order.
pub fn chars_of(s: &str) -> (v: Vec<char>)
    ensures
        v@ == s@,
{
    let mut v: Vec<char> = Vec::new();
    for c in it: s.chars()
        invariant
            it.seq() == s@,
            v@ == it.seq().take(it.index()),
    {
        v.push(c);
        assert(it.seq().take(it.index() + 1) =~= it.seq().take(it.index()).push(c));
    }
    assert(v@ =~= s@);
    v
}

/// A path separator: `/` or `\`.
pub open spec fn is_separator(c: char) -> bool {
    c == '/' || c == '\\'
}

/// The position just after the last separator of a path (0 without one).
pub open spec fn component_start(s: Seq<char>) -> nat
    decreases s.len(),
{
    if s.len() == 0 {
        0
    } else if is_separator(s.last()) {
        s.len()
    } else {
        component_start(s.drop_last())
    }
}

/// The position of the last `.` of a name, if any.
pub open spec fn last_dot(s: Seq<char>) -> Option<nat>
    decreases s.len(),
{
    if s.len() == 0 {
        None
    } else if s.last() == '.' {
        Some((s.len() - 1) as nat)
    } else {
        last_dot(s.drop_last())
    }
}

/// The last dot lies inside the name.
pub proof fn lemma_last_dot_bound(s: Seq<char>)
    ensures
        last_dot(s) matches Some(k) ==> k < s.len() && s[k as int] == '.',
    decreases s.len(),
{
    if s.len() > 0 && s.last() != '.' {
        lemma_last_dot_bound(s.drop_last());
    }
}

/// The code of a character with ASCII capitals folded to lower case.
pub open spec fn ascii_lower_code(c: char) -> u32 {
    if 'A' <= c && c <= 'Z' {
        (c as u32 + 32) as u32
    } else {
        c as u32
    }
}

/// Equality up to ASCII case.
pub open spec fn eq_ignore_ascii_case(a: Seq<char>, b: Seq<char>) -> bool {
    &&& a.len() == b.len()
    &&& forall|i: int| 0 <= i < a.len() ==> ascii_lower_code(#[trigger] a[i]) == ascii_lower_code(b[i])
}

pub fn lower_code(c: char) -> (r: u32)
    ensures
        r == ascii_lower_code(c),
{
    if 'A' <= c && c <= 'Z' {
        c as u32 + 32
    } else {
        c as u32
    }
}

/// The position of the last `.` of `chars[start..end]`, relative to `start`.
pub fn find_last_dot(chars: &Vec<char>, start: usize, end: usize) -> (r: Option<usize>)
    requires
        start <= end <= chars@.len(),
    ensures
        match last_dot(chars@.subrange(start as int, end as int)) {
            Some(k) => r == Some(k as usize),
            None => r is None,
        },
        r matches Some(k) ==> start + k < end,
{
    let ghost name = chars@.subrange(start as int, end as int);
    proof {
        lemma_last_dot_bound(name);
    }
    let mut i = end;
    assert(name.take(i - start) =~= name);
    while i > start
        invariant
            start <= i <= end <= chars@.len(),
            name == chars@.subrange(start as int, end as int),
            last_dot(name) == last_dot(name.take(i - start)),
        decreases i,
    {
        assert(name.take(i - start).drop_last() =~= name.take(i - 1 - start));
        if chars[i - 1] == '.' {
            return Some(i - 1 - start);
        }
        i = i - 1;
    }
    assert(name.take(0) =~= Seq::<char>::empty());
    None
}

/// Whether `chars[start..end]` equals `word` up to ASCII case.
pub fn tail_eq_ignore_ascii_case(chars: &Vec<char>, start: usize, end: usize, word: &[char]) -> (r: bool)
    requires
        start <= end <= chars@.len(),
    ensures
        r == eq_ignore_ascii_case(chars@.subrange(start as int, end as int), word@),
{
    if end - start != word.len() {
        return false;
    }
    let ghost part = chars@.subrange(start as int, end as int);
    let mut i: usize = 0;
    while i < word.len()
        invariant
            end - start == word.len(),
            start <= end <= chars@.len(),
            part == chars@.subrange(start as int, end as int),
            i <= word@.len(),
            forall|j: int| 0 <= j < i ==> ascii_lower_code(#[trigger] part[j]) == ascii_lower_code(word@[j]),
        decreases word.len() - i,
    {
        if lower_code(chars[start + i]) != lower_code(word[i]) {
            assert(part[i as int] == chars@[start + i]);
            return false;
        }
        i = i + 1;
    }
    true
}

/// Where the file name of a path lies: from the first to the second index.
#[verifier::spinoff_prover]
pub fn file_name_span(path: &str) -> (r: Option<(usize, usize)>)
    ensures
        match file_name_of(path@) {
            Some(name) => r matches Some((a, b)) && a <= b <= path@.len() && path@.subrange(a as int, b as int)
                == name,
            None => r is None,
        },
{
    let chars = chars_of(path);
    let base = body_start_of(&chars);
    assert(chars@.take(chars@.len() as int) =~= chars@);
    let t = trim_end_of(&chars, chars.len(), base);
    assert(t == trim_end(path@, body_start(path@)));
    if t <= base {
        return None;
    }
    let s = last_component_start_of(&chars, base, t);
    assert(s == last_component_start(path@, body_start(path@), t as int));
    let ghost name = chars@.subrange(s as int, t as int);
    if t - s == 2 && chars[s] == '.' && chars[s + 1] == '.' {
        assert(name =~= seq!['.', '.']);
        return None;
    }
    proof {
        let dots = seq!['.', '.'];
        if name == dots {
            assert(dots.len() == 2 && dots[0] == '.' && dots[1] == '.');
            assert(name[0] == chars@[s as int]);
            assert(name[1] == chars@[s + 1]);
            assert(false);
        }
        assert(file_name_of(path@) == Some(name));
    }
    Some((s, t))
}

/// The file name of a path, if it has one.
pub fn file_name(path: &str) -> (r: Option<String>)
    ensures
        option_seq(r) == file_name_of(path@),
{
    match file_name_span(path) {
        None => None,
        Some((a, b)) => Some(path.substring_char(a, b).to_owned()),
    }
}

/// The parent of a path, if it has one.
pub fn parent_text(path: &str) -> (r: Option<String>)
    ensures
        option_seq(r) == parent_of(path@),
{
    let chars = chars_of(path);
    let base = body_start_of(&chars);
    let t = trim_end_of(&chars, chars.len(), base);
    assert(chars@.take(chars@.len() as int) =~= chars@);
    if t <= base {
        if base == 1 && prefix_length(&chars) == 0 && !(chars[0] == '/' || chars[0] == '\\') {
            return Some(String::new());
        }
        return None;
    }
    let s = last_component_start_of(&chars, base, t);
    let e = trim_end_of(&chars, s, base);
    assert(chars@.take(e as int) =~= path@.take(e as int));
    Some(path.substring_char(0, e).to_owned())
}

/// The view of an optional string.
pub open spec fn option_seq(s: Option<String>) -> Option<Seq<char>> {
    match s {
        Some(s) => Some(s@),
        None => None,
    }
}

/// Whether two strings hold the same characters.
pub fn str_eq(a: &str, b: &str) -> (r: bool)
    ensures
        r == (a@ == b@),
{
    let x = chars_of(a);
    let y = chars_of(b);
    if x.len() != y.len() {
        return false;
    }
    let mut i: usize = 0;
    while i < x.len()
        invariant
            x@ == a@,
            y@ == b@,
            x@.len() == y@.len(),
            i <= x@.len(),
            forall|j: int| 0 <= j < i ==> x@[j] == y@[j],
        decreases x.len() - i,
    {
        if x[i] != y[i] {
            return false;
        }
        i = i + 1;
    }
    assert(a@ =~= b@);
    true
}

/// What `char::to_uppercase` gives for `c`, as a sequence of characters.
pub uninterp spec fn char_uppercase(c: char) -> Seq<char>;

/// `char::to_uppercase` (std), collected into a string: the Unicode
/// uppercase mapping of `c`. Its result is only named, by `char_uppercase`.
#[verifier::external_body]
fn uppercase_of(c: char) -> (r: String)
    ensures
        r@ == char_uppercase(c),
{
    c.to_uppercase().collect()
}

/// The uppercase form of one character as one UTF-16 unit is folded: its
/// uppercase mapping where that is a single character inside the Basic
/// Multilingual Plane, the character itself otherwise (a mapping that
/// expands, as `ß` to `SS`, and any character outside that plane, which
/// takes two UTF-16 units).
pub open spec fn upper_unit(c: char) -> char {
    if (c as u32) < 0x10000 && char_uppercase(c).len() == 1 && (char_uppercase(c)[0] as u32) < 0x10000 {
        char_uppercase(c)[0]
    } else {
        c
    }
}

fn upper_unit_of(c: char) -> (r: char)
    ensures
        r == upper_unit(c),
{
    if (c as u32) >= 0x10000 {
        return c;
    }
    let upper = uppercase_of(c);
    if upper.unicode_len() == 1 {
        let u = upper.get_char(0);
        if (u as u32) < 0x10000 {
            return u;
        }
    }
    c
}

/// Equality without regard to case, character by character: two names are
/// equal when they have as many characters and each pair of characters has
/// the same folded form (`upper_unit`), as an ordinal case-insensitive
/// comparison of UTF-16 file names has it.
pub open spec fn eq_ignore_case(a: Seq<char>, b: Seq<char>) -> bool {
    &&& a.len() == b.len()
    &&& forall|i: int| 0 <= i < a.len() ==> upper_unit(#[trigger] a[i]) == upper_unit(b[i])
}

/// Whether two strings are equal without regard to case.
pub fn str_eq_ignore_case(a: &str, b: &str) -> (r: bool)
    ensures
        r == eq_ignore_case(a@, b@),
{
    let x = chars_of(a);
    let y = chars_of(b);
    if x.len() != y.len() {
        return false;
    }
    let mut i: usize = 0;
    while i < x.len()
        invariant
            x@ == a@,
            y@ == b@,
            x@.len() == y@.len(),
            i <= x@.len(),
            forall|k: int| 0 <= k < i ==> upper_unit(#[trigger] a@[k]) == upper_unit(b@[k]),
        decreases x@.len() - i,
    {
        if upper_unit_of(x[i]) != upper_unit_of(y[i]) {
            return false;
        }
        i = i + 1;
    }
    true
}

// ---------------------------------------------------------------------------
// Windows path structure: prefix, root, components.

/// `X:` at the start of a path.
pub open spec fn has_drive(p: Seq<char>) -> bool {
    p.len() >= 2 && (('a' <= p[0] && p[0] <= 'z') || ('A' <= p[0] && p[0] <= 'Z')) && p[1] == ':'
}

/// The index of the first separator in `p` at or after `from`, or the length.
pub open spec fn next_sep(p: Seq<char>, from: int) -> int
    decreases p.len() - from,
{
    if from < 0 || from >= p.len() {
        p.len() as int
    } else if is_separator(p[from]) {
        from
    } else {
        next_sep(p, from + 1)
    }
}

/// The length of a path's prefix: `X:` for a drive, `\\server\share` for
/// a UNC path (two leading separators, then two components), nothing
/// otherwise.
pub open spec fn prefix_len(p: Seq<char>) -> int {
    if has_drive(p) {
        2
    } else if p.len() >= 2 && is_separator(p[0]) && is_separator(p[1]) {
        let server_end = next_sep(p, 2);
        if server_end >= p.len() {
            p.len() as int
        } else {
            next_sep(p, server_end + 1)
        }
    } else {
        0
    }
}

pub fn find_sep(p: &Vec<char>, from: usize) -> (e: usize)
    requires
        from <= p@.len(),
    ensures
        e == next_sep(p@, from as int),
        from <= e <= p@.len(),
{
    let mut e = from;
    while e < p.len() && !(p[e] == '/' || p[e] == '\\')
        invariant
            from <= e <= p@.len(),
            next_sep(p@, from as int) == next_sep(p@, e as int),
        decreases p@.len() - e,
    {
        e = e + 1;
    }
    e
}

pub fn prefix_length(p: &Vec<char>) -> (n: usize)
    ensures
        n == prefix_len(p@),
        n <= p@.len(),
{
    if starts_with_drive(p) {
        2
    } else if p.len() >= 2 && (p[0] == '/' || p[0] == '\\') && (p[1] == '/' || p[1] == '\\') {
        let server_end = find_sep(p, 2);
        if server_end >= p.len() {
            p.len()
        } else {
            find_sep(p, server_end + 1)
        }
    } else {
        0
    }
}

pub fn starts_with_drive(p: &Vec<char>) -> (b: bool)
    ensures
        b == has_drive(p@),
{
    p.len() >= 2 && (('a' <= p[0] && p[0] <= 'z') || ('A' <= p[0] && p[0] <= 'Z')) && p[1] == ':'
}


/// Where the body of a path begins: after its prefix and a root separator,
/// or after the leading `.` of a relative path (which stays a component).
pub open spec fn body_start(p: Seq<char>) -> int {
    let n = prefix_len(p);
    if n < p.len() && is_separator(p[n]) {
        n + 1
    } else if n == 0 && p.len() >= 1 && p[0] == '.' && (p.len() == 1 || is_separator(p[1])) {
        1
    } else {
        n
    }
}

/// The length of `p` once trailing separators and trailing `.` components
/// are dropped, never cutting below `base`.
pub open spec fn trim_end(p: Seq<char>, base: int) -> nat
    decreases p.len(),
{
    if p.len() > 0 && p.len() > base && (is_separator(p.last()) || (p.last() == '.' && (p.len() - 1 == base || is_separator(
        p[p.len() - 2],
    )))) {
        trim_end(p.drop_last(), base)
    } else {
        p.len()
    }
}

/// Where the last component of `p.take(t)` starts, not before `base`.
pub open spec fn last_component_start(p: Seq<char>, base: int, t: int) -> int {
    let c = component_start(p.take(t)) as int;
    if c < base {
        base
    } else {
        c
    }
}

/// The file name of a path: its last component when that is a name, once
/// trailing separators and `.` components are dropped; none for a path that
/// ends in its prefix, its root, `.` or `..`.
pub open spec fn file_name_of(s: Seq<char>) -> Option<Seq<char>> {
    let base = body_start(s);
    let t = trim_end(s, base) as int;
    if t <= base {
        None
    } else {
        let name = s.subrange(last_component_start(s, base, t), t);
        if name == seq!['.', '.'] {
            None
        } else {
            Some(name)
        }
    }
}

/// The parent of a path: the path without its last component (and the
/// separators and `.` components before it); none for a path that is only
/// a prefix and/or root, or empty.
pub open spec fn parent_of(s: Seq<char>) -> Option<Seq<char>> {
    let base = body_start(s);
    let t = trim_end(s, base) as int;
    if t <= base {
        if prefix_len(s) == 0 && base == 1 && !is_separator(s[0]) {
            Some(Seq::empty())
        } else {
            None
        }
    } else {
        Some(s.take(trim_end(s.take(last_component_start(s, base, t)), base) as int))
    }
}

/// The name shown for a path: its file name, or the whole text without one.
pub open spec fn display_name_of(s: Seq<char>) -> Seq<char> {
    match file_name_of(s) {
        Some(name) => name,
        None => s,
    }
}

/// The extension of a path: what follows the last `.` of its file name,
/// when that dot is not the name's first character.
pub open spec fn extension_of(s: Seq<char>) -> Option<Seq<char>> {
    match file_name_of(s) {
        None => None,
        Some(name) => match last_dot(name) {
            Some(k) => if k > 0 {
                Some(name.skip(k + 1int))
            } else {
                None
            },
            None => None,
        },
    }
}

pub fn body_start_of(p: &Vec<char>) -> (b: usize)
    ensures
        b == body_start(p@),
        b <= p@.len(),
{
    let n = prefix_length(p);
    if n < p.len() && (p[n] == '/' || p[n] == '\\') {
        n + 1
    } else if n == 0 && p.len() >= 1 && p[0] == '.' && (p.len() == 1 || p[1] == '/' || p[1] == '\\') {
        1
    } else {
        n
    }
}

/// `trim_end` of the first `upto` characters.
pub fn trim_end_of(p: &Vec<char>, upto: usize, base: usize) -> (t: usize)
    requires
        base <= upto <= p@.len(),
    ensures
        t == trim_end(p@.take(upto as int), base as int),
        base <= t <= upto,
{
    let mut end = upto;
    while end > base && (p[end - 1] == '/' || p[end - 1] == '\\' || (p[end - 1] == '.' && (end - 1 == base || p[end
        - 2] == '/' || p[end - 2] == '\\')))
        invariant
            base <= end <= upto <= p@.len(),
            trim_end(p@.take(end as int), base as int) == trim_end(p@.take(upto as int), base as int),
        decreases end,
    {
        assert(p@.take(end as int).drop_last() =~= p@.take(end - 1));
        assert(p@.take(end as int).last() == p@[end - 1]);
        proof {
            if end >= 2 {
                assert(p@.take(end as int)[end - 2] == p@[end - 2]);
            }
        }
        end = end - 1;
    }
    proof {
        if end > base {
            assert(p@.take(end as int).last() == p@[end - 1]);
            if end >= 2 {
                assert(p@.take(end as int)[end - 2] == p@[end - 2]);
            }
        }
    }
    end
}

/// `last_component_start` computed.
pub fn last_component_start_of(p: &Vec<char>, base: usize, t: usize) -> (s: usize)
    requires
        base <= t <= p@.len(),
    ensures
        s == last_component_start(p@, base as int, t as int),
        base <= s <= t,
{
    let mut start = t;
    let ghost q = p@.take(t as int);
    assert(q.take(start as int) =~= q);
    while start > 0 && !(p[start - 1] == '/' || p[start - 1] == '\\')
        invariant
            start <= t <= p@.len(),
            q == p@.take(t as int),
            component_start(q.take(start as int)) == component_start(q),
        decreases start,
    {
        assert(q.take(start as int).drop_last() =~= q.take(start - 1));
        assert(q.take(start as int).last() == p@[start - 1]);
        start = start - 1;
    }
    proof {
        if start > 0 {
            assert(q.take(start as int).last() == p@[start - 1]);
        } else {
            assert(q.take(0) =~= Seq::<char>::empty());
        }
    }
    if start < base {
        base
    } else {
        start
    }
}

} // verus!
