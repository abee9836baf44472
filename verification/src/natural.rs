//! Natural ("logical number") ordering of file names: runs of digits compare
//! as numbers, everything else compares character by character without
//! regard to ASCII case. Results are -1, 0 or 1.
use vstd::prelude::*;

use std::cmp::Ordering;

use crate::text::{ascii_lower_code, chars_of, file_name_of, lower_code};

verus! {

broadcast use vstd::seq_lib::group_seq_properties;

pub open spec fn is_digit(c: char) -> bool {
    '0' <= c && c <= '9'
}

/// The number of leading decimal digits.
pub open spec fn digit_run(s: Seq<char>) -> nat
    decreases s.len(),
{
    if s.len() > 0 && is_digit(s[0]) {
        1 + digit_run(s.skip(1))
    } else {
        0
    }
}

/// The number of leading `0` characters.
pub open spec fn zero_run(s: Seq<char>) -> nat
    decreases s.len(),
{
    if s.len() > 0 && s[0] == '0' {
        1 + zero_run(s.skip(1))
    } else {
        0
    }
}

/// Lexicographic comparison by code point; a proper prefix comes first.
pub open spec fn lex_order(a: Seq<char>, b: Seq<char>) -> int
    decreases a.len(),
{
    if a.len() == 0 {
        if b.len() == 0 {
            0
        } else {
            -1
        }
    } else if b.len() == 0 {
        1
    } else if (a[0] as int) < (b[0] as int) {
        -1
    } else if (a[0] as int) > (b[0] as int) {
        1
    } else {
        lex_order(a.skip(1), b.skip(1))
    }
}

/// Two digit runs compared as numbers: without leading zeros the shorter is
/// smaller, then the digits decide, then fewer leading zeros come first.
pub open spec fn number_order(a: Seq<char>, b: Seq<char>) -> int {
    let ta = a.skip(zero_run(a) as int);
    let tb = b.skip(zero_run(b) as int);
    if ta.len() < tb.len() {
        -1
    } else if ta.len() > tb.len() {
        1
    } else if lex_order(ta, tb) != 0 {
        lex_order(ta, tb)
    } else if a.len() < b.len() {
        -1
    } else if a.len() > b.len() {
        1
    } else {
        0
    }
}

/// What remains after a leading digit run of length `n`; the character that
/// ends the run is compared next.
pub open spec fn after_run(s: Seq<char>, n: nat) -> Seq<char> {
    if n <= s.len() {
        s.skip(n as int)
    } else {
        s.skip(s.len() as int)
    }
}

/// The natural order of two names.
pub open spec fn natural_order(a: Seq<char>, b: Seq<char>) -> int
    decreases a.len() + b.len(),
{
    if a.len() == 0 {
        if b.len() == 0 {
            0
        } else {
            -1
        }
    } else if b.len() == 0 {
        1
    } else if is_digit(a[0]) && is_digit(b[0]) {
        let c = number_order(a.take(digit_run(a) as int), b.take(digit_run(b) as int));
        if c != 0 {
            c
        } else {
            natural_order(after_run(a, digit_run(a)), after_run(b, digit_run(b)))
        }
    } else if ascii_lower_code(a[0]) < ascii_lower_code(b[0]) {
        -1
    } else if ascii_lower_code(a[0]) > ascii_lower_code(b[0]) {
        1
    } else {
        natural_order(a.skip(1), b.skip(1))
    }
}

/// The name a path is sorted by: its file name, or the whole path without one.
pub open spec fn sort_name(path: Seq<char>) -> Seq<char> {
    match file_name_of(path) {
        Some(name) => name,
        None => path,
    }
}

/// The catalog order of two paths: natural order of their names, then the
/// names' plain order.
pub open spec fn path_order(a: Seq<char>, b: Seq<char>) -> int {
    let c = natural_order(sort_name(a), sort_name(b));
    if c != 0 {
        c
    } else {
        lex_order(sort_name(a), sort_name(b))
    }
}

// ---------------------------------------------------------------------------
// Antisymmetry: swapping the arguments negates every comparison.

proof fn lemma_lex_antisymmetric(a: Seq<char>, b: Seq<char>)
    ensures
        lex_order(a, b) == -lex_order(b, a),
        -1 <= lex_order(a, b) <= 1,
        lex_order(a, b) == 0 ==> a == b,
    decreases a.len(),
{
    if a.len() > 0 && b.len() > 0 && a[0] == b[0] {
        lemma_lex_antisymmetric(a.skip(1), b.skip(1));
        if lex_order(a, b) == 0 {
            assert(a =~= seq![a[0]] + a.skip(1));
            assert(b =~= seq![b[0]] + b.skip(1));
        }
    } else if a.len() > 0 && b.len() > 0 {
        assert((a[0] as int) != (b[0] as int));
    }
}

proof fn lemma_number_antisymmetric(a: Seq<char>, b: Seq<char>)
    ensures
        number_order(a, b) == -number_order(b, a),
        -1 <= number_order(a, b) <= 1,
{
    lemma_lex_antisymmetric(a.skip(zero_run(a) as int), b.skip(zero_run(b) as int));
}

/// Swapping two names negates their natural order.
pub proof fn lemma_natural_antisymmetric(a: Seq<char>, b: Seq<char>)
    ensures
        natural_order(a, b) == -natural_order(b, a),
        -1 <= natural_order(a, b) <= 1,
    decreases a.len() + b.len(),
{
    if a.len() > 0 && b.len() > 0 {
        if is_digit(a[0]) && is_digit(b[0]) {
            lemma_number_antisymmetric(a.take(digit_run(a) as int), b.take(digit_run(b) as int));
            lemma_natural_antisymmetric(after_run(a, digit_run(a)), after_run(b, digit_run(b)));
        } else if ascii_lower_code(a[0]) == ascii_lower_code(b[0]) {
            lemma_natural_antisymmetric(a.skip(1), b.skip(1));
        }
    }
}

/// Swapping two paths negates their catalog order, and only equal names
/// compare equal.
pub proof fn lemma_path_order_antisymmetric(a: Seq<char>, b: Seq<char>)
    ensures
        path_order(a, b) == -path_order(b, a),
        -1 <= path_order(a, b) <= 1,
        path_order(a, b) == 0 ==> sort_name(a) == sort_name(b),
{
    lemma_natural_antisymmetric(sort_name(a), sort_name(b));
    lemma_lex_antisymmetric(sort_name(a), sort_name(b));
}

// ---------------------------------------------------------------------------
// Transitivity: the orders are total preorders.

proof fn lemma_lex_transitive(a: Seq<char>, b: Seq<char>, c: Seq<char>)
    requires
        lex_order(a, b) <= 0,
        lex_order(b, c) <= 0,
    ensures
        lex_order(a, c) <= 0,
    decreases a.len(),
{
    if a.len() > 0 && b.len() > 0 && c.len() > 0 {
        if a[0] == b[0] && b[0] == c[0] {
            lemma_lex_transitive(a.skip(1), b.skip(1), c.skip(1));
        }
    }
}

proof fn lemma_lex_strict(a: Seq<char>, b: Seq<char>, c: Seq<char>)
    requires
        lex_order(a, b) <= 0,
        lex_order(b, c) <= 0,
        lex_order(a, b) < 0 || lex_order(b, c) < 0,
    ensures
        lex_order(a, c) < 0,
{
    lemma_lex_transitive(a, b, c);
    lemma_lex_antisymmetric(a, b);
    lemma_lex_antisymmetric(b, c);
    lemma_lex_antisymmetric(a, c);
    if lex_order(a, c) == 0 {
        assert(a == c);
    }
}

/// Numbers that compare equal compare alike with every other number.
proof fn lemma_number_equal(a: Seq<char>, b: Seq<char>, c: Seq<char>)
    requires
        number_order(a, b) == 0,
    ensures
        number_order(a, c) == number_order(b, c),
        number_order(c, a) == number_order(c, b),
{
    let ta = a.skip(zero_run(a) as int);
    let tb = b.skip(zero_run(b) as int);
    lemma_lex_antisymmetric(ta, tb);
    assert(ta == tb);
}

proof fn lemma_number_transitive(a: Seq<char>, b: Seq<char>, c: Seq<char>)
    requires
        number_order(a, b) <= 0,
        number_order(b, c) <= 0,
    ensures
        number_order(a, c) <= 0,
        number_order(a, b) < 0 || number_order(b, c) < 0 ==> number_order(a, c) < 0,
{
    let ta = a.skip(zero_run(a) as int);
    let tb = b.skip(zero_run(b) as int);
    let tc = c.skip(zero_run(c) as int);
    lemma_lex_antisymmetric(ta, tb);
    lemma_lex_antisymmetric(tb, tc);
    lemma_lex_antisymmetric(ta, tc);
    if ta.len() == tb.len() && tb.len() == tc.len() {
        lemma_lex_transitive(ta, tb, tc);
        if lex_order(ta, tb) < 0 || lex_order(tb, tc) < 0 {
            lemma_lex_strict(ta, tb, tc);
        }
    }
    if number_order(a, b) == 0 {
        lemma_number_equal(a, b, c);
    }
    if number_order(b, c) == 0 {
        lemma_number_equal(b, c, a);
    }
}

proof fn lemma_lower_ranges(c: char)
    ensures
        is_digit(c) ==> ascii_lower_code(c) == c as u32 && 48 <= ascii_lower_code(c) <= 57,
        !is_digit(c) ==> ascii_lower_code(c) < 48 || ascii_lower_code(c) > 57,
{
}

/// The natural order is transitive.
pub proof fn lemma_natural_transitive(a: Seq<char>, b: Seq<char>, c: Seq<char>)
    requires
        natural_order(a, b) <= 0,
        natural_order(b, c) <= 0,
    ensures
        natural_order(a, c) <= 0,
    decreases a.len() + b.len() + c.len(),
{
    lemma_natural_antisymmetric(a, b);
    lemma_natural_antisymmetric(b, c);
    lemma_natural_antisymmetric(a, c);
    if a.len() == 0 || b.len() == 0 || c.len() == 0 {
        return;
    }
    lemma_lower_ranges(a[0]);
    lemma_lower_ranges(b[0]);
    lemma_lower_ranges(c[0]);
    let da = is_digit(a[0]);
    let db = is_digit(b[0]);
    let dc = is_digit(c[0]);
    if da && db && dc {
        let na = a.take(digit_run(a) as int);
        let nb = b.take(digit_run(b) as int);
        let nc = c.take(digit_run(c) as int);
        lemma_number_antisymmetric(na, nb);
        lemma_number_antisymmetric(nb, nc);
        lemma_number_transitive(na, nb, nc);
        if number_order(na, nb) == 0 {
            lemma_number_equal(na, nb, nc);
        }
        if number_order(na, nb) == 0 && number_order(nb, nc) == 0 {
            lemma_natural_transitive(
                after_run(a, digit_run(a)),
                after_run(b, digit_run(b)),
                after_run(c, digit_run(c)),
            );
        }
    } else if !da && !db && !dc {
        if ascii_lower_code(a[0]) == ascii_lower_code(b[0]) && ascii_lower_code(b[0]) == ascii_lower_code(c[0]) {
            lemma_natural_transitive(a.skip(1), b.skip(1), c.skip(1));
        }
    }
}

/// Names that compare equal compare alike with every other name.
pub proof fn lemma_natural_equal(a: Seq<char>, b: Seq<char>, c: Seq<char>)
    requires
        natural_order(a, b) == 0,
    ensures
        natural_order(a, c) == natural_order(b, c),
{
    lemma_natural_antisymmetric(a, b);
    lemma_natural_antisymmetric(a, c);
    lemma_natural_antisymmetric(b, c);
    if natural_order(a, c) <= 0 {
        lemma_natural_transitive(b, a, c);
    }
    if natural_order(c, a) <= 0 {
        lemma_natural_transitive(c, a, b);
    }
    if natural_order(b, c) <= 0 {
        lemma_natural_transitive(a, b, c);
    }
    if natural_order(c, b) <= 0 {
        lemma_natural_transitive(c, b, a);
    }
}

/// The catalog order is transitive.
pub proof fn lemma_path_order_transitive(a: Seq<char>, b: Seq<char>, c: Seq<char>)
    requires
        path_order(a, b) <= 0,
        path_order(b, c) <= 0,
    ensures
        path_order(a, c) <= 0,
        path_order(a, b) < 0 || path_order(b, c) < 0 ==> path_order(a, c) < 0,
{
    let x = sort_name(a);
    let y = sort_name(b);
    let z = sort_name(c);
    lemma_natural_antisymmetric(x, y);
    lemma_natural_antisymmetric(y, z);
    lemma_natural_antisymmetric(x, z);
    lemma_lex_antisymmetric(x, y);
    lemma_lex_antisymmetric(y, z);
    lemma_lex_antisymmetric(x, z);
    lemma_natural_transitive(x, y, z);
    if natural_order(x, z) == 0 {
        lemma_natural_equal(x, z, y);
        lemma_natural_antisymmetric(z, y);
    }
    if natural_order(x, y) == 0 {
        lemma_natural_equal(x, y, z);
    }
    if natural_order(y, z) == 0 {
        lemma_natural_antisymmetric(z, y);
        lemma_natural_equal(z, y, x);
    }
    if natural_order(x, y) == 0 && natural_order(y, z) == 0 {
        lemma_lex_transitive(x, y, z);
        if lex_order(x, y) < 0 || lex_order(y, z) < 0 {
            lemma_lex_strict(x, y, z);
        }
    }
}

// ---------------------------------------------------------------------------
// Executable comparison over character vectors.

proof fn lemma_skip_step(s: Seq<char>, i: int)
    requires
        0 <= i < s.len(),
    ensures
        s.skip(i).skip(1) =~= s.skip(i + 1),
        s.skip(i)[0] == s[i],
        s.skip(i).len() > 0,
{
}

/// The end of the digit run that starts at `i`.
fn digit_run_end(s: &Vec<char>, i: usize) -> (e: usize)
    requires
        i <= s@.len(),
    ensures
        i <= e <= s@.len(),
        e - i == digit_run(s@.skip(i as int)),
{
    let mut e = i;
    while e < s.len() && '0' <= s[e] && s[e] <= '9'
        invariant
            i <= e <= s@.len(),
            digit_run(s@.skip(i as int)) == (e - i) + digit_run(s@.skip(e as int)),
        decreases s@.len() - e,
    {
        proof {
            lemma_skip_step(s@, e as int);
        }
        e = e + 1;
    }
    proof {
        if e < s@.len() {
            lemma_skip_step(s@, e as int);
        }
    }
    e
}

/// The end of the run of `0` characters that starts at `i`, within `end`.
fn zero_run_end(s: &Vec<char>, i: usize, end: usize) -> (e: usize)
    requires
        i <= end <= s@.len(),
    ensures
        i <= e <= end,
        e - i == zero_run(s@.subrange(i as int, end as int)),
{
    let ghost t = s@.subrange(i as int, end as int);
    let mut e = i;
    while e < end && s[e] == '0'
        invariant
            i <= e <= end <= s@.len(),
            t == s@.subrange(i as int, end as int),
            zero_run(t) == (e - i) + zero_run(s@.subrange(e as int, end as int)),
        decreases end - e,
    {
        assert(s@.subrange(e as int, end as int).skip(1) =~= s@.subrange(e + 1, end as int));
        e = e + 1;
    }
    e
}

/// Lexicographic comparison of `a[i..ie]` and `b[j..je]`.
fn lex_order_exec(a: &Vec<char>, i: usize, ie: usize, b: &Vec<char>, j: usize, je: usize) -> (r: i8)
    requires
        i <= ie <= a@.len(),
        j <= je <= b@.len(),
    ensures
        r == lex_order(a@.subrange(i as int, ie as int), b@.subrange(j as int, je as int)),
{
    let mut p = i;
    let mut q = j;
    while p < ie && q < je
        invariant
            i <= p <= ie <= a@.len(),
            j <= q <= je <= b@.len(),
            p - i == q - j,
            lex_order(a@.subrange(i as int, ie as int), b@.subrange(j as int, je as int))
                == lex_order(a@.subrange(p as int, ie as int), b@.subrange(q as int, je as int)),
        decreases ie - p,
    {
        let ghost x = a@.subrange(p as int, ie as int);
        let ghost y = b@.subrange(q as int, je as int);
        assert(x.skip(1) =~= a@.subrange(p + 1, ie as int));
        assert(y.skip(1) =~= b@.subrange(q + 1, je as int));
        assert(x[0] == a@[p as int]);
        assert(y[0] == b@[q as int]);
        if a[p] < b[q] {
            return -1;
        }
        if a[p] > b[q] {
            return 1;
        }
        p = p + 1;
        q = q + 1;
    }
    if p < ie {
        1
    } else if q < je {
        -1
    } else {
        0
    }
}

/// The number order of the digit runs `a[i..ie]` and `b[j..je]`.
fn number_order_exec(a: &Vec<char>, i: usize, ie: usize, b: &Vec<char>, j: usize, je: usize) -> (r: i8)
    requires
        i <= ie <= a@.len(),
        j <= je <= b@.len(),
    ensures
        r == number_order(a@.subrange(i as int, ie as int), b@.subrange(j as int, je as int)),
{
    let ghost na = a@.subrange(i as int, ie as int);
    let ghost nb = b@.subrange(j as int, je as int);
    let za = zero_run_end(a, i, ie);
    let zb = zero_run_end(b, j, je);
    assert(na.skip(zero_run(na) as int) =~= a@.subrange(za as int, ie as int));
    assert(nb.skip(zero_run(nb) as int) =~= b@.subrange(zb as int, je as int));
    let la = ie - za;
    let lb = je - zb;
    if la < lb {
        return -1;
    }
    if la > lb {
        return 1;
    }
    let c = lex_order_exec(a, za, ie, b, zb, je);
    if c != 0 {
        return c;
    }
    if ie - i < je - j {
        -1
    } else if ie - i > je - j {
        1
    } else {
        0
    }
}

/// The natural order of two character sequences.
pub fn natural_order_chars(a: &Vec<char>, b: &Vec<char>) -> (r: i8)
    ensures
        r == natural_order(a@, b@),
{
    let mut i: usize = 0;
    let mut j: usize = 0;
    while i < a.len() && j < b.len()
        invariant
            i <= a@.len(),
            j <= b@.len(),
            natural_order(a@, b@) == natural_order(a@.skip(i as int), b@.skip(j as int)),
        decreases a@.len() + b@.len() - i - j,
    {
        let ghost x = a@.skip(i as int);
        let ghost y = b@.skip(j as int);
        proof {
            lemma_skip_step(a@, i as int);
            lemma_skip_step(b@, j as int);
        }
        if '0' <= a[i] && a[i] <= '9' && '0' <= b[j] && b[j] <= '9' {
            let ie = digit_run_end(a, i);
            let je = digit_run_end(b, j);
            assert(x.take(digit_run(x) as int) =~= a@.subrange(i as int, ie as int));
            assert(y.take(digit_run(y) as int) =~= b@.subrange(j as int, je as int));
            let c = number_order_exec(a, i, ie, b, j, je);
            if c != 0 {
                return c;
            }
            let ni = ie;
            let nj = je;
            assert(after_run(x, digit_run(x)) =~= a@.skip(ni as int));
            assert(after_run(y, digit_run(y)) =~= b@.skip(nj as int));
            i = ni;
            j = nj;
        } else {
            let x0 = lower_code(a[i]);
            let y0 = lower_code(b[j]);
            if x0 < y0 {
                return -1;
            }
            if x0 > y0 {
                return 1;
            }
            i = i + 1;
            j = j + 1;
        }
    }
    if i < a.len() {
        1
    } else if j < b.len() {
        -1
    } else {
        0
    }
}

/// The ordering that a comparison result of -1, 0 or 1 stands for.
pub open spec fn ordering_of_sign(c: int) -> Ordering {
    if c < 0 {
        Ordering::Less
    } else if c > 0 {
        Ordering::Greater
    } else {
        Ordering::Equal
    }
}

/// The natural order of two names.
pub fn natural_string_compare(left: &str, right: &str) -> (r: Ordering)
    ensures
        r == ordering_of_sign(natural_order(left@, right@)),
{
    let a = chars_of(left);
    let b = chars_of(right);
    let c = natural_order_chars(&a, &b);
    if c < 0 {
        Ordering::Less
    } else if c > 0 {
        Ordering::Greater
    } else {
        Ordering::Equal
    }
}


// ---------------------------------------------------------------------------
// Digit runs compare by the numbers they denote.

/// Every character is a decimal digit.
pub open spec fn all_digits(s: Seq<char>) -> bool {
    forall|i: int| 0 <= i < s.len() ==> is_digit(#[trigger] s[i])
}

/// Ten to the power `n`.
pub open spec fn pow10(n: nat) -> nat
    decreases n,
{
    if n == 0 {
        1
    } else {
        10 * pow10((n - 1) as nat)
    }
}

/// The number a run of decimal digits denotes.
pub open spec fn number_value(s: Seq<char>) -> nat
    decreases s.len(),
{
    if s.len() == 0 {
        0
    } else {
        ((s[0] as int - '0' as int) * pow10((s.len() - 1) as nat) + number_value(s.skip(1))) as nat
    }
}

proof fn lemma_pow10_grows(m: nat, n: nat)
    requires
        m <= n,
    ensures
        1 <= pow10(m) <= pow10(n),
    decreases n,
{
    if n > 0 {
        if m < n {
            lemma_pow10_grows(m, (n - 1) as nat);
        } else {
            lemma_pow10_grows(0, (n - 1) as nat);
        }
    }
}

/// A run of `n` digits denotes less than ten to the `n`, and at least ten to
/// the `n - 1` when it does not start with `0`.
proof fn lemma_number_value_bounds(s: Seq<char>)
    requires
        all_digits(s),
    ensures
        number_value(s) < pow10(s.len()),
        s.len() > 0 && s[0] != '0' ==> number_value(s) >= pow10((s.len() - 1) as nat),
    decreases s.len(),
{
    if s.len() > 0 {
        let rest = s.skip(1);
        assert(all_digits(rest)) by {
            assert forall|i: int| 0 <= i < rest.len() implies is_digit(#[trigger] rest[i]) by {
                assert(rest[i] == s[i + 1]);
            }
        }
        lemma_number_value_bounds(rest);
        lemma_pow10_grows(0, (s.len() - 1) as nat);
        let d = s[0] as int - '0' as int;
        let p = pow10((s.len() - 1) as nat) as int;
        let v = number_value(rest) as int;
        assert(is_digit(s[0]));
        assert(0 <= d <= 9);
        assert(pow10(s.len()) == 10 * p);
        assert(d * p + v < 10 * p) by (nonlinear_arith)
            requires
                0 <= d <= 9,
                0 <= v < p,
        ;
        assert(s[0] != '0' ==> d * p + v >= p) by (nonlinear_arith)
            requires
                s[0] != '0' ==> d >= 1,
                0 <= v,
                p >= 1,
        ;
    }
}

/// Leading zeros do not change the number a run denotes; once they are
/// dropped the run is empty or starts with another digit.
proof fn lemma_zeros_do_not_count(s: Seq<char>)
    requires
        all_digits(s),
    ensures
        number_value(s.skip(zero_run(s) as int)) == number_value(s),
        all_digits(s.skip(zero_run(s) as int)),
        zero_run(s) <= s.len(),
        s.skip(zero_run(s) as int).len() > 0 ==> s.skip(zero_run(s) as int)[0] != '0',
    decreases s.len(),
{
    if s.len() > 0 && s[0] == '0' {
        let rest = s.skip(1);
        assert(all_digits(rest)) by {
            assert forall|i: int| 0 <= i < rest.len() implies is_digit(#[trigger] rest[i]) by {
                assert(rest[i] == s[i + 1]);
            }
        }
        lemma_zeros_do_not_count(rest);
        assert(s.skip(zero_run(s) as int) =~= rest.skip(zero_run(rest) as int));
        assert((s[0] as int - '0' as int) * pow10((s.len() - 1) as nat) == 0);
    } else {
        assert(s.skip(0) =~= s);
    }
}

proof fn lemma_lex_is_a_sign(a: Seq<char>, b: Seq<char>)
    ensures
        lex_order(a, b) == -1 || lex_order(a, b) == 0 || lex_order(a, b) == 1,
    decreases a.len(),
{
    if a.len() > 0 && b.len() > 0 {
        lemma_lex_is_a_sign(a.skip(1), b.skip(1));
    }
}

/// Two runs of the same length compare character by character as the
/// numbers they denote compare.
proof fn lemma_equal_length_runs(a: Seq<char>, b: Seq<char>)
    requires
        all_digits(a),
        all_digits(b),
        a.len() == b.len(),
    ensures
        lex_order(a, b) < 0 ==> number_value(a) < number_value(b),
        lex_order(a, b) > 0 ==> number_value(a) > number_value(b),
        lex_order(a, b) == 0 ==> number_value(a) == number_value(b),
    decreases a.len(),
{
    if a.len() > 0 {
        let (ra, rb) = (a.skip(1), b.skip(1));
        assert(all_digits(ra) && all_digits(rb)) by {
            assert forall|i: int| 0 <= i < ra.len() implies is_digit(#[trigger] ra[i]) by {
                assert(ra[i] == a[i + 1]);
            }
            assert forall|i: int| 0 <= i < rb.len() implies is_digit(#[trigger] rb[i]) by {
                assert(rb[i] == b[i + 1]);
            }
        }
        lemma_equal_length_runs(ra, rb);
        lemma_number_value_bounds(ra);
        lemma_number_value_bounds(rb);
        assert(is_digit(a[0]) && is_digit(b[0]));
        let da = a[0] as int - '0' as int;
        let db = b[0] as int - '0' as int;
        let p = pow10((a.len() - 1) as nat) as int;
        let va = number_value(ra) as int;
        let vb = number_value(rb) as int;
        assert(number_value(a) == da * p + va);
        assert(number_value(b) == db * p + vb);
        if da < db {
            assert(da * p + va < db * p + vb) by (nonlinear_arith)
                requires
                    da < db,
                    0 <= va < p,
                    0 <= vb,
            ;
        } else if da > db {
            assert(da * p + va > db * p + vb) by (nonlinear_arith)
                requires
                    da > db,
                    0 <= vb < p,
                    0 <= va,
            ;
        }
    }
}

/// Two digit runs in number order: the one denoting the smaller number comes
/// first, whatever leading zeros either carries.
pub proof fn lemma_number_order_follows_values(a: Seq<char>, b: Seq<char>)
    requires
        all_digits(a),
        all_digits(b),
    ensures
        number_value(a) < number_value(b) ==> number_order(a, b) == -1,
        number_value(a) > number_value(b) ==> number_order(a, b) == 1,
{
    lemma_zeros_do_not_count(a);
    lemma_zeros_do_not_count(b);
    let ta = a.skip(zero_run(a) as int);
    let tb = b.skip(zero_run(b) as int);
    lemma_number_value_bounds(ta);
    lemma_number_value_bounds(tb);
    assert(number_order(a, b) == (if ta.len() < tb.len() {
        -1
    } else if ta.len() > tb.len() {
        1
    } else if lex_order(ta, tb) != 0 {
        lex_order(ta, tb)
    } else if a.len() < b.len() {
        -1
    } else if a.len() > b.len() {
        1
    } else {
        0
    }));
    if ta.len() < tb.len() {
        lemma_pow10_grows(ta.len(), (tb.len() - 1) as nat);
        assert(number_value(tb) >= pow10((tb.len() - 1) as nat));
        assert(number_value(a) < number_value(b));
    } else if ta.len() > tb.len() {
        lemma_pow10_grows(tb.len(), (ta.len() - 1) as nat);
        assert(number_value(ta) >= pow10((ta.len() - 1) as nat));
        assert(number_value(a) > number_value(b));
    } else {
        lemma_equal_length_runs(ta, tb);
        lemma_lex_is_a_sign(ta, tb);
    }
}

proof fn lemma_digit_run_of_run(a: Seq<char>, x: Seq<char>)
    requires
        all_digits(a),
        x.len() == 0 || !is_digit(x[0]),
    ensures
        digit_run(a + x) == a.len(),
    decreases a.len(),
{
    if a.len() == 0 {
        assert(a + x =~= x);
    } else {
        let rest = a.skip(1);
        assert(all_digits(rest)) by {
            assert forall|i: int| 0 <= i < rest.len() implies is_digit(#[trigger] rest[i]) by {
                assert(rest[i] == a[i + 1]);
            }
        }
        lemma_digit_run_of_run(rest, x);
        assert((a + x).skip(1) =~= rest + x);
        assert((a + x)[0] == a[0]);
    }
}

/// Names that agree up to a digit run compare by the numbers those runs
/// denote: after a common prefix without digits, the name whose run is the
/// smaller number comes first, so `photo01.jpg` comes before `photo2.jpg`.
pub proof fn lemma_digit_runs_compare_as_numbers(prefix: Seq<char>, a: Seq<char>, b: Seq<char>, x: Seq<char>, y: Seq<char>)
    requires
        forall|i: int| 0 <= i < prefix.len() ==> !is_digit(#[trigger] prefix[i]),
        a.len() > 0,
        b.len() > 0,
        all_digits(a),
        all_digits(b),
        x.len() == 0 || !is_digit(x[0]),
        y.len() == 0 || !is_digit(y[0]),
        number_value(a) < number_value(b),
    ensures
        natural_order(prefix + a + x, prefix + b + y) == -1,
        natural_order(prefix + b + y, prefix + a + x) == 1,
    decreases prefix.len(),
{
    let s = prefix + a + x;
    let t = prefix + b + y;
    lemma_natural_antisymmetric(s, t);
    if prefix.len() == 0 {
        assert(s =~= a + x);
        assert(t =~= b + y);
        lemma_digit_run_of_run(a, x);
        lemma_digit_run_of_run(b, y);
        assert(s.take(a.len() as int) =~= a);
        assert(t.take(b.len() as int) =~= b);
        assert(is_digit(a[0]) && is_digit(b[0]));
        lemma_number_order_follows_values(a, b);
    } else {
        let rest = prefix.skip(1);
        assert forall|i: int| 0 <= i < rest.len() implies !is_digit(#[trigger] rest[i]) by {
            assert(rest[i] == prefix[i + 1]);
        }
        lemma_digit_runs_compare_as_numbers(rest, a, b, x, y);
        assert(s.skip(1) =~= rest + a + x);
        assert(t.skip(1) =~= rest + b + y);
        assert(s[0] == prefix[0] && t[0] == prefix[0]);
        assert(!is_digit(prefix[0]));
    }
}

} // verus!
