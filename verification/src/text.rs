//! Character-level text handling shared by the parsers of the library:
//! decimal numbers, whitespace, prefixes and separators.

use vstd::prelude::*;
use vstd::string::*;

verus! {

/// The numeric value of an ASCII decimal digit.
pub open spec fn digit_value(c: char) -> nat {
    ((c as u32) - 48) as nat
}

/// Whether `c` is one of the ASCII characters `0` to `9`.
pub open spec fn is_ascii_digit(c: char) -> bool {
    48 <= (c as u32) <= 57
}

/// Whether `s` holds nothing but ASCII decimal digits.
pub open spec fn all_digits(s: Seq<char>) -> bool {
    forall|i: int| 0 <= i < s.len() ==> is_ascii_digit(#[trigger] s[i])
}

/// The value of a string of decimal digits, most significant first.
pub open spec fn digits_value(s: Seq<char>) -> nat
    decreases s.len(),
{
    if s.len() == 0 {
        0
    } else {
        digits_value(s.drop_last()) * 10 + digit_value(s.last())
    }
}

/// The digits of an unsigned number in text: one leading `+` is allowed.
pub open spec fn unsigned_digits(s: Seq<char>) -> Seq<char> {
    if s.len() > 0 && s[0] == '+' {
        s.drop_first()
    } else {
        s
    }
}

/// What reading `s` as a `u64` gives: an optional `+`, then at least one
/// decimal digit, with a value that fits in 64 bits; `None` for anything else.
pub open spec fn spec_parse_u64(s: Seq<char>) -> Option<u64> {
    let d = unsigned_digits(s);
    if d.len() > 0 && all_digits(d) && digits_value(d) <= u64::MAX {
        Some(digits_value(d) as u64)
    } else {
        None
    }
}

/// The Unicode `White_Space` characters.
pub open spec fn is_whitespace(c: char) -> bool {
    let u = c as u32;
    ||| 9 <= u <= 13
    ||| u == 32
    ||| u == 0x85
    ||| u == 0xA0
    ||| u == 0x1680
    ||| 0x2000 <= u <= 0x200A
    ||| u == 0x2028
    ||| u == 0x2029
    ||| u == 0x202F
    ||| u == 0x205F
    ||| u == 0x3000
}

/// Whether `c` ends a field: a space, or with `any_whitespace` any whitespace.
pub open spec fn is_separator(c: char, any_whitespace: bool) -> bool {
    if any_whitespace {
        is_whitespace(c)
    } else {
        c == ' '
    }
}

/// The index of the first separator at or after `i`, or the length of `s`.
pub open spec fn separator_from(s: Seq<char>, i: int, any_whitespace: bool) -> int
    decreases s.len() - i,
{
    if i < 0 || i >= s.len() {
        s.len() as int
    } else if is_separator(s[i], any_whitespace) {
        i
    } else {
        separator_from(s, i + 1, any_whitespace)
    }
}

/// The index of the first character at or after `i` that is not whitespace,
/// or the length of `s`.
pub open spec fn non_whitespace_from(s: Seq<char>, i: int) -> int
    decreases s.len() - i,
{
    if i < 0 || i >= s.len() {
        s.len() as int
    } else if !is_whitespace(s[i]) {
        i
    } else {
        non_whitespace_from(s, i + 1)
    }
}

/// The number of spaces in `s` at or after index `i`.
pub open spec fn spaces_from(s: Seq<char>, i: int) -> nat
    decreases s.len() - i,
{
    if i < 0 || i >= s.len() {
        0
    } else {
        (if s[i] == ' ' { 1nat } else { 0nat }) + spaces_from(s, i + 1)
    }
}

/// The field that starts at `i`: the characters up to the next separator.
pub open spec fn field_at(s: Seq<char>, i: int, any_whitespace: bool) -> Seq<char> {
    s.subrange(i, separator_from(s, i, any_whitespace))
}

/// Whether `s` starts with `p`.
pub open spec fn has_prefix(s: Seq<char>, p: Seq<char>) -> bool {
    p.len() <= s.len() && s.subrange(0, p.len() as int) == p
}

/// Where spaces remain from `i` on, the first of them comes before the end.
pub proof fn lemma_space_ahead(s: Seq<char>, i: int)
    requires
        0 <= i <= s.len(),
        spaces_from(s, i) > 0,
    ensures
        i <= separator_from(s, i, false) < s.len(),
        s[separator_from(s, i, false)] == ' ',
        spaces_from(s, separator_from(s, i, false) + 1) == spaces_from(s, i) - 1,
    decreases s.len() - i,
{
    if i < s.len() && s[i] != ' ' {
        lemma_space_ahead(s, i + 1);
    }
}

proof fn lemma_digits_value_prefix_grows(s: Seq<char>, i: int)
    requires
        0 <= i <= s.len(),
    ensures
        digits_value(s.take(i)) <= digits_value(s),
    decreases s.len() - i,
{
    if i < s.len() {
        lemma_digits_value_prefix_grows(s, i + 1);
        assert(s.take(i + 1).drop_last() =~= s.take(i));
    } else {
        assert(s.take(i) =~= s);
    }
}

/// The characters of `s`, one element each.
pub fn chars_of(s: &str) -> (v: Vec<char>)
    ensures
        v@ == s@,
{
    let n = s.unicode_len();
    let mut v: Vec<char> = Vec::new();
    let mut i: usize = 0;
    while i < n
        invariant
            n == s@.len(),
            i <= n,
            v@ == s@.take(i as int),
        decreases n - i,
    {
        let c = s.get_char(i);
        v.push(c);
        i = i + 1;
        assert(v@ =~= s@.take(i as int));
    }
    assert(v@ =~= s@);
    v
}

/// Whether `c` is whitespace in the sense of Unicode `White_Space`.
pub fn char_is_whitespace(c: char) -> (b: bool)
    ensures
        b == is_whitespace(c),
{
    let u = c as u32;
    (9 <= u && u <= 13) || u == 32 || u == 0x85 || u == 0xA0 || u == 0x1680 || (0x2000 <= u && u
        <= 0x200A) || u == 0x2028 || u == 0x2029 || u == 0x202F || u == 0x205F || u == 0x3000
}

/// The index of the first separator at or after `start`, or the length.
pub fn find_separator(s: &Vec<char>, start: usize, any_whitespace: bool) -> (end: usize)
    requires
        start <= s@.len(),
    ensures
        end == separator_from(s@, start as int, any_whitespace),
        start <= end <= s@.len(),
{
    let mut j = start;
    while j < s.len()
        invariant
            start <= j <= s@.len(),
            separator_from(s@, j as int, any_whitespace) == separator_from(
                s@,
                start as int,
                any_whitespace,
            ),
        decreases s@.len() - j,
    {
        let c = s[j];
        let sep = if any_whitespace {
            char_is_whitespace(c)
        } else {
            c == ' '
        };
        if sep {
            return j;
        }
        j = j + 1;
    }
    j
}

/// The index of the first non-whitespace character at or after `start`,
/// or the length.
pub fn skip_whitespace(s: &Vec<char>, start: usize) -> (end: usize)
    requires
        start <= s@.len(),
    ensures
        end == non_whitespace_from(s@, start as int),
        start <= end <= s@.len(),
{
    let mut j = start;
    while j < s.len()
        invariant
            start <= j <= s@.len(),
            non_whitespace_from(s@, j as int) == non_whitespace_from(s@, start as int),
        decreases s@.len() - j,
    {
        if !char_is_whitespace(s[j]) {
            return j;
        }
        j = j + 1;
    }
    j
}

/// How many spaces `s` holds at or after `start`.
pub fn count_spaces(s: &Vec<char>, start: usize) -> (n: usize)
    requires
        start <= s@.len(),
    ensures
        n == spaces_from(s@, start as int),
{
    let mut j = s.len();
    let mut n: usize = 0;
    while j > start
        invariant
            start <= j <= s@.len(),
            s@.len() <= usize::MAX,
            n == spaces_from(s@, j as int),
            n <= s@.len() - j,
        decreases j,
    {
        j = j - 1;
        if s[j] == ' ' {
            n = n + 1;
        }
    }
    n
}

/// Whether `s` starts with the characters of `p`.
pub fn starts_with(s: &Vec<char>, p: &str) -> (b: bool)
    ensures
        b == has_prefix(s@, p@),
{
    let n = p.unicode_len();
    if n > s.len() {
        return false;
    }
    let mut i: usize = 0;
    while i < n
        invariant
            n == p@.len(),
            n <= s@.len(),
            i <= n,
            forall|k: int| 0 <= k < i ==> s@[k] == p@[k],
        decreases n - i,
    {
        if s[i] != p.get_char(i) {
            assert(s@.subrange(0, n as int)[i as int] != p@[i as int]);
            return false;
        }
        i = i + 1;
    }
    assert(s@.subrange(0, n as int) =~= p@);
    true
}

/// Reads `s[start..end]` as a `u64`, as `spec_parse_u64` says.
pub fn parse_u64_range(s: &Vec<char>, start: usize, end: usize) -> (r: Option<u64>)
    requires
        start <= end <= s@.len(),
    ensures
        r == spec_parse_u64(s@.subrange(start as int, end as int)),
{
    let ghost t = s@.subrange(start as int, end as int);
    let mut i = start;
    if i < end && s[i] == '+' {
        i = i + 1;
    }
    let ghost d = s@.subrange(i as int, end as int);
    assert(d =~= unsigned_digits(t));
    if i == end {
        return None;
    }
    let first = i;
    let mut acc: u64 = 0;
    while i < end
        invariant
            first <= i <= end <= s@.len(),
            d == s@.subrange(first as int, end as int),
            t == s@.subrange(start as int, end as int),
            d == unsigned_digits(t),
            d.len() > 0,
            all_digits(d.take(i - first)),
            acc == digits_value(d.take(i - first)),
        decreases end - i,
    {
        let c = s[i];
        let u = c as u32;
        if u < 48 || u > 57 {
            assert(d[i - first] == c);
            assert(!all_digits(d));
            return None;
        }
        let dv = (u - 48) as u64;
        assert(d.take(i + 1 - first).drop_last() =~= d.take(i - first));
        assert(d.take(i + 1 - first).last() == c);
        assert(all_digits(d.take(i + 1 - first)));
        if acc > (u64::MAX - dv) / 10 {
            assert(acc * 10 + dv > u64::MAX) by (nonlinear_arith)
                requires
                    acc > (u64::MAX - dv) / 10,
                    dv <= 9,
            ;
            assert(digits_value(d.take(i + 1 - first)) > u64::MAX);
            proof {
                lemma_digits_value_prefix_grows(d, i + 1 - first);
            }
            return None;
        }
        acc = acc * 10 + dv;
        i = i + 1;
    }
    assert(d.take(i - first) =~= d);
    Some(acc)
}

/// The decimal digit character for `d < 10`.
pub open spec fn digit_char(d: nat) -> char {
    ((d + 48) as u32) as char
}

/// The decimal writing of `n`, without leading zeros (`0` is written `0`).
pub open spec fn decimal(n: nat) -> Seq<char>
    decreases n,
{
    if n < 10 {
        seq![digit_char(n)]
    } else {
        decimal(n / 10).push(digit_char(n % 10))
    }
}

/// The one-character string of the decimal digit `d`.
pub fn digit_str(d: u64) -> (r: &'static str)
    requires
        d < 10,
    ensures
        r@ == seq![digit_char(d as nat)],
{
    if d == 0 {
        proof { reveal_strlit("0"); }
        "0"
    } else if d == 1 {
        proof { reveal_strlit("1"); }
        "1"
    } else if d == 2 {
        proof { reveal_strlit("2"); }
        "2"
    } else if d == 3 {
        proof { reveal_strlit("3"); }
        "3"
    } else if d == 4 {
        proof { reveal_strlit("4"); }
        "4"
    } else if d == 5 {
        proof { reveal_strlit("5"); }
        "5"
    } else if d == 6 {
        proof { reveal_strlit("6"); }
        "6"
    } else if d == 7 {
        proof { reveal_strlit("7"); }
        "7"
    } else if d == 8 {
        proof { reveal_strlit("8"); }
        "8"
    } else {
        proof { reveal_strlit("9"); }
        "9"
    }
}

/// Appends the decimal writing of `n` to `out`.
pub fn push_decimal(out: &mut String, n: u64)
    ensures
        final(out)@ == old(out)@ + decimal(n as nat),
    decreases n,
{
    if n >= 10 {
        push_decimal(out, n / 10);
    }
    out.append(digit_str(n % 10));
}

/// The decimal writing of `n`.
pub fn decimal_string(n: u64) -> (r: String)
    ensures
        r@ == decimal(n as nat),
{
    let mut out = String::new();
    push_decimal(&mut out, n);
    assert(out@ =~= decimal(n as nat));
    out
}

/// `s` written in at least four characters: zeros in front where it is shorter.
pub open spec fn zero_padded4(s: Seq<char>) -> Seq<char> {
    if s.len() < 4 {
        Seq::new((4 - s.len()) as nat, |i: int| '0') + s
    } else {
        s
    }
}

/// Whether `s` ends with `t`.
pub open spec fn has_suffix(s: Seq<char>, t: Seq<char>) -> bool {
    t.len() <= s.len() && s.subrange(s.len() - t.len(), s.len() as int) == t
}

/// The decimal writing of a number is all digits, and reads back as the number.
pub proof fn lemma_decimal_digits(n: nat)
    ensures
        all_digits(decimal(n)),
        digits_value(decimal(n)) == n,
        1 <= decimal(n).len(),
        n < 10 <==> decimal(n).len() == 1,
        n >= 10 ==> decimal(n).len() >= 2,
        n >= 100 ==> decimal(n).len() >= 3,
        n < 100 ==> decimal(n).len() <= 2,
        n < 1000 ==> decimal(n).len() <= 3,
        n >= 1000 ==> decimal(n).len() >= 4,
    decreases n,
{
    let c = digit_char(n % 10);
    assert((c as u32) == n % 10 + 48);
    assert(digit_value(c) == n % 10);
    if n < 10 {
        assert(decimal(n).drop_last() =~= Seq::<char>::empty());
        assert(decimal(n).last() == c);
        assert(digits_value(decimal(n)) == digits_value(Seq::<char>::empty()) * 10 + digit_value(c));
    } else {
        lemma_decimal_digits(n / 10);
        let d = decimal(n);
        assert(d.drop_last() =~= decimal(n / 10));
        assert(d.last() == c);
        assert(digits_value(d) == digits_value(decimal(n / 10)) * 10 + digit_value(c));
        assert((n / 10) * 10 + n % 10 == n);
        assert forall|i: int| 0 <= i < d.len() implies is_ascii_digit(#[trigger] d[i]) by {
            if i < d.len() - 1 {
                assert(d[i] == decimal(n / 10)[i]);
            }
        }
    }
}

/// Zeros written in front of digits do not change their value.
pub proof fn lemma_leading_zeros(z: nat, s: Seq<char>)
    ensures
        digits_value(Seq::new(z, |i: int| '0') + s) == digits_value(s),
    decreases s.len(), z,
{
    let zs = Seq::new(z, |i: int| '0');
    if s.len() > 0 {
        lemma_leading_zeros(z, s.drop_last());
        assert((zs + s).drop_last() =~= zs + s.drop_last());
    } else if z > 0 {
        let shorter = Seq::new((z - 1) as nat, |i: int| '0');
        lemma_leading_zeros((z - 1) as nat, s);
        assert((zs + s).drop_last() =~= shorter + s);
        assert(zs + s =~= zs);
    } else {
        assert(zs + s =~= s);
    }
}

/// The zero-padded writing of a number is all digits, reads back as the
/// number, and is at least four long.
pub proof fn lemma_padded_decimal(n: nat)
    ensures
        all_digits(zero_padded4(decimal(n))),
        digits_value(zero_padded4(decimal(n))) == n,
        zero_padded4(decimal(n)).len() >= 4,
{
    lemma_decimal_digits(n);
    let d = decimal(n);
    if d.len() < 4 {
        let z = (4 - d.len()) as nat;
        lemma_leading_zeros(z, d);
        let p = zero_padded4(d);
        assert forall|i: int| 0 <= i < p.len() implies is_ascii_digit(#[trigger] p[i]) by {
            if i >= z {
                assert(p[i] == d[i - z]);
            }
        }
    }
}

/// Writing a number in decimal and reading it back gives the number.
pub proof fn law_decimal_reads_back(n: u64)
    ensures
        spec_parse_u64(decimal(n as nat)) == Some(n),
{
    lemma_decimal_digits(n as nat);
    let d = decimal(n as nat);
    assert(is_ascii_digit(d[0]));
    assert(unsigned_digits(d) == d);
}

/// Appends the decimal writing of `n`, zero-padded to four characters, to `out`.
pub fn push_padded4(out: &mut String, n: u64)
    ensures
        final(out)@ == old(out)@ + zero_padded4(decimal(n as nat)),
{
    proof {
        lemma_decimal_digits(n as nat);
        reveal_strlit("0");
        reveal_strlit("00");
        reveal_strlit("000");
    }
    if n < 10 {
        out.append("000");
    } else if n < 100 {
        out.append("00");
    } else if n < 1000 {
        out.append("0");
    }
    push_decimal(out, n);
    assert(out@ =~= old(out)@ + zero_padded4(decimal(n as nat)));
}

/// Whether `s` ends with `t`.
pub fn ends_with(s: &Vec<char>, t: &Vec<char>) -> (b: bool)
    ensures
        b == has_suffix(s@, t@),
{
    if t.len() > s.len() {
        return false;
    }
    let off = s.len() - t.len();
    let mut i: usize = 0;
    while i < t.len()
        invariant
            off == s@.len() - t@.len(),
            off + t@.len() == s@.len(),
            s@.len() <= usize::MAX,
            i <= t@.len(),
            forall|k: int| 0 <= k < i ==> s@[off + k] == t@[k],
        decreases t@.len() - i,
    {
        if s[off + i] != t[i] {
            assert(s@.subrange(off as int, s@.len() as int)[i as int] != t@[i as int]);
            return false;
        }
        i = i + 1;
    }
    assert(s@.subrange(off as int, s@.len() as int) =~= t@);
    true
}

/// A digit is neither whitespace nor a space.
pub proof fn lemma_digit_not_separator(c: char, any_whitespace: bool)
    requires
        is_ascii_digit(c),
    ensures
        !is_whitespace(c),
        !is_separator(c, any_whitespace),
{
}

/// Where `s[i..j]` holds no separator and a separator (or the end) follows,
/// the first separator from `i` on is at `j`.
pub proof fn lemma_separator_after_run(s: Seq<char>, i: int, j: int, any_whitespace: bool)
    requires
        0 <= i <= j <= s.len(),
        forall|k: int| i <= k < j ==> !is_separator(#[trigger] s[k], any_whitespace),
        j == s.len() || is_separator(s[j], any_whitespace),
    ensures
        separator_from(s, i, any_whitespace) == j,
    decreases j - i,
{
    if i < j {
        lemma_separator_after_run(s, i + 1, j, any_whitespace);
    }
}

/// Where `s[i..j]` is all whitespace and something else (or the end)
/// follows, the first non-whitespace character from `i` on is at `j`.
pub proof fn lemma_non_whitespace_after_run(s: Seq<char>, i: int, j: int)
    requires
        0 <= i <= j <= s.len(),
        forall|k: int| i <= k < j ==> is_whitespace(#[trigger] s[k]),
        j == s.len() || !is_whitespace(s[j]),
    ensures
        non_whitespace_from(s, i) == j,
    decreases j - i,
{
    if i < j {
        lemma_non_whitespace_after_run(s, i + 1, j);
    }
}

/// The spaces of `a + b` from a place inside `b` are those of `b` from there.
pub proof fn lemma_spaces_in_suffix(a: Seq<char>, b: Seq<char>, i: int)
    requires
        0 <= i <= b.len(),
    ensures
        spaces_from(a + b, a.len() + i) == spaces_from(b, i),
    decreases b.len() - i,
{
    if i < b.len() {
        lemma_spaces_in_suffix(a, b, i + 1);
        assert((a + b)[a.len() + i] == b[i]);
    }
}

/// Counting spaces from an earlier place counts at least as many.
pub proof fn lemma_spaces_from_grows_back(s: Seq<char>, i: int, j: int)
    requires
        0 <= i <= j <= s.len(),
    ensures
        spaces_from(s, i) >= spaces_from(s, j),
    decreases j - i,
{
    if i < j {
        lemma_spaces_from_grows_back(s, i + 1, j);
    }
}

/// Where `s` starts with `p`, it starts with no `q` that differs from `p` at
/// an index both have.
pub proof fn lemma_prefix_excludes(s: Seq<char>, p: Seq<char>, q: Seq<char>, d: int)
    requires
        has_prefix(s, p),
        0 <= d < p.len(),
        d < q.len(),
        p[d] != q[d],
    ensures
        !has_prefix(s, q),
{
    assert(s.subrange(0, p.len() as int)[d] == s[d]);
    if has_prefix(s, q) {
        assert(s.subrange(0, q.len() as int)[d] == s[d]);
    }
}

} // verus!
