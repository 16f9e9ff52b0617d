//! How samples are keyed in the column families of the store: the keys that
//! the writer composes and the test by which the reader picks a container's
//! records back out.

use vstd::prelude::*;
use vstd::string::*;
use crate::text::{
    all_digits, digits_value, chars_of, decimal, ends_with, has_suffix, is_ascii_digit, lemma_padded_decimal, push_decimal,
    push_padded4, zero_padded4,
};

verus! {

/// The container that the `i`-th sample of the writer belongs to: twenty
/// consecutive samples per container.
pub open spec fn spec_container_of(i: u64) -> u64 {
    ((i - i % 20) / 20) as u64
}

/// The tail of every key of container `id`: `container` and the id written
/// in at least four digits.
pub open spec fn container_suffix(id: u64) -> Seq<char> {
    "container"@ + zero_padded4(decimal(id as nat))
}

/// The key of a sample of container `id` taken at time `ts`:
/// `<ts>@container<id, four digits>`.
pub open spec fn spec_container_key(ts: u64, id: u64) -> Seq<char> {
    decimal(ts as nat) + "@"@ + container_suffix(id)
}

/// The container of the `i`-th sample.
pub fn container_of(i: u64) -> (c: u64)
    ensures
        c == spec_container_of(i),
{
    (i - i % 20) / 20
}

/// The key under which a sample of container `id`, taken at `ts`, is stored.
pub fn container_key(ts: u64, id: u64) -> (k: String)
    ensures
        k@ == spec_container_key(ts, id),
{
    let mut k = String::new();
    push_decimal(&mut k, ts);
    k.append("@");
    k.append("container");
    push_padded4(&mut k, id);
    assert(k@ =~= spec_container_key(ts, id));
    k
}

/// Whether the writer pauses after its `i`-th sample: after every fiftieth.
pub fn pauses_after(i: u64) -> (b: bool)
    ensures
        b == (i % 50 == 0),
{
    i % 50 == 0
}

/// Whether `key` is the key of a sample of container `id`: whether it ends
/// with `container` and the id in four digits.
pub fn belongs_to_container(key: &str, id: u64) -> (b: bool)
    ensures
        b == has_suffix(key@, container_suffix(id)),
{
    let mut suffix = String::from_str("container");
    push_padded4(&mut suffix, id);
    let ks = chars_of(key);
    let ss = chars_of(suffix.as_str());
    ends_with(&ks, &ss)
}

proof fn lemma_container_word()
    ensures
        "container"@.len() == 9,
        !is_ascii_digit("container"@[8]),
{
    reveal_strlit("container");
}

/// Where one container tail ends another, it is the whole of it: a shorter
/// tail would put the last letter of `container` over a digit.
proof fn lemma_tail_in_tail(a: u64, b: u64)
    requires
        has_suffix(container_suffix(a), container_suffix(b)),
    ensures
        a == b,
{
    lemma_container_word();
    lemma_padded_decimal(a as nat);
    lemma_padded_decimal(b as nat);
    let sa = container_suffix(a);
    let sb = container_suffix(b);
    let pa = zero_padded4(decimal(a as nat));
    let pb = zero_padded4(decimal(b as nat));
    let off = sa.len() - sb.len();
    if off > 0 {
        assert(sb[8] == sa[off + 8]);
        assert(sa[off + 8] == pa[off - 1]);
        assert(is_ascii_digit(pa[off - 1]));
        assert(sb[8] == "container"@[8]);
    } else {
        assert(sa.subrange(0, sa.len() as int) =~= sa);
        assert(pa =~= sa.subrange(9, sa.len() as int));
        assert(pb =~= sb.subrange(9, sb.len() as int));
    }
}

/// What a key is: the time in decimal, `@container`, and then the id in
/// decimal digits, padded with zeros to at least four of them: no more digits
/// than four or than the id needs, and their value is the id. The tail that
/// the reader looks for is `container` and the same digits.
pub proof fn law_container_key_shape(ts: u64, id: u64)
    ensures
        exists|digits: Seq<char>|
            {
                &&& spec_container_key(ts, id) == decimal(ts as nat) + "@container"@ + digits
                &&& container_suffix(id) == "container"@ + digits
                &&& all_digits(digits)
                &&& digits_value(digits) == id
                &&& digits.len() == if decimal(id as nat).len() < 4 { 4 } else { decimal(id as nat).len() }
            },
{
    reveal_strlit("@container");
    reveal_strlit("@");
    reveal_strlit("container");
    let digits = zero_padded4(decimal(id as nat));
    lemma_padded_decimal(id as nat);
    assert(spec_container_key(ts, id) =~= decimal(ts as nat) + "@container"@ + digits);
}

/// The reader's test picks out of the writer's keys exactly those of the
/// container it asks for: the key of a sample of container `c` ends with the
/// tail of container `d` if and only if `c` and `d` are the same container.
pub proof fn law_container_key_selects_its_container(ts: u64, c: u64, d: u64)
    ensures
        has_suffix(spec_container_key(ts, c), container_suffix(d)) <==> c == d,
{
    let key = spec_container_key(ts, c);
    let sc = container_suffix(c);
    let sd = container_suffix(d);
    let pre = decimal(ts as nat) + "@"@;
    assert(key =~= pre + sc);
    assert(key.subrange(key.len() - sc.len(), key.len() as int) =~= sc);
    if c == d {
    } else if has_suffix(key, sd) {
        if sd.len() <= sc.len() {
            assert(sc.subrange(sc.len() - sd.len(), sc.len() as int) =~= key.subrange(
                key.len() - sd.len(),
                key.len() as int,
            ));
            lemma_tail_in_tail(c, d);
        } else {
            assert(sd.subrange(sd.len() - sc.len(), sd.len() as int) =~= key.subrange(
                key.len() - sc.len(),
                key.len() as int,
            ));
            lemma_tail_in_tail(d, c);
        }
    }
}

} // verus!
