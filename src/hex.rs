use vstd::prelude::*;
use crate::types::{Address, TxHash};

verus! {

/// Why a text is not an address.
#[derive(Clone, Copy, Debug, PartialEq, Eq, Structural)]
pub enum AddressError {
    /// Not 40 digits after an optional `0x`.
    BadLength,
    /// A character that is not a hex digit.
    BadDigit,
}

pub open spec fn is_hex_char(c: char) -> bool {
    let u = c as u32;
    (48 <= u <= 57) || (97 <= u <= 102) || (65 <= u <= 70)
}

/// The value of a hex digit, either case.
pub open spec fn digit_value(c: char) -> nat {
    let u = c as u32;
    if 48 <= u <= 57 {
        (u - 48) as nat
    } else if 97 <= u <= 102 {
        (u - 87) as nat
    } else {
        (u - 55) as nat
    }
}

/// The number that a string of hex digits spells, most significant first.
pub open spec fn hex_val(s: Seq<char>) -> nat
    decreases s.len(),
{
    if s.len() == 0 {
        0
    } else {
        hex_val(s.drop_last()) * 16 + digit_value(s.last())
    }
}

pub open spec fn pow16(n: nat) -> nat
    decreases n,
{
    if n == 0 {
        1
    } else {
        16 * pow16((n - 1) as nat)
    }
}

/// The digits of an address text: what follows `0x`, or the whole text.
pub open spec fn address_digits(s: Seq<char>) -> Seq<char> {
    if s.len() >= 2 && s[0] == '0' && s[1] == 'x' {
        s.subrange(2, s.len() as int)
    } else {
        s
    }
}

pub open spec fn all_hex(s: Seq<char>) -> bool {
    forall|i: int| 0 <= i < s.len() ==> is_hex_char(#[trigger] s[i])
}

/// The address that forty hex digits spell.
pub open spec fn address_of(d: Seq<char>) -> Address {
    Address {
        hi: hex_val(d.subrange(0, 8)) as u32,
        mid: hex_val(d.subrange(8, 24)) as u64,
        lo: hex_val(d.subrange(24, 40)) as u64,
    }
}

/// The lower-case hex digit of `d`.
pub open spec fn hex_char(d: nat) -> char {
    if d < 10 {
        ((d + 48) as u8) as char
    } else {
        ((d + 87) as u8) as char
    }
}

/// The last `n` hex digits of `w`, most significant first.
pub open spec fn hex_digits(w: nat, n: nat) -> Seq<char>
    decreases n,
{
    if n == 0 {
        Seq::<char>::empty()
    } else {
        hex_digits(w / 16, (n - 1) as nat).push(hex_char(w % 16))
    }
}

/// `0x` and the 64 lower-case hex digits of a hash.
pub open spec fn hash_text(h: TxHash) -> Seq<char> {
    seq!['0', 'x'] + hex_digits(h.w0 as nat, 16) + hex_digits(h.w1 as nat, 16) + hex_digits(
        h.w2 as nat,
        16,
    ) + hex_digits(h.w3 as nat, 16)
}

proof fn lemma_pow16_mono(a: nat, b: nat)
    requires
        a <= b,
    ensures
        pow16(a) <= pow16(b),
    decreases b,
{
    if a < b {
        lemma_pow16_mono(a, (b - 1) as nat);
    }
}

proof fn lemma_hex_val_bound(s: Seq<char>)
    requires
        all_hex(s),
    ensures
        hex_val(s) < pow16(s.len()),
    decreases s.len(),
{
    if s.len() > 0 {
        assert(is_hex_char(s[s.len() - 1]));
        lemma_hex_val_bound(s.drop_last());
    }
}

fn digit_of(c: char) -> (r: Option<u8>)
    ensures
        r is Some <==> is_hex_char(c),
        r matches Some(d) ==> d as nat == digit_value(c) && d < 16,
{
    let u = c as u32;
    if 48 <= u && u <= 57 {
        Some((u - 48) as u8)
    } else if 97 <= u && u <= 102 {
        Some((u - 87) as u8)
    } else if 65 <= u && u <= 70 {
        Some((u - 55) as u8)
    } else {
        None
    }
}

/// The number spelt by the hex digits of `s` from `from` up to `to`.
fn hex_chunk(s: &str, from: usize, to: usize) -> (r: u64)
    requires
        from <= to <= s@.len(),
        to - from <= 16,
        all_hex(s@.subrange(from as int, to as int)),
    ensures
        r as nat == hex_val(s@.subrange(from as int, to as int)),
        (r as nat) < pow16((to - from) as nat),
{
    proof {
        reveal_with_fuel(pow16, 17);
        assert(pow16(16) == 0x1_0000_0000_0000_0000);
    }
    let mut acc: u64 = 0;
    let mut i: usize = from;
    while i < to
        invariant
            from <= i <= to <= s@.len(),
            to - from <= 16,
            all_hex(s@.subrange(from as int, to as int)),
            pow16(16) == 0x1_0000_0000_0000_0000,
            acc as nat == hex_val(s@.subrange(from as int, i as int)),
            (acc as nat) < pow16((i - from) as nat),
        decreases to - i,
    {
        let c = s.get_char(i);
        assert(s@.subrange(from as int, to as int)[i - from] == c);
        let d = match digit_of(c) {
            Some(d) => d,
            None => 0,
        };
        proof {
            assert(s@.subrange(from as int, i + 1).drop_last() =~= s@.subrange(from as int, i as int));
            lemma_pow16_mono((i + 1 - from) as nat, 16);
            assert(pow16((i + 1 - from) as nat) == 16 * pow16((i - from) as nat));
        }
        acc = acc * 16 + d as u64;
        i = i + 1;
    }
    acc
}

/// Reads an account address: forty hex digits of either case, with or without `0x` before them.
pub fn parse_address(s: &str) -> (r: Result<Address, AddressError>)
    ensures
        address_digits(s@).len() != 40 <==> r == Err::<Address, AddressError>(AddressError::BadLength),
        address_digits(s@).len() == 40 && !all_hex(address_digits(s@)) <==> r == Err::<Address, AddressError>(
            AddressError::BadDigit,
        ),
        address_digits(s@).len() == 40 && all_hex(address_digits(s@)) ==> r == Ok::<Address, AddressError>(
            address_of(address_digits(s@)),
        ),
{
    let n = s.unicode_len();
    let start: usize = if n >= 2 && s.get_char(0) == '0' && s.get_char(1) == 'x' {
        2
    } else {
        0
    };
    let ghost d = address_digits(s@);
    assert(d =~= s@.subrange(start as int, n as int));
    if n - start != 40 {
        return Err(AddressError::BadLength);
    }
    let mut i: usize = start;
    while i < n
        invariant
            start <= i <= n,
            n == s@.len(),
            n - start == 40,
            d == address_digits(s@),
            d =~= s@.subrange(start as int, n as int),
            forall|j: int| 0 <= j < i - start ==> is_hex_char(#[trigger] d[j]),
        decreases n - i,
    {
        if digit_of(s.get_char(i)).is_none() {
            assert(!is_hex_char(d[i - start]));
            return Err(AddressError::BadDigit);
        }
        i = i + 1;
    }
    assert(all_hex(d));
    assert(s@.subrange(start as int, start + 8) =~= d.subrange(0, 8));
    assert(s@.subrange(start + 8, start + 24) =~= d.subrange(8, 24));
    assert(s@.subrange(start + 24, start + 40) =~= d.subrange(24, 40));
    assert(all_hex(s@.subrange(start as int, start + 8)));
    assert(all_hex(s@.subrange(start + 8, start + 24)));
    assert(all_hex(s@.subrange(start + 24, start + 40)));
    let hi = hex_chunk(s, start, start + 8);
    let mid = hex_chunk(s, start + 8, start + 24);
    let lo = hex_chunk(s, start + 24, start + 40);
    proof {
        reveal_with_fuel(pow16, 9);
        assert(pow16(8) == 0x1_0000_0000);
    }
    Ok(Address { hi: hi as u32, mid, lo })
}

fn hex_char_of(d: u8) -> (c: char)
    requires
        d < 16,
    ensures
        c == hex_char(d as nat),
{
    if d < 10 {
        (d + 48) as char
    } else {
        (d + 87) as char
    }
}

/// Appends the last `n` hex digits of `w`.
fn push_hex_digits(w: u64, n: usize, out: &mut Vec<char>)
    requires
        n <= 16,
    ensures
        final(out)@ == old(out)@ + hex_digits(w as nat, n as nat),
    decreases n,
{
    if n > 0 {
        push_hex_digits(w / 16, n - 1, out);
        let c = hex_char_of((w % 16) as u8);
        out.push(c);
        assert(out@ =~= old(out)@ + hex_digits(w as nat, n as nat));
    } else {
        assert(out@ =~= old(out)@ + hex_digits(w as nat, n as nat));
    }
}

/// Relies on std's `FromIterator<char>` for `String`: the string of exactly these characters.
#[verifier::external_body]
fn string_from_chars(v: Vec<char>) -> (r: String)
    ensures
        r@ == v@,
{
    v.into_iter().collect()
}

/// The text a caller receives for a hash: `0x` and its 64 lower-case hex digits.
pub fn hash_text_of(h: TxHash) -> (r: String)
    ensures
        r@ == hash_text(h),
{
    let mut out: Vec<char> = Vec::new();
    out.push('0');
    out.push('x');
    assert(out@ =~= seq!['0', 'x']);
    push_hex_digits(h.w0, 16, &mut out);
    push_hex_digits(h.w1, 16, &mut out);
    push_hex_digits(h.w2, 16, &mut out);
    push_hex_digits(h.w3, 16, &mut out);
    string_from_chars(out)
}

} // verus!
