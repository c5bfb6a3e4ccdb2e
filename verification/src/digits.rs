//! Decimal rendering and parsing of unsigned numbers.
//!
//! The config codec writes every number as its decimal digits followed by a
//! `';'` terminator; the inventory report writes bare decimal digits. Both
//! sides are specified here, together with the round-trip lemma: parsing an
//! encoded number yields the number back.

use vstd::prelude::*;

verus! {

/// The digit character for a value below ten.
pub open spec fn digit_char(d: nat) -> char {
    if d == 0 {
        '0'
    } else if d == 1 {
        '1'
    } else if d == 2 {
        '2'
    } else if d == 3 {
        '3'
    } else if d == 4 {
        '4'
    } else if d == 5 {
        '5'
    } else if d == 6 {
        '6'
    } else if d == 7 {
        '7'
    } else if d == 8 {
        '8'
    } else {
        '9'
    }
}

pub open spec fn is_digit_char(c: char) -> bool {
    c == '0' || c == '1' || c == '2' || c == '3' || c == '4' || c == '5' || c == '6' || c == '7'
        || c == '8' || c == '9'
}

/// The value of a digit character.
pub open spec fn digit_val(c: char) -> nat {
    if c == '0' {
        0
    } else if c == '1' {
        1
    } else if c == '2' {
        2
    } else if c == '3' {
        3
    } else if c == '4' {
        4
    } else if c == '5' {
        5
    } else if c == '6' {
        6
    } else if c == '7' {
        7
    } else if c == '8' {
        8
    } else {
        9
    }
}

/// The decimal digits of `v`, most significant first, no leading zero
/// except for `v == 0` itself.
pub open spec fn dec_seq(v: nat) -> Seq<char>
    decreases v,
{
    if v < 10 {
        seq![digit_char(v)]
    } else {
        dec_seq(v / 10).push(digit_char(v % 10))
    }
}

/// A number as the codec writes it: decimal digits and a `';'` terminator.
pub open spec fn enc_u64(v: nat) -> Seq<char> {
    dec_seq(v) + seq![';']
}

/// The value accumulated by reading the digit characters `ds` left to
/// right, starting from `acc`.
pub open spec fn digits_val(ds: Seq<char>, acc: nat) -> nat
    decreases ds.len(),
{
    if ds.len() == 0 {
        acc
    } else {
        digits_val(ds.drop_first(), acc * 10 + digit_val(ds[0]))
    }
}

/// Reads digits from position `i` with accumulator `acc` until a `';'`,
/// refusing an accumulator beyond `u64::MAX` and any other shape.
/// Returns the value and the position after the terminator.
pub open spec fn p_num(s: Seq<char>, i: int, acc: nat) -> Option<(nat, int)>
    decreases s.len() - i,
{
    if i < 0 || i >= s.len() {
        None
    } else if is_digit_char(s[i]) {
        if acc * 10 + digit_val(s[i]) > u64::MAX {
            None
        } else {
            p_num(s, i + 1, acc * 10 + digit_val(s[i]))
        }
    } else if s[i] == ';' {
        Some((acc, i + 1))
    } else {
        None
    }
}

/// Reads a terminated number at position `i`: at least one digit, then `';'`.
pub open spec fn p_u64(s: Seq<char>, i: int) -> Option<(nat, int)> {
    if 0 <= i < s.len() && is_digit_char(s[i]) {
        p_num(s, i, 0)
    } else {
        None
    }
}

pub proof fn lemma_digit_roundtrip(d: nat)
    requires
        d < 10,
    ensures
        is_digit_char(digit_char(d)),
        digit_val(digit_char(d)) == d,
        digit_char(d) != ';',
{
}

/// Every character of a decimal rendering is a digit.
pub proof fn lemma_dec_seq_digits(v: nat)
    ensures
        dec_seq(v).len() >= 1,
        forall|j: int| 0 <= j < dec_seq(v).len() ==> is_digit_char(#[trigger] dec_seq(v)[j]),
    decreases v,
{
    if v < 10 {
        lemma_digit_roundtrip(v);
    } else {
        lemma_dec_seq_digits(v / 10);
        lemma_digit_roundtrip(v % 10);
    }
}

/// Accumulating digits never shrinks the accumulator.
pub proof fn lemma_digits_val_mono(ds: Seq<char>, acc: nat)
    ensures
        digits_val(ds, acc) >= acc,
    decreases ds.len(),
{
    if ds.len() > 0 {
        lemma_digits_val_mono(ds.drop_first(), acc * 10 + digit_val(ds[0]));
    }
}

pub proof fn lemma_digits_val_push(ds: Seq<char>, c: char, acc: nat)
    ensures
        digits_val(ds.push(c), acc) == digits_val(ds, acc) * 10 + digit_val(c),
    decreases ds.len(),
{
    if ds.len() == 0 {
        assert(ds.push(c)[0] == c);
        assert(ds.push(c).drop_first() =~= Seq::<char>::empty());
        assert(digits_val(ds.push(c), acc) == digits_val(
            ds.push(c).drop_first(),
            acc * 10 + digit_val(c),
        ));
        assert(digits_val(Seq::<char>::empty(), acc * 10 + digit_val(c)) == acc * 10 + digit_val(
            c,
        ));
    } else {
        assert(ds.push(c)[0] == ds[0]);
        assert(ds.push(c).drop_first() =~= ds.drop_first().push(c));
        lemma_digits_val_push(ds.drop_first(), c, acc * 10 + digit_val(ds[0]));
    }
}

/// Reading the decimal rendering of `v` onto `acc` appends `v` to it in
/// base ten.
pub proof fn lemma_digits_val_dec_seq(v: nat, acc: nat)
    ensures
        digits_val(dec_seq(v), acc) == spec_combine(acc, v),
    decreases v,
{
    if v < 10 {
        lemma_digit_roundtrip(v);
        assert(dec_seq(v) == seq![digit_char(v)]);
        assert(dec_seq(v)[0] == digit_char(v));
        assert(dec_seq(v).drop_first() =~= Seq::<char>::empty());
        assert(digits_val(dec_seq(v), acc) == digits_val(
            dec_seq(v).drop_first(),
            acc * 10 + digit_val(digit_char(v)),
        ));
        assert(digits_val(Seq::<char>::empty(), acc * 10 + v) == acc * 10 + v);
    } else {
        lemma_digits_val_dec_seq(v / 10, acc);
        lemma_digit_roundtrip(v % 10);
        lemma_digits_val_push(dec_seq(v / 10), digit_char(v % 10), acc);
    }
}

/// `digits_val` restated by the digit structure of the number read.
pub open spec fn spec_combine(acc: nat, v: nat) -> nat
    decreases v,
{
    if v < 10 {
        acc * 10 + v
    } else {
        spec_combine(acc, v / 10) * 10 + v % 10
    }
}

pub proof fn lemma_combine_zero(v: nat)
    ensures
        spec_combine(0, v) == v,
    decreases v,
{
    if v >= 10 {
        lemma_combine_zero(v / 10);
    }
}

/// The number reader consumes exactly a block of `n` digits followed by a
/// `';'`, and yields the accumulated value.
pub proof fn lemma_p_num_digits(s: Seq<char>, i: int, acc: nat, n: int)
    requires
        0 <= i,
        0 <= n,
        i + n < s.len(),
        forall|j: int| i <= j < i + n ==> is_digit_char(#[trigger] s[j]),
        s[i + n] == ';',
        digits_val(s.subrange(i, i + n), acc) <= u64::MAX,
    ensures
        p_num(s, i, acc) == Some((digits_val(s.subrange(i, i + n), acc), i + n + 1)),
    decreases n,
{
    if n == 0 {
        assert(s.subrange(i, i) =~= Seq::<char>::empty());
        assert(!is_digit_char(';'));
    } else {
        let block = s.subrange(i, i + n);
        assert(block[0] == s[i]);
        let acc2 = acc * 10 + digit_val(s[i]);
        assert(block.drop_first() =~= s.subrange(i + 1, i + n));
        assert(digits_val(block, acc) == digits_val(s.subrange(i + 1, i + n), acc2));
        lemma_digits_val_mono(s.subrange(i + 1, i + n), acc2);
        assert(acc2 <= u64::MAX);
        lemma_p_num_digits(s, i + 1, acc2, n - 1);
    }
}

/// Round trip: at a position where the text holds `enc_u64(v)`, the reader
/// returns `v` and stops just past the terminator.
pub proof fn lemma_p_u64_enc(s: Seq<char>, i: int, v: nat)
    requires
        0 <= i,
        v <= u64::MAX,
        i + enc_u64(v).len() <= s.len(),
        s.subrange(i, i + enc_u64(v).len() as int) == enc_u64(v),
    ensures
        p_u64(s, i) == Some((v, i + enc_u64(v).len())),
{
    let n = dec_seq(v).len() as int;
    lemma_dec_seq_digits(v);
    assert forall|j: int| i <= j < i + n implies is_digit_char(#[trigger] s[j]) by {
        assert(s[j] == s.subrange(i, i + n + 1)[j - i]);
        assert(enc_u64(v)[j - i] == dec_seq(v)[j - i]);
    }
    assert(s[i + n] == s.subrange(i, i + n + 1)[n]);
    assert(enc_u64(v)[n] == ';');
    assert(s.subrange(i, i + n) =~= enc_u64(v).subrange(0, n));
    assert(enc_u64(v).subrange(0, n) =~= dec_seq(v));
    lemma_digits_val_dec_seq(v, 0);
    lemma_combine_zero(v);
    lemma_p_num_digits(s, i, 0, n);
    assert(s[i] == s.subrange(i, i + n + 1)[0]);
    assert(is_digit_char(s[i]));
}

/// A one-character string slice holding the digit `d`.
pub fn digit_str(d: u64) -> (r: &'static str)
    requires
        d < 10,
    ensures
        r@ =~= seq![digit_char(d as nat)],
{
    proof {
        reveal_strlit("0");
        reveal_strlit("1");
        reveal_strlit("2");
        reveal_strlit("3");
        reveal_strlit("4");
        reveal_strlit("5");
        reveal_strlit("6");
        reveal_strlit("7");
        reveal_strlit("8");
        reveal_strlit("9");
    }
    if d == 0 {
        "0"
    } else if d == 1 {
        "1"
    } else if d == 2 {
        "2"
    } else if d == 3 {
        "3"
    } else if d == 4 {
        "4"
    } else if d == 5 {
        "5"
    } else if d == 6 {
        "6"
    } else if d == 7 {
        "7"
    } else if d == 8 {
        "8"
    } else {
        "9"
    }
}

/// Appends the decimal rendering of `v` to `out`.
pub fn push_u64(out: &mut String, v: u64)
    ensures
        final(out)@ == old(out)@ + dec_seq(v as nat),
    decreases v,
{
    if v < 10 {
        out.append(digit_str(v));
    } else {
        push_u64(out, v / 10);
        out.append(digit_str(v % 10));
        assert(out@ =~= old(out)@ + dec_seq(v as nat));
    }
}

/// The decimal rendering of `v` as an owned string.
pub fn u64_to_string(v: u64) -> (r: String)
    ensures
        r@ == dec_seq(v as nat),
{
    let mut out = String::new();
    push_u64(&mut out, v);
    assert(out@ =~= dec_seq(v as nat));
    out
}

/// The digit value of `c`, or `None` for a non-digit.
pub fn digit_of(c: char) -> (r: Option<u64>)
    ensures
        is_digit_char(c) <==> r is Some,
        r is Some ==> r->0 == digit_val(c) && r->0 < 10,
{
    match c {
        '0' => Some(0),
        '1' => Some(1),
        '2' => Some(2),
        '3' => Some(3),
        '4' => Some(4),
        '5' => Some(5),
        '6' => Some(6),
        '7' => Some(7),
        '8' => Some(8),
        '9' => Some(9),
        _ => None,
    }
}

/// Reads a `';'`-terminated decimal number at position `i` of `s`,
/// exactly as the specification reader does.
pub fn take_u64(s: &str, i: usize) -> (r: Option<(u64, usize)>)
    requires
        i <= s@.len(),
    ensures
        match r {
            Some((v, j)) => p_u64(s@, i as int) == Some((v as nat, j as int)) && i < j <= s@.len(),
            None => p_u64(s@, i as int) is None,
        },
{
    let n = s.unicode_len();
    if i >= n {
        return None;
    }
    let first = s.get_char(i);
    if digit_of(first).is_none() {
        return None;
    }
    let mut acc: u64 = 0;
    let mut cur: usize = i;
    loop
        invariant
            i <= cur <= n,
            n == s@.len(),
            p_u64(s@, i as int) == p_num(s@, cur as int, acc as nat),
        decreases n - cur,
    {
        if cur >= n {
            return None;
        }
        let c = s.get_char(cur);
        match digit_of(c) {
            Some(d) => {
                if acc > (u64::MAX - d) / 10 {
                    assert((acc as nat) * 10 + (d as nat) > u64::MAX) by (nonlinear_arith)
                        requires
                            acc > (u64::MAX - d) / 10,
                            d < 10,
                    ;
                    return None;
                }
                assert((acc as nat) * 10 + (d as nat) <= u64::MAX) by (nonlinear_arith)
                    requires
                        acc <= (u64::MAX - d) / 10,
                        d < 10,
                ;
                acc = acc * 10 + d;
                cur = cur + 1;
            },
            None => {
                if c == ';' {
                    return Some((acc, cur + 1));
                } else {
                    return None;
                }
            },
        }
    }
}

} // verus!
