//! Small helpers shared by the editor.
use vstd::prelude::*;
use vstd::string::StringExecFns;

verus! {

/// The lowercase hex digit of `d`.
pub open spec fn hex_char(d: int) -> char {
    if d < 10 {
        (48 + d) as char
    } else {
        (87 + d) as char
    }
}

/// Whether `num` lies between `a` and `b`, both included, whichever of them is larger.
pub fn is_between(num: isize, a: isize, b: isize) -> (r: bool)
    ensures
        r == ((a <= num && num <= b) || (b <= num && num <= a)),
{
    let (smaller, larger) = if a < b {
        (a, b)
    } else {
        (b, a)
    };
    (smaller <= num) && (num <= larger)
}

/// The lowercase hex digit of a value below sixteen.
pub fn u4_to_hex(b: u8) -> (r: char)
    requires
        b < 16,
    ensures
        r == hex_char(b as int),
{
    if b < 10 {
        (48u8 + b) as char
    } else {
        (87u8 + b) as char
    }
}

/// The two lowercase hex digits of a byte, the high one first.
pub fn u8_to_hex(b: u8) -> (r: (char, char))
    ensures
        r.0 == hex_char(b as int / 16),
        r.1 == hex_char(b as int % 16),
{
    (u4_to_hex(b / 16), u4_to_hex(b % 16))
}

/// Copy `src` over `dest`, which has the same length.
pub fn slice_set(dest: &mut [u8], src: &[u8])
    requires
        old(dest)@.len() == src@.len(),
    ensures
        final(dest)@ == src@,
{
    let mut i: usize = 0;
    while i < src.len()
        invariant
            i <= src@.len(),
            dest@.len() == src@.len(),
            forall|k: int| 0 <= k < i ==> dest@[k] == src@[k],
        decreases src@.len() - i,
    {
        dest[i] = src[i];
        i = i + 1;
    }
    proof {
        assert(dest@ =~= src@);
    }
}

/// Whether two byte sequences are equal, element by element.
pub fn iter_equals(a: &[u8], b: &[u8]) -> (r: bool)
    ensures
        r == (a@ == b@),
{
    if a.len() != b.len() {
        return false;
    }
    let mut i: usize = 0;
    while i < a.len()
        invariant
            i <= a@.len(),
            a@.len() == b@.len(),
            forall|k: int| 0 <= k < i ==> a@[k] == b@[k],
        decreases a@.len() - i,
    {
        if a[i] != b[i] {
            return false;
        }
        i = i + 1;
    }
    proof {
        assert(a@ =~= b@);
    }
    true
}

/// A string of `n` copies of the ASCII character `c`.
pub fn string_with_repeat(c: char, n: usize) -> (r: String)
    requires
        (c as u32) < 128,
    ensures
        r@ == Seq::new(n as nat, |_i: int| c),
{
    let mut v: Vec<u8> = Vec::new();
    let mut i: usize = 0;
    while i < n
        invariant
            i <= n,
            v@ == Seq::new(i as nat, |_k: int| c as u8),
        decreases n - i,
    {
        v.push(c as u8);
        i = i + 1;
        proof {
            assert(v@ =~= Seq::new(i as nat, |_k: int| c as u8));
        }
    }
    let r = ascii_string(v);
    proof {
        assert(((c as u8) as char) == c);
        assert(r@ =~= Seq::new(n as nat, |_i: int| c));
    }
    r
}

/// The characters of an ASCII byte string, one per byte.
pub open spec fn ascii_chars(bytes: Seq<u8>) -> Seq<char> {
    bytes.map_values(|b: u8| b as char)
}

/// Relies on `String::from_utf8`: ASCII bytes are valid UTF-8, and the string holds one
/// character per byte.
#[verifier::external_body]
pub(crate) fn ascii_string(bytes: Vec<u8>) -> (r: String)
    requires
        forall|k: int| 0 <= k < bytes@.len() ==> bytes@[k] < 128,
    ensures
        r@ == ascii_chars(bytes@),
{
    match String::from_utf8(bytes) {
        Ok(s) => s,
        Err(_) => String::new(),
    }
}

/// The decimal digits of `n`, most significant first, without leading zeros.
pub open spec fn decimal_digits(n: nat) -> Seq<char>
    decreases n,
{
    if n < 10 {
        seq![hex_char(n as int)]
    } else {
        decimal_digits(n / 10).push(hex_char((n % 10) as int))
    }
}

/// `n` written in decimal, with a leading minus sign when it is negative.
pub open spec fn decimal_text(n: int) -> Seq<char> {
    if n < 0 {
        seq!['-'] + decimal_digits((-n) as nat)
    } else {
        decimal_digits(n as nat)
    }
}

/// Append the decimal digits of `m` to `out`, as ASCII bytes.
fn push_digits(m: u128, out: &mut Vec<u8>)
    requires
        forall|k: int| 0 <= k < old(out)@.len() ==> old(out)@[k] < 128,
    ensures
        forall|k: int| 0 <= k < final(out)@.len() ==> final(out)@[k] < 128,
        ascii_chars(final(out)@) == ascii_chars(old(out)@) + decimal_digits(m as nat),
    decreases m,
{
    let ghost start = out@;
    if m >= 10 {
        push_digits(m / 10, out);
    }
    let ghost mid = out@;
    let d = (m % 10) as u8;
    out.push(48 + d);
    proof {
        assert(ascii_chars(out@) =~= ascii_chars(mid).push(hex_char(d as int)));
        if m >= 10 {
            assert(ascii_chars(out@) =~= ascii_chars(start) + decimal_digits(m as nat));
        } else {
            assert(mid == start);
            assert(ascii_chars(out@) =~= ascii_chars(start) + decimal_digits(m as nat));
        }
    }
}

/// `n` written in decimal, with a leading minus sign when it is negative.
pub(crate) fn decimal(n: i128) -> (r: String)
    ensures
        r@ == decimal_text(n as int),
{
    let mut out: Vec<u8> = Vec::new();
    let m: u128 = if n < 0 {
        out.push(45);
        ((-(n + 1)) as u128) + 1
    } else {
        n as u128
    };
    let ghost sign = out@;
    push_digits(m, &mut out);
    let r = ascii_string(out);
    proof {
        if n < 0 {
            assert(ascii_chars(sign) =~= seq!['-']);
        } else {
            assert(ascii_chars(sign) =~= Seq::<char>::empty());
        }
        assert(r@ =~= decimal_text(n as int));
    }
    r
}

/// The two strings one after the other.
pub(crate) fn concat(a: &str, b: &str) -> (r: String)
    ensures
        r@ == a@ + b@,
{
    let mut s = <String as StringExecFns>::from_str(a);
    s.append(b);
    s
}

} // verus!
