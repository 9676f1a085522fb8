//! Small text and byte builders: owned copies of literals, decimal digits
//! of numbers, and byte strings put together from pieces.
use vstd::prelude::*;
use vstd::utf8::encode_utf8;
use crate::address::push_char;

verus! {

/// The UTF-8 bytes of several texts, one after another.
pub open spec fn concat_utf8(words: Seq<String>) -> Seq<u8>
    decreases words.len(),
{
    if words.len() == 0 {
        Seq::empty()
    } else {
        concat_utf8(words.drop_last()) + encode_utf8(words.last()@)
    }
}

/// The first `n` bytes of `s`, or all of them when it is shorter.
pub open spec fn front(s: Seq<u8>, n: int) -> Seq<u8> {
    if s.len() < n {
        s
    } else {
        s.take(n)
    }
}

/// Appends the bytes of a slice.
pub fn push_all(v: &mut Vec<u8>, s: &[u8])
    ensures
        final(v)@ == old(v)@ + s@,
{
    let ghost v0 = v@;
    let n = s.len();
    let mut i: usize = 0;
    while i < n
        invariant
            n == s@.len(),
            i <= n,
            v@ == v0 + s@.subrange(0, i as int),
        decreases n - i,
    {
        v.push(s[i]);
        i = i + 1;
        proof {
            assert(v@ =~= v0 + s@.subrange(0, i as int));
        }
    }
    proof {
        assert(s@.subrange(0, n as int) =~= s@);
    }
}

/// A copy of a byte vector.
pub fn clone_bytes(s: &Vec<u8>) -> (r: Vec<u8>)
    ensures
        r@ == s@,
{
    let mut r: Vec<u8> = Vec::new();
    push_all(&mut r, s.as_slice());
    r
}


/// An owned copy of a string.
pub fn text(s: &str) -> (r: String)
    ensures
        r@ == s@,
{
    String::from_str(s)
}

/// Appends a text.
pub fn push_text(out: &mut String, t: &str)
    ensures
        final(out)@ == old(out)@ + t@,
{
    let ghost o0 = out@;
    let n = t.unicode_len();
    let mut i: usize = 0;
    while i < n
        invariant
            n == t@.len(),
            i <= n,
            out@ == o0 + t@.take(i as int),
        decreases n - i,
    {
        push_char(out, t.get_char(i));
        i = i + 1;
        proof {
            assert(out@ =~= o0 + t@.take(i as int));
        }
    }
    proof {
        assert(t@.take(n as int) =~= t@);
    }
}

/// The decimal digit character of a value below ten.
pub open spec fn digit_char(d: int) -> char {
    (48 + d) as char
}

/// The decimal text of a natural number, without leading zeros.
pub open spec fn decimal(n: nat) -> Seq<char>
    decreases n,
{
    if n < 10 {
        seq![digit_char(n as int)]
    } else {
        decimal(n / 10).push(digit_char((n % 10) as int))
    }
}

/// Appends the decimal text of `n`.
pub fn push_decimal(out: &mut String, n: u64)
    ensures
        final(out)@ == old(out)@ + decimal(n as nat),
    decreases n,
{
    if n >= 10 {
        push_decimal(out, n / 10);
    }
    let d = (n % 10) as u8;
    push_char(out, (48u8 + d) as char);
    proof {
        if n < 10 {
            assert(decimal(n as nat) =~= seq![digit_char(n as int)]);
        }
    }
}

} // verus!
