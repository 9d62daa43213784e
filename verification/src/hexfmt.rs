//! Lowercase hexadecimal rendering of content hashes.

use vstd::prelude::*;

verus! {

/// The lowercase hex digit for a value below sixteen.
pub open spec fn spec_hex_digit(d: int) -> char {
    if d == 0 {
        '0'
    } else if d == 1 {
        '1'
    } else if d == 2 {
        '2'
    } else if d == 3 {
        '3'
    } else if d == 4 {
        '4'
    } else if d == 5 {
        '5'
    } else if d == 6 {
        '6'
    } else if d == 7 {
        '7'
    } else if d == 8 {
        '8'
    } else if d == 9 {
        '9'
    } else if d == 10 {
        'a'
    } else if d == 11 {
        'b'
    } else if d == 12 {
        'c'
    } else if d == 13 {
        'd'
    } else if d == 14 {
        'e'
    } else {
        'f'
    }
}

/// Two lowercase hex digits for one byte.
pub open spec fn spec_hex_byte(b: u8) -> Seq<char> {
    seq![spec_hex_digit(b as int / 16), spec_hex_digit(b as int % 16)]
}

/// The lowercase hex rendering of a byte sequence, two digits per byte.
pub open spec fn spec_hex(s: Seq<u8>) -> Seq<char>
    decreases s.len(),
{
    if s.len() == 0 {
        Seq::empty()
    } else {
        spec_hex_byte(s.first()) + spec_hex(s.drop_first())
    }
}

fn hex_digit_char(d: u8) -> (c: char)
    requires
        d < 16,
    ensures
        c == spec_hex_digit(d as int),
{
    if d == 0 {
        '0'
    } else if d == 1 {
        '1'
    } else if d == 2 {
        '2'
    } else if d == 3 {
        '3'
    } else if d == 4 {
        '4'
    } else if d == 5 {
        '5'
    } else if d == 6 {
        '6'
    } else if d == 7 {
        '7'
    } else if d == 8 {
        '8'
    } else if d == 9 {
        '9'
    } else if d == 10 {
        'a'
    } else if d == 11 {
        'b'
    } else if d == 12 {
        'c'
    } else if d == 13 {
        'd'
    } else if d == 14 {
        'e'
    } else {
        'f'
    }
}

/// Appends the two hex digits of one byte.
pub fn push_hex_byte(out: &mut String, b: u8)
    ensures
        final(out)@ == old(out)@ + spec_hex_byte(b),
{
    let hi = hex_digit_char(b / 16);
    let lo = hex_digit_char(b % 16);
    crate::strutil::push_char(out, hi);
    crate::strutil::push_char(out, lo);
    proof {
        assert(out@ =~= old(out)@ + spec_hex_byte(b));
    }
}

/// Appends the hex rendering of `bytes[from..to]`.
pub fn push_hex_range(out: &mut String, bytes: &[u8; 32], from: usize, to: usize)
    requires
        from <= to,
        to <= 32,
    ensures
        final(out)@ == old(out)@ + spec_hex(bytes@.subrange(from as int, to as int)),
{
    let mut i: usize = from;
    while i < to
        invariant
            from <= i,
            i <= to,
            to <= 32,
            bytes@.len() == 32,
            out@ == old(out)@ + spec_hex(bytes@.subrange(from as int, i as int)),
        decreases to - i,
    {
        let b = bytes[i];
        push_hex_byte(out, b);
        proof {
            lemma_spec_hex_snoc(bytes@, from as int, i as int);
        }
        i = i + 1;
    }
}

proof fn lemma_spec_hex_snoc(s: Seq<u8>, from: int, i: int)
    requires
        0 <= from <= i,
        i < s.len(),
    ensures
        spec_hex(s.subrange(from, i + 1)) == spec_hex(s.subrange(from, i)) + spec_hex_byte(s[i]),
    decreases i - from,
{
    let longer = s.subrange(from, i + 1);
    let shorter = s.subrange(from, i);
    if from == i {
        assert(longer[0] == s[i]);
        assert(longer.drop_first() =~= Seq::<u8>::empty());
        assert(spec_hex(longer) == spec_hex_byte(s[i]) + spec_hex(Seq::<u8>::empty()));
        assert(spec_hex_byte(s[i]) + Seq::<char>::empty() =~= spec_hex_byte(s[i]));
        assert(spec_hex(shorter) + spec_hex_byte(s[i]) =~= spec_hex_byte(s[i]));
    } else {
        lemma_spec_hex_snoc(s, from + 1, i);
        assert(longer.drop_first() =~= s.subrange(from + 1, i + 1));
        assert(shorter.drop_first() =~= s.subrange(from + 1, i));
        assert(spec_hex(longer) == spec_hex_byte(s[from]) + spec_hex(s.subrange(from + 1, i + 1)));
        assert(spec_hex_byte(s[from]) + (spec_hex(s.subrange(from + 1, i)) + spec_hex_byte(s[i]))
            =~= (spec_hex_byte(s[from]) + spec_hex(s.subrange(from + 1, i))) + spec_hex_byte(s[i]));
    }
}

/// The hex rendering is two characters per byte.
pub proof fn lemma_hex_len(s: Seq<u8>)
    ensures
        spec_hex(s).len() == 2 * s.len(),
    decreases s.len(),
{
    if s.len() > 0 {
        lemma_hex_len(s.drop_first());
    }
}

proof fn lemma_hex_digit_injective(a: int, b: int)
    requires
        0 <= a < 16,
        0 <= b < 16,
        spec_hex_digit(a) == spec_hex_digit(b),
    ensures
        a == b,
{
}

/// Distinct byte sequences of one length render to distinct hex
/// strings: the hex rendering loses nothing of a content hash.
pub proof fn lemma_hex_injective(a: Seq<u8>, b: Seq<u8>)
    requires
        a.len() == b.len(),
        spec_hex(a) == spec_hex(b),
    ensures
        a == b,
    decreases a.len(),
{
    if a.len() > 0 {
        lemma_hex_len(a.drop_first());
        lemma_hex_len(b.drop_first());
        assert(spec_hex(a)[0] == spec_hex_digit(a.first() as int / 16));
        assert(spec_hex(a)[1] == spec_hex_digit(a.first() as int % 16));
        assert(spec_hex(b)[0] == spec_hex_digit(b.first() as int / 16));
        assert(spec_hex(b)[1] == spec_hex_digit(b.first() as int % 16));
        lemma_hex_digit_injective(a.first() as int / 16, b.first() as int / 16);
        lemma_hex_digit_injective(a.first() as int % 16, b.first() as int % 16);
        assert(a.first() == b.first());
        assert(spec_hex(a).subrange(2, spec_hex(a).len() as int) =~= spec_hex(a.drop_first()));
        assert(spec_hex(b).subrange(2, spec_hex(b).len() as int) =~= spec_hex(b.drop_first()));
        lemma_hex_injective(a.drop_first(), b.drop_first());
        assert(a =~= seq![a.first()] + a.drop_first());
        assert(b =~= seq![b.first()] + b.drop_first());
    } else {
        assert(a =~= b);
    }
}

/// Renders a 256-bit content hash as 64 lowercase hex characters.
pub fn format_hash(hash: &[u8; 32]) -> (r: String)
    ensures
        r@ == spec_hex(hash@),
{
    let mut r = String::new();
    push_hex_range(&mut r, hash, 0, 32);
    proof {
        assert(hash@.subrange(0, 32) =~= hash@);
    }
    r
}

} // verus!
