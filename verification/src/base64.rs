//! The Base64 text form (standard alphabet, `=` padding) in which public
//! keys and relay frames travel through the signalling server.

use vstd::prelude::*;

verus! {

/// The character of the standard alphabet for a 6-bit value.
pub open spec fn alphabet_char(v: u8) -> char {
    if v < 26 {
        ((v + 65) as u32) as char
    } else if v < 52 {
        ((v - 26 + 97) as u32) as char
    } else if v < 62 {
        ((v - 52 + 48) as u32) as char
    } else if v == 62 {
        '+'
    } else {
        '/'
    }
}

/// The value the decoder gives an alphabet character; any other character
/// (other than `=`, which is dropped) becomes 255.
pub open spec fn char_value(c: char) -> u8 {
    let u = c as u32;
    if 65 <= u && u <= 90 {
        (u - 65) as u8
    } else if 97 <= u && u <= 122 {
        (u - 97 + 26) as u8
    } else if 48 <= u && u <= 57 {
        (u - 48 + 52) as u8
    } else if u == 43 {
        62
    } else if u == 47 {
        63
    } else {
        255
    }
}

/// Number of bytes in the UTF-8 encoding of `c`.
pub open spec fn utf8_width(c: char) -> nat {
    let u = c as u32;
    if u < 0x80 {
        1
    } else if u < 0x800 {
        2
    } else if u < 0x10000 {
        3
    } else {
        4
    }
}

/// The values the decoder reads for one character of its input: the decoder
/// drops every `=`, then maps each byte of the UTF-8 text, so a non-ASCII
/// character yields one 255 per byte of its encoding.
pub open spec fn char_values(c: char) -> Seq<u8> {
    if c == '=' {
        seq![]
    } else if (c as u32) < 0x80 {
        seq![char_value(c)]
    } else {
        Seq::new(utf8_width(c), |i: int| 255u8)
    }
}

/// The values the decoder reads for a whole text.
pub open spec fn text_values(s: Seq<char>) -> Seq<u8>
    decreases s.len(),
{
    if s.len() == 0 {
        seq![]
    } else {
        text_values(s.drop_last()) + char_values(s.last())
    }
}

pub open spec fn sextet0(b0: u8) -> u8 {
    b0 >> 2
}

pub open spec fn sextet1(b0: u8, b1: u8) -> u8 {
    ((b0 & 3) << 4) | (b1 >> 4)
}

pub open spec fn sextet2(b1: u8, b2: u8) -> u8 {
    ((b1 & 15) << 2) | (b2 >> 6)
}

pub open spec fn sextet3(b2: u8) -> u8 {
    b2 & 63
}

/// The four characters that encode the group starting at `data[0]`
/// (one to three bytes; missing bytes count as zero and give `=`).
pub open spec fn encode_group(data: Seq<u8>) -> Seq<char> {
    let b0 = data[0];
    let b1 = if data.len() > 1 { data[1] } else { 0u8 };
    let b2 = if data.len() > 2 { data[2] } else { 0u8 };
    seq![
        alphabet_char(sextet0(b0)),
        alphabet_char(sextet1(b0, b1)),
        if data.len() > 1 { alphabet_char(sextet2(b1, b2)) } else { '=' },
        if data.len() > 2 { alphabet_char(sextet3(b2)) } else { '=' },
    ]
}

/// Base64 text of `data`.
pub open spec fn encode_spec(data: Seq<u8>) -> Seq<char>
    decreases data.len(),
{
    if data.len() == 0 {
        seq![]
    } else if data.len() <= 3 {
        encode_group(data)
    } else {
        encode_group(data) + encode_spec(data.skip(3))
    }
}

/// The bytes that one group of (up to) four values decodes to; a lone value
/// decodes to nothing.
pub open spec fn decode_group(v: Seq<u8>) -> Seq<u8> {
    if v.len() < 2 {
        seq![]
    } else if v.len() == 2 {
        seq![(v[0] << 2) | (v[1] >> 4)]
    } else if v.len() == 3 {
        seq![(v[0] << 2) | (v[1] >> 4), (v[1] << 4) | (v[2] >> 2)]
    } else {
        seq![(v[0] << 2) | (v[1] >> 4), (v[1] << 4) | (v[2] >> 2), (v[2] << 6) | v[3]]
    }
}

/// Bytes decoded from a value sequence, four values at a time.
pub open spec fn decode_values(v: Seq<u8>) -> Seq<u8>
    decreases v.len(),
{
    if v.len() < 2 {
        seq![]
    } else if v.len() <= 4 {
        decode_group(v)
    } else {
        decode_group(v.take(4)) + decode_values(v.skip(4))
    }
}

/// Bytes that the decoder returns for text `s`.
pub open spec fn decode_spec(s: Seq<char>) -> Seq<u8> {
    decode_values(text_values(s))
}

fn alphabet(v: u8) -> (c: char)
    requires
        v < 64,
    ensures
        c == alphabet_char(v),
{
    if v < 26 {
        let u: u32 = (v + 65) as u32;
        char_from_ascii(u)
    } else if v < 52 {
        let u: u32 = (v - 26 + 97) as u32;
        char_from_ascii(u)
    } else if v < 62 {
        let u: u32 = (v - 52 + 48) as u32;
        char_from_ascii(u)
    } else if v == 62 {
        '+'
    } else {
        '/'
    }
}

fn char_from_ascii(u: u32) -> (c: char)
    requires
        u < 128,
    ensures
        c == (u as char),
{
    let b: u8 = u as u8;
    b as char
}

proof fn lemma_sextets_below_64(b0: u8, b1: u8, b2: u8)
    by (bit_vector)
    ensures
        sextet0(b0) < 64,
        sextet1(b0, b1) < 64,
        sextet2(b1, b2) < 64,
        sextet3(b2) < 64,
{
}

/// Base64 text of `data` (standard alphabet, `=` padding).
pub fn base64_encode(data: &[u8]) -> (out: String)
    ensures
        out@ == encode_spec(data@),
{
    let mut out = String::new();
    let n: usize = data.len();
    let mut i: usize = 0;
    assert(data@.skip(0) == data@);
    assert(out@ + encode_spec(data@) =~= encode_spec(data@));
    while i < n
        invariant
            n == data@.len(),
            i <= n,
            out@ + encode_spec(data@.skip(i as int)) == encode_spec(data@),
        decreases n - i,
    {
        let rest = Ghost(data@.skip(i as int));
        let b0: u8 = data[i];
        let left: usize = n - i;
        let b1: u8 = if left > 1 { data[i + 1] } else { 0 };
        let b2: u8 = if left > 2 { data[i + 2] } else { 0 };
        proof {
            lemma_sextets_below_64(b0, b1, b2);
        }
        let s0: u8 = b0 >> 2;
        let s1: u8 = ((b0 & 3) << 4) | (b1 >> 4);
        let s2: u8 = ((b1 & 15) << 2) | (b2 >> 6);
        let s3: u8 = b2 & 63;
        let ghost before = out@;
        out.push(alphabet(s0));
        out.push(alphabet(s1));
        if left > 1 {
            out.push(alphabet(s2));
        } else {
            out.push('=');
        }
        if left > 2 {
            out.push(alphabet(s3));
        } else {
            out.push('=');
        }
        proof {
            let r = rest@;
            assert(r[0] == b0);
            assert(r.len() > 1 ==> r[1] == b1);
            assert(r.len() > 2 ==> r[2] == b2);
            assert(out@ == before + encode_group(r));
            if r.len() > 3 {
                assert(r.skip(3) == data@.skip(i + 3));
                assert(encode_spec(r) == encode_group(r) + encode_spec(r.skip(3)));
                assert(out@ + encode_spec(data@.skip(i + 3)) == before + encode_spec(r));
            } else {
                assert(encode_spec(r) == encode_group(r));
                assert(data@.skip(n as int) =~= Seq::<u8>::empty());
                assert(out@ + encode_spec(data@.skip(n as int)) =~= out@);
            }
        }
        if left > 3 {
            i = i + 3;
        } else {
            i = n;
        }
    }
    assert(data@.skip(i as int) =~= Seq::<u8>::empty());
    assert(out@ + Seq::<char>::empty() =~= out@);
    out
}

/// Value of one ASCII character for the decoder.
fn value_of(c: char) -> (v: u8)
    requires
        (c as u32) < 0x80,
    ensures
        v == char_value(c),
{
    let u: u32 = c as u32;
    if 65 <= u && u <= 90 {
        (u - 65) as u8
    } else if 97 <= u && u <= 122 {
        (u - 97 + 26) as u8
    } else if 48 <= u && u <= 57 {
        (u - 48 + 52) as u8
    } else if u == 43 {
        62
    } else if u == 47 {
        63
    } else {
        255
    }
}

/// The decoder's values for text `s` (see `text_values`).
fn values_of(s: &str) -> (vals: Vec<u8>)
    ensures
        vals@ == text_values(s@),
{
    let cs = crate::text::chars_of(s);
    let mut vals: Vec<u8> = Vec::new();
    let mut k: usize = 0;
    while k < cs.len()
        invariant
            k <= cs@.len(),
            cs@ == s@,
            vals@ == text_values(cs@.take(k as int)),
        decreases cs@.len() - k,
    {
        let c: char = cs[k];
        let ghost before = vals@;
        let u: u32 = c as u32;
        if c == '=' {
        } else if u < 0x80 {
            vals.push(value_of(c));
        } else {
            let w: usize = if u < 0x800 { 2 } else if u < 0x10000 { 3 } else { 4 };
            let mut j: usize = 0;
            while j < w
                invariant
                    j <= w,
                    w as nat == utf8_width(c),
                    (c as u32) >= 0x80,
                    vals@ == before + Seq::new(j as nat, |i: int| 255u8),
                decreases w - j,
            {
                vals.push(255u8);
                j = j + 1;
                assert(vals@ =~= before + Seq::new(j as nat, |i: int| 255u8));
            }
        }
        proof {
            let t = cs@.take(k + 1);
            assert(t.drop_last() == cs@.take(k as int));
            assert(t.last() == c);
            assert(vals@ =~= before + char_values(c));
        }
        k = k + 1;
    }
    assert(cs@.take(cs@.len() as int) == cs@);
    vals
}

/// Bytes of Base64 text `s`, decoded as the signalling client always has:
/// every `=` is dropped, each byte of the remaining UTF-8 text is mapped to
/// its alphabet value (255 for anything outside the alphabet), and each group
/// of four values gives up to three bytes; a trailing single value is ignored.
pub fn base64_decode(s: &str) -> (out: Vec<u8>)
    ensures
        out@ == decode_spec(s@),
{
    let vals = values_of(s);
    let n: usize = vals.len();
    let mut out: Vec<u8> = Vec::new();
    let mut i: usize = 0;
    assert(vals@.skip(0) == vals@);
    assert(out@ + decode_values(vals@) =~= decode_values(vals@));
    while i < n && n - i > 1
        invariant
            n == vals@.len(),
            i <= n,
            out@ + decode_values(vals@.skip(i as int)) == decode_values(vals@),
        decreases n - i,
    {
        let ghost rest = vals@.skip(i as int);
        let ghost before = out@;
        let b0: u8 = vals[i];
        let b1: u8 = vals[i + 1];
        let left: usize = n - i;
        out.push((b0 << 2) | (b1 >> 4));
        if left > 2 {
            let b2: u8 = vals[i + 2];
            out.push((b1 << 4) | (b2 >> 2));
            if left > 3 {
                let b3: u8 = vals[i + 3];
                out.push((b2 << 6) | b3);
            }
        }
        proof {
            if rest.len() > 4 {
                assert(rest.take(4) =~= seq![rest[0], rest[1], rest[2], rest[3]]);
                assert(rest.skip(4) == vals@.skip(i + 4));
                assert(out@ =~= before + decode_group(rest.take(4)));
            } else {
                assert(out@ =~= before + decode_group(rest));
                assert(vals@.skip(n as int) =~= Seq::<u8>::empty());
                assert(out@ + decode_values(vals@.skip(n as int)) =~= out@);
            }
        }
        if left > 4 {
            i = i + 4;
        } else {
            i = n;
        }
    }
    proof {
        let rest = vals@.skip(i as int);
        assert(rest.len() < 2);
        assert(out@ + Seq::<u8>::empty() =~= out@);
    }
    out
}

proof fn lemma_text_values_concat(a: Seq<char>, b: Seq<char>)
    ensures
        text_values(a + b) == text_values(a) + text_values(b),
    decreases b.len(),
{
    if b.len() == 0 {
        assert(a + b =~= a);
        assert(text_values(a) + Seq::<u8>::empty() =~= text_values(a));
    } else {
        lemma_text_values_concat(a, b.drop_last());
        assert((a + b).drop_last() =~= a + b.drop_last());
        assert((a + b).last() == b.last());
        assert(text_values(a) + text_values(b.drop_last()) + char_values(b.last())
            =~= text_values(a) + (text_values(b.drop_last()) + char_values(b.last())));
    }
}

proof fn lemma_alphabet(v: u8)
    requires
        v < 64,
    ensures
        alphabet_char(v) != '=',
        (alphabet_char(v) as u32) < 0x80,
        char_values(alphabet_char(v)) == seq![v],
{
    let c = alphabet_char(v);
    if v < 26 {
        assert((c as u32) == v + 65);
    } else if v < 52 {
        assert((c as u32) == v - 26 + 97);
    } else if v < 62 {
        assert((c as u32) == v - 52 + 48);
    }
}

proof fn lemma_group_bits(b0: u8, b1: u8, b2: u8)
    by (bit_vector)
    ensures
        ((b0 >> 2) << 2) | ((((b0 & 3) << 4) | (b1 >> 4)) >> 4) == b0,
        ((((b0 & 3) << 4) | (b1 >> 4)) << 4) | ((((b1 & 15) << 2) | (b2 >> 6)) >> 2) == b1,
        ((((b1 & 15) << 2) | (b2 >> 6)) << 6) | (b2 & 63) == b2,
{
}

proof fn lemma_four_values(c0: char, c1: char, c2: char, c3: char)
    ensures
        text_values(seq![c0, c1, c2, c3])
            == char_values(c0) + char_values(c1) + char_values(c2) + char_values(c3),
{
    let s = seq![c0, c1, c2, c3];
    assert(s.drop_last() =~= seq![c0, c1, c2]);
    assert(seq![c0, c1, c2].drop_last() =~= seq![c0, c1]);
    assert(seq![c0, c1].drop_last() =~= seq![c0]);
    assert(seq![c0].drop_last() =~= Seq::<char>::empty());
    assert(text_values(Seq::<char>::empty()) == Seq::<u8>::empty());
    assert(text_values(seq![c0]) == text_values(Seq::<char>::empty()) + char_values(c0));
    assert(Seq::<u8>::empty() + char_values(c0) =~= char_values(c0));
    assert(text_values(seq![c0, c1]) == text_values(seq![c0]) + char_values(c1));
    assert(text_values(seq![c0, c1, c2]) == text_values(seq![c0, c1]) + char_values(c2));
    assert(text_values(s) == text_values(seq![c0, c1, c2]) + char_values(c3));
}

/// The values the decoder reads for one encoded group, and the bytes they
/// decode to.
proof fn lemma_group_roundtrip(d: Seq<u8>)
    requires
        d.len() >= 1,
    ensures
        d.len() >= 3 ==> text_values(encode_group(d)).len() == 4,
        d.len() < 3 ==> text_values(encode_group(d)).len() == d.len() + 1,
        decode_group(text_values(encode_group(d))) == d.take(if d.len() < 3 { d.len() as int } else { 3 }),
{
    let b0 = d[0];
    let b1 = if d.len() > 1 { d[1] } else { 0u8 };
    let b2 = if d.len() > 2 { d[2] } else { 0u8 };
    lemma_sextets_below_64(b0, b1, b2);
    lemma_group_bits(b0, b1, b2);
    lemma_alphabet(sextet0(b0));
    lemma_alphabet(sextet1(b0, b1));
    lemma_alphabet(sextet2(b1, b2));
    lemma_alphabet(sextet3(b2));
    let g = encode_group(d);
    lemma_four_values(g[0], g[1], g[2], g[3]);
    assert(g =~= seq![g[0], g[1], g[2], g[3]]);
    let v = text_values(g);
    if d.len() >= 3 {
        assert(v =~= seq![sextet0(b0), sextet1(b0, b1), sextet2(b1, b2), sextet3(b2)]);
        assert(decode_group(v) =~= d.take(3));
    } else if d.len() == 2 {
        assert(char_values('=') =~= Seq::<u8>::empty());
        assert(v =~= seq![sextet0(b0), sextet1(b0, b1), sextet2(b1, b2)]);
        assert(decode_group(v) =~= d.take(2));
    } else {
        assert(char_values('=') =~= Seq::<u8>::empty());
        assert(v =~= seq![sextet0(b0), sextet1(b0, b1)]);
        assert(decode_group(v) =~= d.take(1));
    }
}

proof fn lemma_encoded_values_len(data: Seq<u8>)
    ensures
        data.len() > 0 ==> text_values(encode_spec(data)).len() >= 2,
    decreases data.len(),
{
    if data.len() > 0 {
        lemma_group_roundtrip(data);
        if data.len() > 3 {
            lemma_text_values_concat(encode_group(data), encode_spec(data.skip(3)));
        }
    }
}

/// Decoding the Base64 text of any byte string gives that byte string back.
pub proof fn base64_roundtrip(data: Seq<u8>)
    ensures
        decode_spec(encode_spec(data)) == data,
    decreases data.len(),
{
    if data.len() == 0 {
        assert(text_values(Seq::<char>::empty()) =~= Seq::<u8>::empty());
        assert(data =~= Seq::<u8>::empty());
    } else if data.len() <= 3 {
        lemma_group_roundtrip(data);
        assert(data.take(data.len() as int) =~= data);
    } else {
        let g = encode_group(data);
        let rest = data.skip(3);
        lemma_group_roundtrip(data);
        lemma_text_values_concat(g, encode_spec(rest));
        base64_roundtrip(rest);
        lemma_encoded_values_len(rest);
        let v = text_values(g) + text_values(encode_spec(rest));
        assert(v.take(4) =~= text_values(g));
        assert(v.skip(4) =~= text_values(encode_spec(rest)));
        assert(decode_values(v) == decode_group(text_values(g)) + decode_values(text_values(encode_spec(rest))));
        assert(data.take(3) + rest =~= data);
    }
}

} // verus!
