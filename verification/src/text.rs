//! Length-prefixed UTF-16 strings.
//!
//! On the wire a string is a signed 16-bit code-unit count followed by that
//! many big-endian 16-bit UTF-16 code units. The UTF-16 encoding itself is
//! specified here from first principles (`utf16_units`, `utf16_decode`) and
//! both directions are implemented as verified code; the two are tied
//! together by `lemma_utf16_decode_of_units`, which is what makes string
//! round trips provable at the packet level.

use vstd::prelude::*;
use vstd::string::StrSliceExecFns;

use crate::codec::{
    parse_i16, spec_be2, u16_of, DecodeError, EncodeError, Reader, write_u16,
};

verus! {

/// The UTF-16 code units of one Unicode scalar value: one unit below
/// `0x10000`, otherwise a surrogate pair.
pub open spec fn utf16_of_char(c: char) -> Seq<u16> {
    if (c as int) < 0x10000 {
        seq![c as u16]
    } else {
        seq![
            (0xD800 + ((c as int) - 0x10000) / 0x400) as u16,
            (0xDC00 + ((c as int) - 0x10000) % 0x400) as u16,
        ]
    }
}

/// The UTF-16 code units of a character sequence.
pub open spec fn utf16_units(s: Seq<char>) -> Seq<u16>
    decreases s.len(),
{
    if s.len() == 0 {
        Seq::empty()
    } else {
        utf16_of_char(s[0]) + utf16_units(s.skip(1))
    }
}

/// A code unit that is a character of the basic plane by itself.
pub open spec fn is_bmp(u: u16) -> bool {
    u < 0xD800 || u >= 0xE000
}

pub open spec fn is_high_surrogate(u: u16) -> bool {
    0xD800 <= u && u < 0xDC00
}

pub open spec fn is_low_surrogate(u: u16) -> bool {
    0xDC00 <= u && u < 0xE000
}

/// The scalar value of a surrogate pair.
pub open spec fn combine_surrogates(h: u16, l: u16) -> char {
    (0x10000 + ((h as int) - 0xD800) * 0x400 + ((l as int) - 0xDC00)) as char
}

/// A Unicode scalar value: what every `char` holds at run time. Stated
/// explicitly because a spec-level `Seq<char>` does not carry the type's
/// invariant by itself.
pub open spec fn scalar_char(c: char) -> bool {
    0 <= (c as int) && ((c as int) < 0xD800 || (0xE000 <= (c as int) && (c as int) <= 0x10FFFF))
}

/// Every character of the sequence is a Unicode scalar value.
pub open spec fn valid_chars(s: Seq<char>) -> bool {
    forall|i: int| 0 <= i < s.len() ==> scalar_char(#[trigger] s[i])
}

/// Decoding a sequence of UTF-16 code units; `None` on a lone or misordered
/// surrogate.
pub open spec fn utf16_decode(us: Seq<u16>) -> Option<Seq<char>>
    decreases us.len(),
{
    if us.len() == 0 {
        Some(Seq::empty())
    } else if is_bmp(us[0]) {
        match utf16_decode(us.skip(1)) {
            Some(rest) => Some(seq![us[0] as char] + rest),
            None => None,
        }
    } else if is_high_surrogate(us[0]) {
        if us.len() >= 2 && is_low_surrogate(us[1]) {
            match utf16_decode(us.skip(2)) {
                Some(rest) => Some(seq![combine_surrogates(us[0], us[1])] + rest),
                None => None,
            }
        } else {
            None
        }
    } else {
        None
    }
}

/// Encoding distributes over concatenation.
pub proof fn lemma_utf16_units_append(a: Seq<char>, b: Seq<char>)
    ensures
        utf16_units(a + b) == utf16_units(a) + utf16_units(b),
    decreases a.len(),
{
    if a.len() == 0 {
        assert(a + b =~= b);
        assert(utf16_units(a) + utf16_units(b) =~= utf16_units(b));
    } else {
        assert((a + b).skip(1) =~= a.skip(1) + b);
        lemma_utf16_units_append(a.skip(1), b);
        assert(utf16_units(a + b) =~= utf16_units(a) + utf16_units(b));
    }
}

/// Decoding inverts encoding: every character sequence is recovered exactly
/// from its own code units.
pub proof fn lemma_utf16_decode_of_units(s: Seq<char>)
    requires
        valid_chars(s),
    ensures
        utf16_decode(utf16_units(s)) == Some(s),
    decreases s.len(),
{
    if s.len() == 0 {
    } else {
        let c = s[0];
        assert(scalar_char(c));
        let us = utf16_units(s);
        assert(valid_chars(s.skip(1))) by {
            assert forall|i: int| 0 <= i < s.skip(1).len() implies scalar_char(
                s.skip(1)[i],
            ) by {
                assert(s.skip(1)[i] == s[i + 1]);
            }
        }
        lemma_utf16_decode_of_units(s.skip(1));
        if (c as int) < 0x10000 {
            assert(us[0] == c as u16);
            assert(is_bmp(us[0]));
            assert(us.skip(1) =~= utf16_units(s.skip(1)));
            assert(us[0] as char == c);
            assert(seq![c] + s.skip(1) =~= s);
        } else {
            let v = (c as int) - 0x10000;
            assert(0 <= v < 0x100000);
            assert(0 <= v / 0x400 < 0x400) by (nonlinear_arith)
                requires
                    0 <= v < 0x100000,
            ;
            assert(0 <= v % 0x400 < 0x400);
            let h = (0xD800 + v / 0x400) as u16;
            let l = (0xDC00 + v % 0x400) as u16;
            assert(us[0] == h && us[1] == l);
            assert(is_high_surrogate(h));
            assert(is_low_surrogate(l));
            assert(us.skip(2) =~= utf16_units(s.skip(1)));
            assert((v / 0x400) * 0x400 + v % 0x400 == v) by {
                vstd::arithmetic::div_mod::lemma_fundamental_div_mod(v, 0x400);
            }
            assert(combine_surrogates(h, l) == c);
            assert(seq![c] + s.skip(1) =~= s);
        }
    }
}

// ---------------------------------------------------------------------------
// Exec conversions between `str`/`String` and code units.
// ---------------------------------------------------------------------------

/// Relies on char::from_u32: it returns `Some` exactly on Unicode scalar
/// values (code points outside the surrogate range and at most 0x10FFFF),
/// and the returned character is that code point.
#[verifier::external_body]
fn char_from_u32(u: u32) -> (r: Option<char>)
    ensures
        r is Some <==> (u < 0xD800 || (0xE000 <= u && u <= 0x10FFFF)),
        r matches Some(c) ==> c as int == u as int,
{
    char::from_u32(u)
}

/// Relies on String::push: it appends the given character.
#[verifier::external_body]
fn push_char(s: &mut String, c: char)
    ensures
        final(s)@ == old(s)@ + seq![c],
{
    s.push(c);
}

/// The UTF-16 code units of a string.
pub fn encode_utf16_units(s: &str) -> (r: Vec<u16>)
    ensures
        r@ == utf16_units(s@),
        valid_chars(s@),
{
    let n = s.unicode_len();
    let mut out: Vec<u16> = Vec::new();
    let mut i: usize = 0;
    while i < n
        invariant
            i <= n,
            n == s@.len(),
            out@ == utf16_units(s@.take(i as int)),
            valid_chars(s@.take(i as int)),
        decreases n - i,
    {
        let c = s.get_char(i);
        proof {
            assert(scalar_char(c));
            assert(s@.take(i + 1) =~= s@.take(i as int) + seq![c]);
            lemma_utf16_units_append(s@.take(i as int), seq![c]);
            assert(seq![c].skip(1) =~= Seq::<char>::empty());
            assert(utf16_units(seq![c].skip(1)) =~= Seq::<u16>::empty());
            assert(utf16_units(seq![c]) =~= utf16_of_char(c));
        }
        if (c as u32) < 0x10000 {
            out.push(c as u16);
            proof {
                assert(out@ =~= utf16_units(s@.take(i as int)) + utf16_of_char(c));
            }
        } else {
            let v = (c as u32) - 0x10000;
            proof {
                assert(0 <= v / 0x400 < 0x400) by (nonlinear_arith)
                    requires
                        0 <= v < 0x100000,
                ;
            }
            out.push(0xD800 + (v / 0x400) as u16);
            out.push(0xDC00 + (v % 0x400) as u16);
            proof {
                assert(out@ =~= utf16_units(s@.take(i as int)) + utf16_of_char(c));
            }
        }
        proof {
            assert(valid_chars(s@.take(i + 1))) by {
                assert forall|k: int| 0 <= k < i + 1 implies scalar_char(
                    #[trigger] s@.take(i + 1)[k],
                ) by {
                    if k < i {
                        assert(s@.take(i + 1)[k] == s@.take(i as int)[k]);
                    } else {
                        assert(s@.take(i + 1)[k] == c);
                    }
                }
            }
        }
        i = i + 1;
    }
    proof {
        assert(s@.take(n as int) =~= s@);
    }
    out
}

/// Decodes UTF-16 code units into a string; fails exactly where
/// [`utf16_decode`] does.
pub fn decode_utf16_units(us: &Vec<u16>) -> (r: Result<String, DecodeError>)
    ensures
        match r {
            Ok(s) => utf16_decode(us@) == Some(s@),
            Err(e) => utf16_decode(us@) is None && e == DecodeError::InvalidUtf16,
        },
{
    let mut out = String::new();
    let mut i: usize = 0;
    proof {
        assert(us@.skip(0) =~= us@);
        if let Some(rest) = utf16_decode(us@) {
            assert(out@ + rest =~= rest);
        }
    }
    while i < us.len()
        invariant
            i <= us@.len(),
            utf16_decode(us@) == match utf16_decode(us@.skip(i as int)) {
                Some(rest) => Some(out@ + rest),
                None => None::<Seq<char>>,
            },
        decreases us@.len() - i,
    {
        let u = us[i];
        let ghost tail = us@.skip(i as int);
        proof {
            assert(tail[0] == us@[i as int]);
        }
        if u < 0xD800 || u >= 0xE000 {
            proof {
                assert(tail.skip(1) =~= us@.skip(i + 1));
            }
            match char_from_u32(u as u32) {
                Some(c) => {
                    proof {
                        assert((u as char) as int == u as int);
                        assert(c == u as char);
                        assert(is_bmp(tail[0]));
                        if let Some(r2) = utf16_decode(us@.skip(i + 1)) {
                            assert(utf16_decode(tail) == Some(seq![u as char] + r2));
                            assert(out@ + (seq![c] + r2) =~= (out@ + seq![c]) + r2);
                        }
                    }
                    push_char(&mut out, c);
                    i = i + 1;
                },
                None => {
                    proof {
                        assert(false);
                    }
                    return Err(DecodeError::InvalidUtf16);
                },
            }
        } else if u < 0xDC00 {
            if i + 1 < us.len() {
                let l = us[i + 1];
                proof {
                    assert(tail[1] == us@[i + 1]);
                }
                if 0xDC00 <= l && l < 0xE000 {
                    proof {
                        assert(tail.skip(2) =~= us@.skip(i + 2));
                    }
                    let cp: u32 = 0x10000 + ((u as u32) - 0xD800) * 0x400 + ((l as u32) - 0xDC00);
                    match char_from_u32(cp) {
                        Some(c) => {
                            proof {
                                assert((combine_surrogates(u, l)) as int == cp as int);
                                assert(c == combine_surrogates(u, l));
                                assert(is_high_surrogate(tail[0]) && is_low_surrogate(tail[1]));
                                if let Some(r2) = utf16_decode(us@.skip(i + 2)) {
                                    assert(utf16_decode(tail) == Some(
                                        seq![combine_surrogates(u, l)] + r2,
                                    ));
                                    assert(out@ + (seq![c] + r2) =~= (out@ + seq![c]) + r2);
                                }
                            }
                            push_char(&mut out, c);
                            i = i + 2;
                        },
                        None => {
                            proof {
                                assert(false);
                            }
                            return Err(DecodeError::InvalidUtf16);
                        },
                    }
                } else {
                    return Err(DecodeError::InvalidUtf16);
                }
            } else {
                return Err(DecodeError::InvalidUtf16);
            }
        } else {
            return Err(DecodeError::InvalidUtf16);
        }
    }
    proof {
        assert(us@.skip(us@.len() as int) =~= Seq::<u16>::empty());
        assert(out@ + Seq::<char>::empty() =~= out@);
    }
    Ok(out)
}

// ---------------------------------------------------------------------------
// Wire format of a string.
// ---------------------------------------------------------------------------

/// The big-endian bytes of a run of code units.
pub open spec fn units_bytes(us: Seq<u16>) -> Seq<u8>
    decreases us.len(),
{
    if us.len() == 0 {
        Seq::empty()
    } else {
        spec_be2(us[0]) + units_bytes(us.skip(1))
    }
}

pub proof fn lemma_units_bytes_len(us: Seq<u16>)
    ensures
        units_bytes(us).len() == 2 * us.len(),
    decreases us.len(),
{
    if us.len() > 0 {
        lemma_units_bytes_len(us.skip(1));
    }
}

/// Where each code unit's bytes sit inside the encoded run.
pub proof fn lemma_units_bytes_index(us: Seq<u16>, k: int)
    requires
        0 <= k < us.len(),
    ensures
        units_bytes(us).len() == 2 * us.len(),
        units_bytes(us)[2 * k] == spec_be2(us[k])[0],
        units_bytes(us)[2 * k + 1] == spec_be2(us[k])[1],
    decreases us.len(),
{
    lemma_units_bytes_len(us);
    if k > 0 {
        lemma_units_bytes_index(us.skip(1), k - 1);
    } else {
        lemma_units_bytes_len(us.skip(1));
    }
}

pub proof fn lemma_units_bytes_append(a: Seq<u16>, b: Seq<u16>)
    ensures
        units_bytes(a + b) == units_bytes(a) + units_bytes(b),
    decreases a.len(),
{
    if a.len() == 0 {
        assert(a + b =~= b);
        assert(units_bytes(a) + units_bytes(b) =~= units_bytes(b));
    } else {
        assert((a + b).skip(1) =~= a.skip(1) + b);
        lemma_units_bytes_append(a.skip(1), b);
        assert(units_bytes(a + b) =~= units_bytes(a) + units_bytes(b));
    }
}

/// The wire bytes of a string: length prefix, then the code units.
pub open spec fn str_bytes(cs: Seq<char>) -> Seq<u8> {
    spec_be2(utf16_units(cs).len() as u16) + units_bytes(utf16_units(cs))
}

/// Spec-level parse of a length-prefixed string field with the given
/// code-unit limit.
pub open spec fn parse_str(s: Seq<u8>, i: int, max_len: i16) -> Result<
    (Seq<char>, int),
    DecodeError,
> {
    match parse_i16(s, i) {
        Err(e) => Err(e),
        Ok((len, j)) => if len < 0 || len > max_len {
            Err(DecodeError::StringLength(len))
        } else if j + 2 * len <= s.len() {
            let units = Seq::new(len as nat, |k: int| u16_of(s[j + 2 * k], s[j + 2 * k + 1]));
            match utf16_decode(units) {
                Some(cs) => Ok((cs, j + 2 * len)),
                None => Err(DecodeError::InvalidUtf16),
            }
        } else {
            Err(DecodeError::ShortInput)
        },
    }
}

/// Reads a length-prefixed UTF-16 string, rejecting a negative or over-limit
/// length prefix, a short buffer, and invalid UTF-16.
pub fn read_str(r: &mut Reader, max_len: i16) -> (res: Result<String, DecodeError>)
    requires
        old(r).wf(),
    ensures
        final(r).wf(),
        final(r).bytes() == old(r).bytes(),
        match res {
            Ok(s) => parse_str(old(r).bytes(), old(r).spec_pos(), max_len) matches Ok(p) && p.0
                == s@ && p.1 == final(r).spec_pos(),
            Err(e) => parse_str(old(r).bytes(), old(r).spec_pos(), max_len) == Err::<
                (Seq<char>, int),
                _,
            >(e),
        },
{
    let ghost s = r.bytes();
    let ghost i0 = r.spec_pos();
    let len = match r.read_i16() {
        Ok(v) => v,
        Err(e) => {
            return Err(e);
        },
    };
    if len < 0 || len > max_len {
        return Err(DecodeError::StringLength(len));
    }
    let ghost j = r.spec_pos();
    let n = len as usize;
    let mut units: Vec<u16> = Vec::new();
    let mut k: usize = 0;
    while k < n
        invariant
            k <= n,
            r.wf(),
            r.bytes() == s,
            s == old(r).bytes(),
            i0 == old(r).spec_pos(),
            parse_i16(s, i0) == Ok::<(i16, int), DecodeError>((len, j)),
            0 <= len && len <= max_len,
            n == len as int,
            0 <= j,
            r.spec_pos() == j + 2 * k,
            j + 2 * k <= s.len(),
            units@ =~= Seq::new(k as nat, |t: int| u16_of(s[j + 2 * t], s[j + 2 * t + 1])),
        decreases n - k,
    {
        match r.read_u16() {
            Ok(u) => {
                units.push(u);
                proof {
                    assert(units@ =~= Seq::new(
                        (k + 1) as nat,
                        |t: int| u16_of(s[j + 2 * t], s[j + 2 * t + 1]),
                    ));
                }
                k = k + 1;
            },
            Err(e) => {
                proof {
                    assert(j + 2 * (len as int) > s.len());
                }
                return Err(DecodeError::ShortInput);
            },
        }
    }
    proof {
        assert(units@ =~= Seq::new(
            len as nat,
            |t: int| u16_of(s[j + 2 * t], s[j + 2 * t + 1]),
        ));
    }
    decode_utf16_units(&units)
}

/// Writes a length-prefixed UTF-16 string. Fails, leaving the buffer
/// untouched, exactly when the encoding exceeds a signed 16-bit length.
pub fn write_str(out: &mut Vec<u8>, s: &str) -> (res: Result<(), EncodeError>)
    ensures
        match res {
            Ok(()) => utf16_units(s@).len() <= 0x7FFF && final(out)@ == old(out)@ + str_bytes(s@),
            Err(e) => utf16_units(s@).len() > 0x7FFF && e == EncodeError::StringTooLong
                && final(out)@ == old(out)@,
        },
{
    let units = encode_utf16_units(s);
    if units.len() > 0x7FFF {
        return Err(EncodeError::StringTooLong);
    }
    write_u16(out, units.len() as u16);
    let ghost base = out@;
    proof {
        assert(units@.take(0) =~= Seq::<u16>::empty());
        assert(units_bytes(Seq::<u16>::empty()) =~= Seq::<u8>::empty());
        assert(out@ =~= base + units_bytes(units@.take(0)));
    }
    let mut k: usize = 0;
    while k < units.len()
        invariant
            k <= units@.len(),
            units@ == utf16_units(s@),
            units@.len() <= 0x7FFF,
            base == old(out)@ + spec_be2(utf16_units(s@).len() as u16),
            out@ == base + units_bytes(units@.take(k as int)),
        decreases units@.len() - k,
    {
        proof {
            assert(units@.take(k + 1) =~= units@.take(k as int) + seq![units@[k as int]]);
            lemma_units_bytes_append(units@.take(k as int), seq![units@[k as int]]);
            assert(seq![units@[k as int]].skip(1) =~= Seq::<u16>::empty());
            assert(units_bytes(seq![units@[k as int]].skip(1)) =~= Seq::<u8>::empty());
            assert(units_bytes(seq![units@[k as int]]) =~= spec_be2(units@[k as int]));
        }
        write_u16(out, units[k]);
        k = k + 1;
    }
    proof {
        assert(units@.take(units@.len() as int) =~= units@);
        assert(base + units_bytes(units@) =~= old(out)@ + str_bytes(s@));
    }
    Ok(())
}

/// Parsing a string field from bytes that hold a string's encoding yields
/// that string back, provided its code-unit count is within the field limit.
pub proof fn lemma_str_round_trip(s: Seq<u8>, i: int, cs: Seq<char>, max_len: i16)
    requires
        0 <= i,
        0 <= max_len,
        valid_chars(cs),
        utf16_units(cs).len() <= max_len,
        i + str_bytes(cs).len() <= s.len(),
        s.subrange(i, i + str_bytes(cs).len() as int) == str_bytes(cs),
    ensures
        parse_str(s, i, max_len) == Ok::<_, DecodeError>((cs, i + str_bytes(cs).len())),
{
    let us = utf16_units(cs);
    let n = us.len() as int;
    lemma_units_bytes_len(us);
    assert(str_bytes(cs).len() == 2 + 2 * n);
    let bytes = str_bytes(cs);
    assert(bytes[0] == spec_be2(n as u16)[0] && bytes[1] == spec_be2(n as u16)[1]);
    assert(s[i] == bytes[0] && s[i + 1] == bytes[1]);
    crate::codec::lemma_be2_round_trip(n as u16);
    assert(u16_of(s[i], s[i + 1]) == n as u16);
    assert(n <= 0x7FFF);
    assert((n as u16) as i16 == n as i16);
    let len = n as i16;
    assert(parse_i16(s, i) == Ok::<_, DecodeError>((len, i + 2)));
    let j = i + 2;
    assert(j + 2 * len <= s.len());
    let units = Seq::new(len as nat, |k: int| u16_of(s[j + 2 * k], s[j + 2 * k + 1]));
    assert forall|k: int| 0 <= k < n implies units[k] == us[k] by {
        lemma_units_bytes_index(us, k);
        assert(bytes[2 + 2 * k] == spec_be2(us[k])[0]);
        assert(bytes[2 + 2 * k + 1] == spec_be2(us[k])[1]);
        assert(s[j + 2 * k] == bytes[2 + 2 * k]);
        assert(s[j + 2 * k + 1] == bytes[2 + 2 * k + 1]);
        crate::codec::lemma_be2_round_trip(us[k]);
    }
    assert(units =~= us);
    lemma_utf16_decode_of_units(cs);
}

} // verus!
