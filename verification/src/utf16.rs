use vstd::prelude::*;

verus! {

/// A UTF-16 code unit that opens a surrogate pair.
pub open spec fn is_high_surrogate(u: u16) -> bool {
    0xD800 <= u <= 0xDBFF
}

/// A UTF-16 code unit that closes a surrogate pair.
pub open spec fn is_low_surrogate(u: u16) -> bool {
    0xDC00 <= u <= 0xDFFF
}

/// A Unicode scalar value: a code point that is not a surrogate.
pub open spec fn is_scalar_value(cp: int) -> bool {
    (0 <= cp <= 0xD7FF) || (0xE000 <= cp <= 0x10FFFF)
}

/// The code point that a surrogate pair stands for.
pub open spec fn pair_code_point(high: u16, low: u16) -> int {
    0x10000 + (high - 0xD800) * 0x400 + (low - 0xDC00)
}

/// The character that replaces an unpaired surrogate in lossy decoding.
pub open spec fn replacement_char() -> char {
    '\u{FFFD}'
}

/// Puts `prefix` in front of a decoding outcome.
pub open spec fn prepend(prefix: Seq<char>, rest: Option<Seq<char>>) -> Option<Seq<char>> {
    match rest {
        Some(r) => Some(prefix + r),
        None => None,
    }
}

/// Strict UTF-16 decoding: `None` exactly when `units` holds a surrogate
/// that is not part of a high-low pair.
pub open spec fn utf16_decode(units: Seq<u16>) -> Option<Seq<char>>
    decreases units.len(),
{
    if units.len() == 0 {
        Some(Seq::empty())
    } else if is_high_surrogate(units[0]) && units.len() >= 2 && is_low_surrogate(units[1]) {
        prepend(
            seq![pair_code_point(units[0], units[1]) as char],
            utf16_decode(units.subrange(2, units.len() as int)),
        )
    } else if is_high_surrogate(units[0]) || is_low_surrogate(units[0]) {
        None
    } else {
        prepend(seq![units[0] as char], utf16_decode(units.subrange(1, units.len() as int)))
    }
}

/// Lossy UTF-16 decoding: as strict decoding, with every unpaired surrogate
/// replaced by U+FFFD.
pub open spec fn utf16_decode_lossy(units: Seq<u16>) -> Seq<char>
    decreases units.len(),
{
    if units.len() == 0 {
        Seq::empty()
    } else if is_high_surrogate(units[0]) && units.len() >= 2 && is_low_surrogate(units[1]) {
        seq![pair_code_point(units[0], units[1]) as char] + utf16_decode_lossy(
            units.subrange(2, units.len() as int),
        )
    } else if is_high_surrogate(units[0]) || is_low_surrogate(units[0]) {
        seq![replacement_char()] + utf16_decode_lossy(units.subrange(1, units.len() as int))
    } else {
        seq![units[0] as char] + utf16_decode_lossy(units.subrange(1, units.len() as int))
    }
}

/// UTF-16 encoding of one character.
pub open spec fn utf16_encode_char(c: char) -> Seq<u16> {
    let cp = c as u32;
    if cp < 0x10000 {
        seq![cp as u16]
    } else {
        seq![(0xD800 + (cp - 0x10000) / 0x400) as u16, (0xDC00 + (cp - 0x10000) % 0x400) as u16]
    }
}

/// UTF-16 encoding of a character sequence.
pub open spec fn utf16_encode(s: Seq<char>) -> Seq<u16>
    decreases s.len(),
{
    if s.len() == 0 {
        Seq::empty()
    } else {
        utf16_encode_char(s[0]) + utf16_encode(s.subrange(1, s.len() as int))
    }
}

/// `char::from_u32`: the character whose scalar value is `cp`, or `None`
/// where `cp` is a surrogate or above U+10FFFF.
#[verifier::external_body]
fn char_from_u32(cp: u32) -> (r: Option<char>)
    ensures
        r is Some <==> is_scalar_value(cp as int),
        r matches Some(c) ==> c as u32 == cp && c == cp as char,
{
    char::from_u32(cp)
}

proof fn lemma_prepend_assoc(a: Seq<char>, b: Seq<char>, o: Option<Seq<char>>)
    ensures
        prepend(a, prepend(b, o)) == prepend(a + b, o),
{
    if let Some(r) = o {
        assert(a + (b + r) =~= (a + b) + r);
    }
}

proof fn lemma_unit_is_scalar(u: u16)
    requires
        !is_high_surrogate(u),
        !is_low_surrogate(u),
    ensures
        is_scalar_value(u as int),
{
}

proof fn lemma_pair_is_scalar(high: u16, low: u16)
    requires
        is_high_surrogate(high),
        is_low_surrogate(low),
    ensures
        is_scalar_value(pair_code_point(high, low)),
        0x10000 <= pair_code_point(high, low) <= 0x10FFFF,
{
}

/// Decodes `units` strictly, as `String::from_utf16` does: `None` where an
/// unpaired surrogate occurs.
pub fn decode_utf16(units: &[u16]) -> (r: Option<Vec<char>>)
    ensures
        match r {
            Some(v) => utf16_decode(units@) == Some(v@),
            None => utf16_decode(units@) is None,
        },
{
    let mut out: Vec<char> = Vec::new();
    let mut i: usize = 0;
    let n = units.len();
    assert(units@.subrange(0, n as int) =~= units@);
    while i < n
        invariant
            n == units@.len(),
            i <= n,
            utf16_decode(units@) == prepend(out@, utf16_decode(units@.subrange(i as int, n as int))),
        decreases n - i,
    {
        let ghost rest = units@.subrange(i as int, n as int);
        let u = units[i];
        if 0xD800 <= u && u <= 0xDBFF && i + 1 < n && 0xDC00 <= units[i + 1] && units[i + 1]
            <= 0xDFFF {
            let low = units[i + 1];
            let cp: u32 = 0x10000 + ((u - 0xD800) as u32) * 0x400 + ((low - 0xDC00) as u32);
            proof {
                lemma_pair_is_scalar(u, low);
                assert(cp as int == pair_code_point(u, low));
            }
            let c = char_from_u32(cp).unwrap();
            proof {
                assert(rest.subrange(2, rest.len() as int) =~= units@.subrange(i + 2, n as int));
                lemma_prepend_assoc(out@, seq![c], utf16_decode(units@.subrange(i + 2, n as int)));
                assert(out@.push(c) =~= out@ + seq![c]);
            }
            out.push(c);
            i = i + 2;
        } else if 0xD800 <= u && u <= 0xDFFF {
            return None;
        } else {
            proof {
                lemma_unit_is_scalar(u);
            }
            let c = char_from_u32(u as u32).unwrap();
            proof {
                assert(rest.subrange(1, rest.len() as int) =~= units@.subrange(i + 1, n as int));
                lemma_prepend_assoc(out@, seq![c], utf16_decode(units@.subrange(i + 1, n as int)));
                assert(out@.push(c) =~= out@ + seq![c]);
            }
            out.push(c);
            i = i + 1;
        }
    }
    Some(out)
}

/// Decodes `units`, replacing each unpaired surrogate with U+FFFD, as
/// `String::from_utf16_lossy` does.
pub fn decode_utf16_lossy(units: &[u16]) -> (r: Vec<char>)
    ensures
        r@ == utf16_decode_lossy(units@),
{
    let mut out: Vec<char> = Vec::new();
    let mut i: usize = 0;
    let n = units.len();
    assert(units@.subrange(0, n as int) =~= units@);
    while i < n
        invariant
            n == units@.len(),
            i <= n,
            utf16_decode_lossy(units@) == out@ + utf16_decode_lossy(units@.subrange(i as int, n as int)),
        decreases n - i,
    {
        let ghost rest = units@.subrange(i as int, n as int);
        let ghost before = out@;
        let u = units[i];
        if 0xD800 <= u && u <= 0xDBFF && i + 1 < n && 0xDC00 <= units[i + 1] && units[i + 1]
            <= 0xDFFF {
            let low = units[i + 1];
            let cp: u32 = 0x10000 + ((u - 0xD800) as u32) * 0x400 + ((low - 0xDC00) as u32);
            proof {
                lemma_pair_is_scalar(u, low);
                assert(cp as int == pair_code_point(u, low));
            }
            let c = char_from_u32(cp).unwrap();
            out.push(c);
            i = i + 2;
            proof {
                assert(rest.subrange(2, rest.len() as int) =~= units@.subrange(i as int, n as int));
                assert(before + (seq![c] + utf16_decode_lossy(units@.subrange(i as int, n as int)))
                    =~= out@ + utf16_decode_lossy(units@.subrange(i as int, n as int)));
            }
        } else if 0xD800 <= u && u <= 0xDFFF {
            out.push('\u{FFFD}');
            i = i + 1;
            proof {
                assert(rest.subrange(1, rest.len() as int) =~= units@.subrange(i as int, n as int));
                assert(before + (seq![replacement_char()] + utf16_decode_lossy(
                    units@.subrange(i as int, n as int),
                )) =~= out@ + utf16_decode_lossy(units@.subrange(i as int, n as int)));
            }
        } else {
            proof {
                lemma_unit_is_scalar(u);
            }
            let c = char_from_u32(u as u32).unwrap();
            out.push(c);
            i = i + 1;
            proof {
                assert(rest.subrange(1, rest.len() as int) =~= units@.subrange(i as int, n as int));
                assert(before + (seq![c] + utf16_decode_lossy(units@.subrange(i as int, n as int)))
                    =~= out@ + utf16_decode_lossy(units@.subrange(i as int, n as int)));
            }
        }
    }
    assert(units@.subrange(n as int, n as int) =~= Seq::<u16>::empty());
    assert(out@ + Seq::<char>::empty() =~= out@);
    out
}

/// Where strict decoding succeeds, lossy decoding gives the same characters.
pub proof fn lemma_lossy_agrees_with_strict(units: Seq<u16>)
    requires
        utf16_decode(units) is Some,
    ensures
        utf16_decode_lossy(units) == utf16_decode(units)->0,
    decreases units.len(),
{
    if units.len() == 0 {
    } else if is_high_surrogate(units[0]) && units.len() >= 2 && is_low_surrogate(units[1]) {
        lemma_lossy_agrees_with_strict(units.subrange(2, units.len() as int));
    } else {
        lemma_lossy_agrees_with_strict(units.subrange(1, units.len() as int));
    }
}

/// Decoding the UTF-16 encoding of any character sequence gives that
/// sequence back.
pub proof fn lemma_decode_encode(s: Seq<char>)
    ensures
        utf16_decode(utf16_encode(s)) == Some(s),
    decreases s.len(),
{
    if s.len() == 0 {
        assert(utf16_encode(s) =~= Seq::<u16>::empty());
    } else {
        let c = s[0];
        let tail = s.subrange(1, s.len() as int);
        let e = utf16_encode(s);
        let ec = utf16_encode_char(c);
        lemma_decode_encode(tail);
        let cp = c as u32;
        vstd::utf8::char_is_scalar(c);
        assert(is_scalar_value(cp as int));
        if cp < 0x10000 {
            assert(e[0] == cp as u16);
            assert(e.subrange(1, e.len() as int) =~= utf16_encode(tail));
            vstd::utf8::char_u32_cast(c, cp);
            assert(e[0] as char == c);
            assert(seq![c] + tail =~= s);
        } else {
            let h = (0xD800 + (cp - 0x10000) / 0x400) as u16;
            let l = (0xDC00 + (cp - 0x10000) % 0x400) as u16;
            assert(e[0] == h && e[1] == l);
            assert(is_high_surrogate(h));
            assert(is_low_surrogate(l));
            assert(pair_code_point(h, l) == cp);
            vstd::utf8::char_u32_cast(c, cp);
            assert(pair_code_point(h, l) as char == c);
            assert(e.subrange(2, e.len() as int) =~= utf16_encode(tail));
            assert(seq![c] + tail =~= s);
        }
    }
}

/// Where strict decoding succeeds, encoding the decoded characters again gives
/// back exactly the units that were decoded.
pub proof fn lemma_encode_decode(units: Seq<u16>)
    requires
        utf16_decode(units) is Some,
    ensures
        utf16_encode(utf16_decode(units)->0) == units,
    decreases units.len(),
{
    let s = utf16_decode(units)->0;
    if units.len() == 0 {
        assert(s =~= Seq::<char>::empty());
    } else if is_high_surrogate(units[0]) && units.len() >= 2 && is_low_surrogate(units[1]) {
        let rest = units.subrange(2, units.len() as int);
        lemma_encode_decode(rest);
        let cp = pair_code_point(units[0], units[1]);
        let c = cp as char;
        assert(s[0] == c);
        assert(s.subrange(1, s.len() as int) =~= utf16_decode(rest)->0);
        assert(c as u32 == cp);
        assert(utf16_encode_char(c) =~= seq![units[0], units[1]]);
        assert(utf16_encode(s) =~= units);
    } else {
        let rest = units.subrange(1, units.len() as int);
        lemma_encode_decode(rest);
        let c = units[0] as char;
        assert(s[0] == c);
        assert(s.subrange(1, s.len() as int) =~= utf16_decode(rest)->0);
        assert(c as u32 == units[0]);
        assert(utf16_encode_char(c) =~= seq![units[0]]);
        assert(utf16_encode(s) =~= units);
    }
}

/// Lossy decoding works unit by unit: a surrogate that does not open a pair
/// with the unit after it becomes one U+FFFD and strict decoding fails on it;
/// any other single unit stands for the character of the same value.
pub proof fn lemma_lossy_single_units(u: u16, rest: Seq<u16>)
    ensures
        (is_low_surrogate(u) || (is_high_surrogate(u) && (rest.len() == 0 || !is_low_surrogate(
            rest[0],
        )))) ==> utf16_decode_lossy(seq![u] + rest) == seq!['\u{FFFD}'] + utf16_decode_lossy(rest)
            && utf16_decode(seq![u] + rest) is None,
        (!is_low_surrogate(u) && !is_high_surrogate(u)) ==> utf16_decode_lossy(seq![u] + rest)
            == seq![u as char] + utf16_decode_lossy(rest) && (u as char) as u32 == u,
{
    let w = seq![u] + rest;
    assert(w[0] == u);
    assert(w.subrange(1, w.len() as int) =~= rest);
    if rest.len() > 0 {
        assert(w[1] == rest[0]);
    }
}

/// Lossy decoding of two unit sequences one after the other is the decoding
/// of the first followed by that of the second, where the first does not end
/// in a high surrogate (which could pair with the second's first unit).
pub proof fn lemma_lossy_concat(a: Seq<u16>, b: Seq<u16>)
    requires
        a.len() == 0 || !is_high_surrogate(a.last()),
    ensures
        utf16_decode_lossy(a + b) == utf16_decode_lossy(a) + utf16_decode_lossy(b),
    decreases a.len(),
{
    let w = a + b;
    if a.len() == 0 {
        assert(w =~= b);
        assert(utf16_decode_lossy(a) =~= Seq::<char>::empty());
        assert(Seq::<char>::empty() + utf16_decode_lossy(b) =~= utf16_decode_lossy(b));
    } else {
        assert(w[0] == a[0]);
        if a.len() >= 2 {
            assert(w[1] == a[1]);
        }
        if is_high_surrogate(a[0]) && a.len() >= 2 && is_low_surrogate(a[1]) {
            let a2 = a.subrange(2, a.len() as int);
            assert(w.subrange(2, w.len() as int) =~= a2 + b);
            if a2.len() > 0 {
                assert(a2.last() == a.last());
            }
            lemma_lossy_concat(a2, b);
            assert(utf16_decode_lossy(w) =~= utf16_decode_lossy(a) + utf16_decode_lossy(b));
        } else {
            assert(a.len() >= 2 || !is_high_surrogate(a[0]));
            let a1 = a.subrange(1, a.len() as int);
            assert(w.subrange(1, w.len() as int) =~= a1 + b);
            if a1.len() > 0 {
                assert(a1.last() == a.last());
            }
            lemma_lossy_concat(a1, b);
            assert(utf16_decode_lossy(w) =~= utf16_decode_lossy(a) + utf16_decode_lossy(b));
        }
    }
}

/// Strict decoding of two well-formed unit sequences one after the other
/// succeeds, with the characters of the first followed by those of the
/// second.
pub proof fn lemma_decode_concat(a: Seq<u16>, b: Seq<u16>)
    requires
        utf16_decode(a) is Some,
        utf16_decode(b) is Some,
    ensures
        utf16_decode(a + b) == Some(utf16_decode(a)->0 + utf16_decode(b)->0),
    decreases a.len(),
{
    let w = a + b;
    if a.len() == 0 {
        assert(w =~= b);
        assert(utf16_decode(a)->0 =~= Seq::<char>::empty());
        assert(Seq::<char>::empty() + utf16_decode(b)->0 =~= utf16_decode(b)->0);
    } else {
        assert(w[0] == a[0]);
        if a.len() >= 2 {
            assert(w[1] == a[1]);
        }
        if is_high_surrogate(a[0]) && a.len() >= 2 && is_low_surrogate(a[1]) {
            let a2 = a.subrange(2, a.len() as int);
            assert(w.subrange(2, w.len() as int) =~= a2 + b);
            lemma_decode_concat(a2, b);
            assert(utf16_decode(w)->0 =~= utf16_decode(a)->0 + utf16_decode(b)->0);
        } else {
            let a1 = a.subrange(1, a.len() as int);
            assert(w.subrange(1, w.len() as int) =~= a1 + b);
            lemma_decode_concat(a1, b);
            assert(utf16_decode(w)->0 =~= utf16_decode(a)->0 + utf16_decode(b)->0);
        }
    }
}

} // verus!
