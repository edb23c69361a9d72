//! UTF-16 text as the window controls display it.

use vstd::prelude::*;

verus! {

/// The UTF-16 code units of one character.
pub open spec fn utf16_units(c: char) -> Seq<u16> {
    let v = c as int;
    if v < 0x10000 {
        seq![v as u16]
    } else {
        let w = v - 0x10000;
        seq![(0xD800 + w / 0x400) as u16, (0xDC00 + w % 0x400) as u16]
    }
}

/// The UTF-16 encoding of a sequence of characters.
pub open spec fn utf16_encode(s: Seq<char>) -> Seq<u16>
    decreases s.len(),
{
    if s.len() == 0 {
        Seq::empty()
    } else {
        utf16_encode(s.drop_last()) + utf16_units(s.last())
    }
}

/// The characters of `s` that come before its first nul character.
pub open spec fn before_nul(s: Seq<char>) -> Seq<char>
    decreases s.len(),
{
    if s.len() == 0 {
        Seq::empty()
    } else if s[0] == '\0' {
        Seq::empty()
    } else {
        seq![s[0]] + before_nul(s.drop_first())
    }
}

/// The wide text that a control shows for `s`: its UTF-16 encoding, cut at the
/// first nul character.
pub open spec fn wide_text(s: Seq<char>) -> Seq<u16> {
    utf16_encode(before_nul(s))
}

/// Calls `widestring::U16CString::from_str_truncate` and then `into_vec`.
/// The crate encodes `s` as UTF-16 (`str::encode_utf16`), cuts the units
/// after the first nul unit and keeps that nul as the terminator, which
/// `into_vec` takes off again. A nul unit comes only from a nul character, so
/// the contract claims the UTF-16 encoding of the characters before the first
/// nul character.
#[verifier::external_body]
pub(crate) fn encode_truncated(s: &str) -> (units: Vec<u16>)
    ensures
        units@ == wide_text(s@),
{
    widestring::U16CString::from_str_truncate(s).into_vec()
}

/// Whether `u` is a UTF-16 surrogate unit.
pub open spec fn is_surrogate(u: u16) -> bool {
    0xD800 <= u <= 0xDFFF
}

/// Whether `u` is a trailing (low) UTF-16 surrogate unit.
pub open spec fn is_low_surrogate(u: u16) -> bool {
    0xDC00 <= u <= 0xDFFF
}

/// UTF-16 units read as text: a unit that is no surrogate is its character, a
/// leading surrogate followed by a trailing one is the character of the pair,
/// and any other surrogate becomes U+FFFD.
pub open spec fn utf16_decode_lossy(u: Seq<u16>) -> Seq<char>
    decreases u.len(),
{
    if u.len() == 0 {
        Seq::empty()
    } else if !is_surrogate(u[0]) {
        seq![u[0] as char] + utf16_decode_lossy(u.drop_first())
    } else if !is_low_surrogate(u[0]) && u.len() >= 2 && is_low_surrogate(u[1]) {
        seq![(0x10000 + (u[0] - 0xD800) * 0x400 + (u[1] - 0xDC00)) as char] + utf16_decode_lossy(
            u.subrange(2, u.len() as int),
        )
    } else {
        seq!['\u{FFFD}'] + utf16_decode_lossy(u.drop_first())
    }
}

/// Calls `widestring::U16Str::from_slice`, then `display` and `to_string`.
/// The crate's `Display` writes every character of `decode_utf16_lossy`, which
/// decodes as `char::decode_utf16` does and puts U+FFFD for each unpaired
/// surrogate; the contract claims that text.
#[verifier::external_body]
pub(crate) fn decode_lossy(units: &[u16]) -> (text: String)
    ensures
        text@ == utf16_decode_lossy(units@),
{
    widestring::U16Str::from_slice(units).display().to_string()
}

proof fn lemma_before_nul_has_no_nul(s: Seq<char>)
    ensures
        forall|i: int| 0 <= i < before_nul(s).len() ==> before_nul(s)[i] != '\0',
    decreases s.len(),
{
    if s.len() > 0 && s[0] != '\0' {
        lemma_before_nul_has_no_nul(s.drop_first());
        let rest = before_nul(s.drop_first());
        assert forall|i: int| 0 <= i < before_nul(s).len() implies before_nul(s)[i] != '\0' by {
            if i > 0 {
                assert(before_nul(s)[i] == rest[i - 1]);
            }
        }
    }
}

proof fn lemma_units_have_no_nul(c: char)
    requires
        c != '\0',
    ensures
        forall|k: int| 0 <= k < utf16_units(c).len() ==> utf16_units(c)[k] != 0,
{
    let v = c as int;
    assert(0 < v <= 0x10ffff);
    if v >= 0x10000 {
        let w = v - 0x10000;
        assert(0 <= w / 0x400 <= 0x3ff);
        assert(0 <= w % 0x400 < 0x400);
    }
}

proof fn lemma_encode_has_no_nul(s: Seq<char>)
    requires
        forall|i: int| 0 <= i < s.len() ==> s[i] != '\0',
    ensures
        forall|k: int| 0 <= k < utf16_encode(s).len() ==> utf16_encode(s)[k] != 0,
    decreases s.len(),
{
    if s.len() > 0 {
        let init = s.drop_last();
        assert forall|i: int| 0 <= i < init.len() implies init[i] != '\0' by {
            assert(init[i] == s[i]);
        }
        lemma_encode_has_no_nul(init);
        let c = s.last();
        assert(s[s.len() - 1] != '\0');
        lemma_units_have_no_nul(c);
        let u = utf16_units(c);
        let e = utf16_encode(s);
        let a = utf16_encode(init);
        assert forall|k: int| 0 <= k < e.len() implies e[k] != 0 by {
            if k < a.len() {
                assert(e[k] == a[k]);
            } else {
                assert(e[k] == u[k - a.len()]);
            }
        }
    }
}

/// The wide text of any string holds no nul unit: a control always shows it
/// whole, up to its terminating nul.
pub proof fn wide_text_has_no_nul(s: Seq<char>)
    ensures
        forall|k: int| 0 <= k < wide_text(s).len() ==> wide_text(s)[k] != 0,
{
    lemma_before_nul_has_no_nul(s);
    lemma_encode_has_no_nul(before_nul(s));
}

proof fn lemma_encode_concat(a: Seq<char>, b: Seq<char>)
    ensures
        utf16_encode(a + b) == utf16_encode(a) + utf16_encode(b),
    decreases b.len(),
{
    if b.len() == 0 {
        assert(a + b =~= a);
        assert(utf16_encode(a) + utf16_encode(b) =~= utf16_encode(a));
    } else {
        lemma_encode_concat(a, b.drop_last());
        assert((a + b).drop_last() =~= a + b.drop_last());
        assert((a + b).last() == b.last());
        assert(utf16_encode(a) + (utf16_encode(b.drop_last()) + utf16_units(b.last())) =~= (utf16_encode(a)
            + utf16_encode(b.drop_last())) + utf16_units(b.last()));
    }
}

proof fn lemma_decode_units(c: char, rest: Seq<u16>)
    ensures
        utf16_decode_lossy(utf16_units(c) + rest) == seq![c] + utf16_decode_lossy(rest),
{
    let v = c as int;
    let u = utf16_units(c) + rest;
    assert(0 <= v <= 0x10ffff);
    assert(!(0xD800 <= v <= 0xDFFF));
    if v < 0x10000 {
        assert(u[0] == v as u16);
        assert(u[0] as int == v);
        assert(u.drop_first() =~= rest);
        assert((u[0] as char) == c);
    } else {
        let w = v - 0x10000;
        assert(0 <= w / 0x400 <= 0x3ff);
        assert(0 <= w % 0x400 < 0x400);
        assert(u[0] as int == 0xD800 + w / 0x400);
        assert(u[1] as int == 0xDC00 + w % 0x400);
        assert(u.subrange(2, u.len() as int) =~= rest);
        assert(0x10000 + (u[0] - 0xD800) * 0x400 + (u[1] - 0xDC00) == v);
        assert(((0x10000 + (u[0] - 0xD800) * 0x400 + (u[1] - 0xDC00)) as char) == c);
    }
}

/// Reading the UTF-16 encoding of a text gives the text back.
pub proof fn decoding_undoes_encoding(s: Seq<char>)
    ensures
        utf16_decode_lossy(utf16_encode(s)) == s,
    decreases s.len(),
{
    if s.len() > 0 {
        let rest = s.drop_first();
        decoding_undoes_encoding(rest);
        assert(s =~= seq![s[0]] + rest);
        lemma_encode_concat(seq![s[0]], rest);
        assert(seq![s[0]].drop_last() =~= Seq::<char>::empty());
        assert(utf16_encode(Seq::<char>::empty()) == Seq::<u16>::empty());
        assert(utf16_encode(seq![s[0]]) =~= Seq::<u16>::empty() + utf16_units(s[0]));
        assert(utf16_encode(seq![s[0]]) =~= utf16_units(s[0]));
        lemma_decode_units(s[0], utf16_encode(rest));
    } else {
        assert(utf16_encode(s) =~= Seq::<u16>::empty());
    }
}

/// Reading back the wide text of a string gives its characters before the
/// first nul.
pub proof fn wide_text_reads_back(s: Seq<char>)
    ensures
        utf16_decode_lossy(wide_text(s)) == before_nul(s),
{
    decoding_undoes_encoding(before_nul(s));
}

/// The characters before the first nul are a prefix of the string holding no
/// nul, and either all of it or followed by a nul.
pub proof fn before_nul_is_the_prefix_up_to_a_nul(s: Seq<char>)
    ensures
        before_nul(s).len() <= s.len(),
        before_nul(s) == s.take(before_nul(s).len() as int),
        forall|i: int| 0 <= i < before_nul(s).len() ==> before_nul(s)[i] != '\0',
        before_nul(s).len() < s.len() ==> s[before_nul(s).len() as int] == '\0',
    decreases s.len(),
{
    lemma_before_nul_has_no_nul(s);
    if s.len() > 0 && s[0] != '\0' {
        let rest = s.drop_first();
        before_nul_is_the_prefix_up_to_a_nul(rest);
        let b = before_nul(s);
        assert(b =~= seq![s[0]] + before_nul(rest));
        assert(b =~= s.take(b.len() as int));
        if b.len() < s.len() {
            assert(s[b.len() as int] == rest[before_nul(rest).len() as int]);
        }
    } else if s.len() > 0 {
        assert(before_nul(s) =~= s.take(0));
    } else {
        assert(before_nul(s) =~= s.take(0));
    }
}

} // verus!
