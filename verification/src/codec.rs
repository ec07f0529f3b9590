//! Decoding primitives at the boundary of the core.
//!
//! The outside codecs — media-type parsing, JSON and form-urlencoded
//! well-formedness, UTF-8 decoding — are reached through trusted wrappers
//! whose contracts name what each call computes.  The decimal integer
//! parser used by the path-segment extractor is the core's own, verified
//! against its specification.

use vstd::prelude::*;

verus! {

use vstd::utf8::{valid_utf8, decode_utf8};

// ==== media types ====

/// What the core reads of a parsed `Content-Type` value: the
/// `type/subtype` essence as the parser stores it (it compares
/// case-insensitively), the `charset` parameter when present, and
/// whether any parameter is present at all.
pub struct MediaType {
    pub essence: Vec<u8>,
    pub charset: Option<Vec<u8>>,
    pub has_params: bool,
}

/// What parsing a `Content-Type` header value yields: `None` when the
/// bytes are not a media type, otherwise the essence, the charset
/// parameter, and whether parameters are present.
pub uninterp spec fn media_type_of(s: Seq<u8>) -> Option<(Seq<u8>, Option<Seq<u8>>, bool)>;

/// Relies on the `mime` crate: `Mime`'s `FromStr` parses the value, and
/// `Mime::essence_str`, `Mime::get_param` and `Mime::params` read the
/// essence, the charset parameter and the presence of parameters out of
/// the parsed value.  The result depends on the bytes alone.
#[verifier::external_body]
pub fn parse_media_type(raw: &Vec<u8>) -> (r: Option<MediaType>)
    ensures
        match r {
            Some(m) => media_type_of(raw@) == Some(
                (m.essence@, m.charset.deep_view(), m.has_params),
            ),
            None => media_type_of(raw@) is None,
        },
{
    let s = std::str::from_utf8(raw).ok()?;
    let m: mime::Mime = s.parse().ok()?;
    let essence = m.essence_str().as_bytes().to_vec();
    let charset = m.get_param(mime::CHARSET).map(|v| v.as_str().as_bytes().to_vec());
    let has_params = m.params().next().is_some();
    Some(MediaType { essence, charset, has_params })
}

// ==== document well-formedness ====

/// Whether the bytes form one well-formed JSON document.
pub uninterp spec fn json_wf(b: Seq<u8>) -> bool;

/// Relies on `serde_json::from_slice`: whether the bytes parse as one
/// self-describing JSON value.  The result depends on the bytes alone.
#[verifier::external_body]
pub fn json_valid(bytes: &Vec<u8>) -> (r: bool)
    ensures
        r == json_wf(bytes@),
{
    serde_json::from_slice::<serde_json::Value>(bytes).is_ok()
}

/// Whether the bytes form a flat form-urlencoded document of string keys
/// and string values.
pub uninterp spec fn form_wf(b: Seq<u8>) -> bool;

/// Relies on `serde_qs::from_bytes`: whether the bytes parse as a flat
/// string-to-string query document.  The result depends on the bytes
/// alone.
#[verifier::external_body]
pub fn form_valid(bytes: &Vec<u8>) -> (r: bool)
    ensures
        r == form_wf(bytes@),
{
    serde_qs::from_bytes::<std::collections::HashMap<String, String>>(bytes).is_ok()
}

// ==== UTF-8 ====

/// Relies on `String::from_utf8`: returns the decoded string exactly when
/// the bytes are valid UTF-8, and nothing otherwise.
#[verifier::external_body]
pub fn string_from_utf8(bytes: Vec<u8>) -> (r: Option<String>)
    ensures
        match r {
            Some(s) => valid_utf8(bytes@) && s@ == decode_utf8(bytes@),
            None => !valid_utf8(bytes@),
        },
{
    String::from_utf8(bytes).ok()
}

// ==== decimal integers ====

/// Whether the byte is an ASCII decimal digit.
pub open spec fn is_digit(b: u8) -> bool {
    48 <= b <= 57
}

/// The value of a digit string, most significant digit first.
pub open spec fn digits_value(s: Seq<u8>) -> int
    decreases s.len(),
{
    if s.len() == 0 {
        0
    } else {
        digits_value(s.drop_last()) * 10 + (s.last() - 48)
    }
}

/// The digits of a segment after its optional sign.
pub open spec fn seg_digits(s: Seq<u8>) -> Seq<u8> {
    if s.len() > 0 && (s[0] == 43u8 || s[0] == 45u8) {
        s.drop_first()
    } else {
        s
    }
}

/// Whether the segment carries a leading minus sign.
pub open spec fn seg_negative(s: Seq<u8>) -> bool {
    s.len() > 0 && s[0] == 45u8
}

/// The mathematical integer a segment denotes: an optional sign followed
/// by at least one decimal digit.
pub open spec fn seg_int(s: Seq<u8>) -> Option<int> {
    let ds = seg_digits(s);
    if ds.len() > 0 && (forall|i: int| 0 <= i < ds.len() ==> is_digit(ds[i])) {
        if seg_negative(s) {
            Some(-digits_value(ds))
        } else {
            Some(digits_value(ds))
        }
    } else {
        None
    }
}

/// What the segment extractor produces: the denoted integer when it
/// exists and fits a 64-bit signed integer.
pub open spec fn parse_i64_spec(s: Seq<u8>) -> Option<i64> {
    match seg_int(s) {
        Some(v) => if i64::MIN <= v <= i64::MAX {
            Some(v as i64)
        } else {
            None
        },
        None => None,
    }
}

proof fn lemma_digits_value_nonneg(s: Seq<u8>)
    requires
        forall|i: int| 0 <= i < s.len() ==> is_digit(s[i]),
    ensures
        digits_value(s) >= 0,
    decreases s.len(),
{
    if s.len() > 0 {
        lemma_digits_value_nonneg(s.drop_last());
    }
}

proof fn lemma_digits_value_grows(s: Seq<u8>, k: int)
    requires
        forall|i: int| 0 <= i < s.len() ==> is_digit(s[i]),
        0 <= k <= s.len(),
    ensures
        digits_value(s) >= digits_value(s.take(k)),
    decreases s.len() - k,
{
    if k < s.len() {
        lemma_digits_value_grows(s, k + 1);
        assert(s.take(k + 1).drop_last() =~= s.take(k));
        assert(s.take(k + 1).last() == s[k]);
        lemma_digits_value_nonneg(s.take(k));
        assert(digits_value(s.take(k + 1)) == digits_value(s.take(k)) * 10 + (s[k] - 48));
        assert(digits_value(s.take(k + 1)) >= digits_value(s.take(k)));
    } else {
        assert(s.take(k) =~= s);
    }
}

/// Parses a decimal integer — optional `+` or `-` sign, then digits —
/// returning `None` when the segment is not a number or does not fit.
pub fn parse_i64(s: &Vec<u8>) -> (r: Option<i64>)
    ensures
        r == parse_i64_spec(s@),
{
    let ghost sv = s@;
    let len = s.len();
    let mut start: usize = 0;
    let mut neg = false;
    if len > 0 && (s[0] == 43 || s[0] == 45) {
        start = 1;
        neg = s[0] == 45;
    }
    proof {
        assert(seg_digits(sv) =~= sv.subrange(start as int, len as int));
        assert(seg_negative(sv) == neg);
    }
    if start == len {
        proof {
            assert(seg_digits(sv).len() == 0);
        }
        return None;
    }
    let ghost ds = seg_digits(sv);
    let mut acc: u64 = 0;
    let mut i = start;
    while i < len
        invariant
            start <= i <= len,
            len == sv.len(),
            sv == s@,
            ds == seg_digits(sv),
            ds == sv.subrange(start as int, len as int),
            neg == seg_negative(sv),
            start <= 1,
            forall|j: int| start <= j < i ==> is_digit(sv[j]),
            acc == digits_value(ds.take(i - start)),
        decreases len - i,
    {
        let b = s[i];
        if b < 48 || b > 57 {
            proof {
                assert(ds[i - start] == sv[i as int]);
                assert(!is_digit(ds[i - start]));
                assert(seg_int(sv) is None);
            }
            return None;
        }
        let d = (b - 48) as u64;
        proof {
            assert(ds.take(i - start + 1).drop_last() =~= ds.take(i - start));
            assert(ds.take(i - start + 1).last() == sv[i as int]);
            assert(digits_value(ds.take(i - start + 1)) == acc * 10 + d);
        }
        if acc > (u64::MAX - d) / 10 {
            proof {
                assert(acc * 10 + d > u64::MAX) by (nonlinear_arith)
                    requires
                        acc > (u64::MAX - d) / 10,
                        d <= 9,
                        acc >= 0,
                ;
                if forall|j: int| 0 <= j < ds.len() ==> is_digit(ds[j]) {
                    lemma_digits_overflow(ds, i - start + 1);
                    assert(seg_int(sv) matches Some(v) && (v > i64::MAX || v < i64::MIN));
                } else {
                    assert(seg_int(sv) is None);
                }
                assert(parse_i64_spec(sv) is None);
            }
            return None;
        }
        acc = acc * 10 + d;
        i += 1;
    }
    proof {
        assert(ds.take(len - start) =~= ds);
        assert(forall|j: int| 0 <= j < ds.len() ==> is_digit(ds[j]));
        assert(seg_int(sv) == Some(if seg_negative(sv) {
            -digits_value(ds)
        } else {
            digits_value(ds)
        }));
    }
    if neg {
        if acc <= 9223372036854775807 {
            Some(-(acc as i64))
        } else if acc == 9223372036854775808 {
            Some(i64::MIN)
        } else {
            None
        }
    } else {
        if acc <= 9223372036854775807 {
            Some(acc as i64)
        } else {
            None
        }
    }
}

/// When the running value of a digit prefix already exceeds the 64-bit
/// unsigned range, the whole digit string denotes a value out of range of
/// a 64-bit signed integer in either sign.
proof fn lemma_digits_overflow(ds: Seq<u8>, k: int)
    requires
        forall|i: int| 0 <= i < ds.len() ==> is_digit(ds[i]),
        0 < k <= ds.len(),
        digits_value(ds.take(k)) > u64::MAX,
    ensures
        digits_value(ds) > u64::MAX,
{
    lemma_digits_value_grows(ds, k);
    assert(ds.take(ds.len() as int) =~= ds);
}

} // verus!
