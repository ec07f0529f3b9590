//! Path-literal matching.
//!
//! A pattern string is split on `/` (after trimming leading and trailing
//! slashes) and each literal segment is percent-encoded once, at
//! construction time.  At preflight time successive request segments are
//! compared byte-for-byte against the precomputed encoded segments; any
//! mismatch, and running out of request segments mid-pattern, is an
//! advisory routing failure.  The wildcard pattern `*` consumes all
//! remaining segments unconditionally.

use vstd::prelude::*;

use crate::cursor::{
    after_segment, find_slash, find_slash_in, segments_from, copy_range, lemma_find_slash_bounds,
    PreflightContext,
};
use crate::error::Error;
use crate::request::bytes_eq;

verus! {

use vstd::string::StrSliceExecFns;
use vstd::string::StringSliceAdditionalSpecFns;

// ==== percent-encoding of pattern segments ====

/// Whether a pattern byte is escaped: controls and non-ASCII bytes, the
/// bytes ` "#<>?\`{}` of the default escape set, and the path delimiter
/// `/` itself.
pub open spec fn needs_escape(b: u8) -> bool {
    ||| b < 32
    ||| b > 126
    ||| b == 32
    ||| b == 34
    ||| b == 35
    ||| b == 60
    ||| b == 62
    ||| b == 63
    ||| b == 96
    ||| b == 123
    ||| b == 125
    ||| b == 47
}

/// The upper-case hexadecimal digit for a value below sixteen.
pub open spec fn hex_digit(n: u8) -> u8 {
    if n < 10 {
        (48 + n) as u8
    } else {
        (55 + n) as u8
    }
}

/// How one byte appears in an encoded segment: itself, or `%` followed by
/// its two upper-case hexadecimal digits.
pub open spec fn escape_byte(b: u8) -> Seq<u8> {
    if needs_escape(b) {
        seq![37u8, hex_digit(b / 16), hex_digit(b % 16)]
    } else {
        seq![b]
    }
}

/// The percent-encoded form of a segment.
pub open spec fn encode_seg(s: Seq<u8>) -> Seq<u8>
    decreases s.len(),
{
    if s.len() == 0 {
        Seq::empty()
    } else {
        escape_byte(s[0]) + encode_seg(s.drop_first())
    }
}

proof fn lemma_encode_seg_push(s: Seq<u8>, b: u8)
    ensures
        encode_seg(s.push(b)) == encode_seg(s) + escape_byte(b),
    decreases s.len(),
{
    if s.len() == 0 {
        assert(s.push(b).len() == 1);
        assert(s.push(b)[0] == b);
        assert(s.push(b).drop_first() =~= Seq::<u8>::empty());
        assert(encode_seg(Seq::<u8>::empty()) =~= Seq::<u8>::empty());
        assert(encode_seg(s.push(b)) =~= escape_byte(b) + Seq::<u8>::empty());
        assert(encode_seg(s.push(b)) =~= escape_byte(b));
        assert(encode_seg(s) + escape_byte(b) =~= escape_byte(b));
    } else {
        assert(s.push(b).drop_first() =~= s.drop_first().push(b));
        lemma_encode_seg_push(s.drop_first(), b);
        assert(encode_seg(s.push(b)) =~= encode_seg(s) + escape_byte(b));
    }
}

/// Percent-encodes a pattern segment, executably.
pub fn encode_segment(s: &Vec<u8>) -> (r: Vec<u8>)
    ensures
        r@ == encode_seg(s@),
{
    let mut r: Vec<u8> = Vec::new();
    let mut i: usize = 0;
    while i < s.len()
        invariant
            i <= s.len(),
            r@ == encode_seg(s@.subrange(0, i as int)),
        decreases s.len() - i,
    {
        let b = s[i];
        proof {
            assert(s@.subrange(0, i as int + 1) =~= s@.subrange(0, i as int).push(b));
            lemma_encode_seg_push(s@.subrange(0, i as int), b);
        }
        if b < 32 || b > 126 || b == 32 || b == 34 || b == 35 || b == 60 || b == 62 || b == 63
            || b == 96 || b == 123 || b == 125 || b == 47 {
            r.push(37);
            r.push(hex_digit_exec(b / 16));
            r.push(hex_digit_exec(b % 16));
            proof {
                assert(r@ =~= encode_seg(s@.subrange(0, i as int)) + escape_byte(b));
            }
        } else {
            r.push(b);
            proof {
                assert(r@ =~= encode_seg(s@.subrange(0, i as int)) + escape_byte(b));
            }
        }
        i += 1;
    }
    proof {
        assert(s@.subrange(0, s@.len() as int) =~= s@);
    }
    r
}

fn hex_digit_exec(n: u8) -> (r: u8)
    requires
        n < 16,
    ensures
        r == hex_digit(n),
{
    if n < 10 {
        48 + n
    } else {
        55 + n
    }
}

// ==== the pattern model ====

/// The index of the first byte of `s` that is not a slash.
pub open spec fn trim_start(s: Seq<u8>, i: int) -> int
    decreases s.len() - i when 0 <= i <= s.len()
{
    if i >= s.len() {
        s.len() as int
    } else if s[i] == 47u8 {
        trim_start(s, i + 1)
    } else {
        i
    }
}

/// The index one past the last byte of `s.take(j)` that is not a slash.
pub open spec fn trim_end(s: Seq<u8>, j: int) -> int
    decreases j when 0 <= j <= s.len()
{
    if j <= 0 {
        0
    } else if s[j - 1] == 47u8 {
        trim_end(s, j - 1)
    } else {
        j
    }
}

/// The pattern with its leading and trailing slashes removed.
pub open spec fn trimmed_pattern(s: Seq<u8>) -> Seq<u8> {
    let f = trim_start(s, 0);
    let l = trim_end(s, s.len() as int);
    if f < l {
        s.subrange(f, l)
    } else {
        Seq::empty()
    }
}

/// The raw (not yet encoded) literal segments of a pattern.
pub open spec fn pattern_parts(s: Seq<u8>) -> Seq<Seq<u8>> {
    segments_from(trimmed_pattern(s), 0)
}

/// Whether the pattern is the wildcard that consumes every remaining
/// segment.
pub open spec fn pattern_is_wild(s: Seq<u8>) -> bool {
    trimmed_pattern(s) == seq![42u8]
}

/// A pattern is accepted when it is the wildcard, or splits into at least
/// one segment with none of them empty.
pub open spec fn pattern_wf(s: Seq<u8>) -> bool {
    ||| pattern_is_wild(s)
    ||| {
        &&& trimmed_pattern(s).len() > 0
        &&& forall|i: int| 0 <= i < pattern_parts(s).len() ==> pattern_parts(s)[i].len() > 0
    }
}

/// The encoded segments a well-formed literal pattern matches against.
pub open spec fn encoded_parts(s: Seq<u8>) -> Seq<Seq<u8>> {
    pattern_parts(s).map_values(|p: Seq<u8>| encode_seg(p))
}

// ==== the public pattern type ====

/// The two kinds of path matcher.
#[derive(Debug, Clone, PartialEq, Eq)]
pub enum MatchPathKind {
    /// Matches (multiple) path segments against encoded literals.
    Segments(Vec<Vec<u8>>),
    /// Matches all remaining path segments.
    AllSegments,
}

/// The error returned when a pattern cannot become an endpoint.
#[derive(Debug, Clone, PartialEq, Eq, Structural)]
pub enum ParseMatchError {
    /// The pattern contains an empty literal segment.
    EmptyString,
}

/// An endpoint descriptor that matches a fixed path pattern.
#[derive(Debug, Clone, PartialEq, Eq)]
pub struct MatchPath {
    pub kind: MatchPathKind,
}

impl MatchPath {
    /// What a parsed pattern promises about its kind.
    pub open spec fn parsed_from(&self, s: Seq<u8>) -> bool {
        if pattern_is_wild(s) {
            self.kind is AllSegments
        } else {
            self.kind matches MatchPathKind::Segments(v) && v.deep_view() == encoded_parts(s)
        }
    }

    /// Creates an instance of `MatchPath` from the given string: trims
    /// outer slashes, recognizes the wildcard, otherwise splits on `/`,
    /// rejects empty literal segments, and percent-encodes the rest.
    pub fn from_str(s: &str) -> (r: Result<MatchPath, ParseMatchError>)
        ensures
            match r {
                Ok(mp) => pattern_wf(s.spec_bytes()) && mp.parsed_from(s.spec_bytes()),
                Err(e) => !pattern_wf(s.spec_bytes()) && e == ParseMatchError::EmptyString,
            },
    {
        let bytes = s.as_bytes_vec();
        let ghost sb = s.spec_bytes();
        let t = trim_slashes(&bytes);
        let ghost tv = trimmed_pattern(sb);
        if t.len() == 1 && t[0] == 42 {
            proof {
                assert(tv =~= seq![42u8]);
            }
            return Ok(MatchPath { kind: MatchPathKind::AllSegments });
        }
        proof {
            assert(!pattern_is_wild(sb)) by {
                if pattern_is_wild(sb) {
                    assert(tv.len() == 1 && tv[0] == 42u8);
                }
            }
        }
        if t.len() == 0 {
            proof {
                assert(!pattern_wf(sb));
            }
            return Err(ParseMatchError::EmptyString);
        }
        let mut encoded: Vec<Vec<u8>> = Vec::new();
        let ghost parts = pattern_parts(sb);
        let mut pos: usize = 0;
        while pos < t.len()
            invariant
                pos <= t@.len(),
                sb == s.spec_bytes(),
                tv == trimmed_pattern(sb),
                tv == t@,
                parts == pattern_parts(sb),
                parts == segments_from(tv, 0),
                !pattern_is_wild(sb),
                tv.len() > 0,
                segments_from(tv, 0) == parts.subrange(0, encoded@.len() as int)
                    + segments_from(tv, pos as int),
                encoded@.len() <= parts.len(),
                forall|i: int|
                    0 <= i < encoded@.len() ==> #[trigger] encoded@[i]@ == encode_seg(parts[i]),
                forall|i: int| 0 <= i < encoded@.len() ==> parts[i].len() > 0,
            decreases t@.len() - pos,
        {
            let e = find_slash_in(&t, pos);
            let seg = copy_range(&t, pos, e);
            let ghost k = encoded@.len() as int;
            proof {
                lemma_find_slash_bounds(tv, pos as int);
                assert(segments_from(tv, pos as int) == seq![tv.subrange(
                    pos as int,
                    find_slash(tv, pos as int),
                )] + segments_from(tv, after_segment(tv, pos as int)));
                assert(segments_from(tv, pos as int).len() >= 1);
                assert(parts.len() == k + segments_from(tv, pos as int).len());
                assert(0 <= k < parts.len());
                assert(parts[k] == seg@);
            }
            if seg.len() == 0 {
                proof {
                    assert(parts[k].len() == 0);
                    assert(!pattern_wf(sb)) by {
                        assert(pattern_parts(sb) == parts);
                        assert(0 <= k < pattern_parts(sb).len() && pattern_parts(sb)[k].len()
                            == 0);
                    }
                }
                return Err(ParseMatchError::EmptyString);
            }
            let enc = encode_segment(&seg);
            encoded.push(enc);
            proof {
                assert(segments_from(tv, 0) =~= parts.subrange(0, k + 1) + segments_from(
                    tv,
                    after_segment(tv, pos as int),
                ));
            }
            if e < t.len() {
                pos = e + 1;
            } else {
                pos = e;
            }
        }
        proof {
            assert(segments_from(tv, pos as int) =~= Seq::<Seq<u8>>::empty());
            assert(parts =~= parts.subrange(0, encoded@.len() as int));
            assert(encoded@.len() == parts.len());
            assert forall|i: int| 0 <= i < parts.len() implies encoded.deep_view()[i]
                == encoded_parts(sb)[i] by {
                assert(encoded.deep_view()[i] == encoded@[i].deep_view());
                assert(encoded@[i].deep_view() =~= encoded@[i]@);
                assert(encoded@[i]@ == encode_seg(parts[i]));
            }
            assert(encoded.deep_view() =~= encoded_parts(sb));
            assert(pattern_wf(sb));
        }
        Ok(MatchPath { kind: MatchPathKind::Segments(encoded) })
    }

    /// Returns the kind of this matcher.
    pub fn kind(&self) -> (r: &MatchPathKind)
        ensures
            r == self.kind,
    {
        &self.kind
    }
}

/// Copies `v` with its leading and trailing slashes removed.
fn trim_slashes(v: &Vec<u8>) -> (r: Vec<u8>)
    ensures
        r@ == trimmed_pattern(v@),
{
    let ghost s = v@;
    let len = v.len();
    let mut f: usize = 0;
    while f < len && v[f] == 47
        invariant
            f <= len,
            len == s.len(),
            s == v@,
            trim_start(s, 0) == trim_start(s, f as int),
        decreases len - f,
    {
        proof {
            assert(trim_start(s, f as int) == trim_start(s, f as int + 1));
        }
        f += 1;
    }
    let mut l: usize = len;
    while l > 0 && v[l - 1] == 47
        invariant
            l <= len,
            len == s.len(),
            s == v@,
            trim_end(s, len as int) == trim_end(s, l as int),
        decreases l,
    {
        proof {
            assert(trim_end(s, l as int) == trim_end(s, l as int - 1));
        }
        l -= 1;
    }
    proof {
        lemma_trim_start_bounds(s, 0);
        lemma_trim_end_bounds(s, s.len() as int);
    }
    if f < l {
        copy_range(v, f, l)
    } else {
        proof {
            assert(trimmed_pattern(s) =~= Seq::<u8>::empty());
        }
        Vec::new()
    }
}

proof fn lemma_trim_start_bounds(s: Seq<u8>, i: int)
    requires
        0 <= i <= s.len(),
    ensures
        i <= trim_start(s, i) <= s.len(),
    decreases s.len() - i,
{
    if i < s.len() && s[i] == 47u8 {
        lemma_trim_start_bounds(s, i + 1);
    }
}

proof fn lemma_trim_end_bounds(s: Seq<u8>, j: int)
    requires
        0 <= j <= s.len(),
    ensures
        0 <= trim_end(s, j) <= j,
    decreases j,
{
    if j > 0 && s[j - 1] == 47u8 {
        lemma_trim_end_bounds(s, j - 1);
    }
}

/// Creates an endpoint descriptor that takes some segments from the path
/// and checks that they match the given pattern.
///
/// The pattern must be well formed: the wildcard `*`, or at least one
/// non-empty literal segment.
pub fn path(s: &str) -> (r: MatchPath)
    requires
        pattern_wf(s.spec_bytes()),
    ensures
        r.parsed_from(s.spec_bytes()),
{
    match MatchPath::from_str(s) {
        Ok(mp) => mp,
        Err(_) => vstd::pervasive::unreached(),
    }
}

// ==== matching against the cursor ====

/// Whether `pat` is a prefix of the remaining request segments `rem`.
pub open spec fn is_prefix_of(pat: Seq<Seq<u8>>, rem: Seq<Seq<u8>>) -> bool {
    pat.len() <= rem.len() && forall|i: int| 0 <= i < pat.len() ==> rem[i] == pat[i]
}

/// The cursor position reached after consuming `n` segments from `pos`.
pub open spec fn pos_after_n(path: Seq<u8>, pos: int, n: int) -> int
    decreases n,
{
    if n <= 0 {
        pos
    } else {
        pos_after_n(path, after_segment(path, pos), n - 1)
    }
}

proof fn lemma_pos_after_snoc(path: Seq<u8>, pos: int, n: int)
    requires
        n >= 0,
    ensures
        pos_after_n(path, pos, n + 1) == after_segment(path, pos_after_n(path, pos, n)),
    decreases n,
{
    if n == 0 {
        assert(pos_after_n(path, pos, 1) == pos_after_n(path, after_segment(path, pos), 0));
    } else {
        lemma_pos_after_snoc(path, after_segment(path, pos), n - 1);
        assert(pos_after_n(path, pos, n + 1) == pos_after_n(
            path,
            after_segment(path, pos),
            n,
        ));
        assert(pos_after_n(path, pos, n) == pos_after_n(
            path,
            after_segment(path, pos),
            n - 1,
        ));
    }
}

/// Pops successive request segments and compares them byte-for-byte with
/// the encoded pattern segments.  On success the cursor sits exactly past
/// the matched segments; on any mismatch, and when the request runs out of
/// segments mid-pattern, the cursor is rewound and the advisory
/// routing-miss error is returned.
pub fn match_literals(cx: &mut PreflightContext, pat: &Vec<Vec<u8>>) -> (r: Result<
    (),
    Error,
>)
    requires
        old(cx).wf(),
    ensures
        final(cx).wf(),
        final(cx).req == old(cx).req,
        match r {
            Ok(()) => {
                &&& is_prefix_of(pat.deep_view(), old(cx).remaining_segments())
                &&& final(cx).remaining_segments() == old(cx).remaining_segments().skip(
                    pat.deep_view().len() as int,
                )
                &&& final(cx).pos == pos_after_n(
                    old(cx).req.path@,
                    old(cx).pos as int,
                    pat.deep_view().len() as int,
                )
                &&& final(cx).popped == old(cx).popped + pat.deep_view().len()
            },
            Err(e) => {
                &&& !is_prefix_of(pat.deep_view(), old(cx).remaining_segments())
                &&& *final(cx) == *old(cx)
                &&& e.advisory
                &&& e.status == 404u16
            },
        },
{
    let start = cx.mark();
    let ghost rem0 = cx.remaining_segments();
    let ghost path = cx.req.path@;
    let ghost pos0 = cx.pos as int;
    let ghost popped0 = cx.popped as int;
    let n = pat.len();
    let mut i: usize = 0;
    while i < n
        invariant
            cx.wf(),
            i <= n,
            n == pat@.len(),
            cx.req == old(cx).req,
            pos0 == old(cx).pos,
            popped0 == old(cx).popped,
            rem0 == old(cx).remaining_segments(),
            start.pos == pos0,
            start.popped == popped0,
            path == cx.req.path@,
            1 <= pos0 <= path.len(),
            popped0 < pos0,
            rem0 == segments_from(path, pos0),
            i <= rem0.len(),
            cx.remaining_segments() == rem0.skip(i as int),
            cx.pos == pos_after_n(path, pos0, i as int),
            cx.popped == popped0 + i,
            forall|j: int| 0 <= j < i ==> rem0[j] == pat.deep_view()[j],
        decreases n - i,
    {
        let ghost rem_here = cx.remaining_segments();
        match cx.next_segment() {
            None => {
                proof {
                    assert(rem0.skip(i as int).len() == 0);
                    assert(rem0.len() == i < pat.deep_view().len());
                }
                cx.rewind(start);
                proof {
                    assert(*cx == *old(cx));
                }
                return Err(crate::error::NoRoute::new().into_error());
            },
            Some(seg) => {
                proof {
                    assert(rem_here == seq![seg@] + cx.remaining_segments());
                    assert(rem_here.len() >= 1);
                    assert(i < rem0.len());
                    assert(rem0.skip(i as int)[0] == seg@);
                    assert(rem0[i as int] == seg@);
                    assert forall|j: int|
                        0 <= j < cx.remaining_segments().len() implies cx.remaining_segments()[j]
                        == rem0.skip(i as int + 1)[j] by {
                        assert(cx.remaining_segments()[j] == rem_here[j + 1]);
                        assert(rem_here[j + 1] == rem0.skip(i as int)[j + 1]);
                        assert(rem0.skip(i as int)[j + 1] == rem0[i + 1 + j]);
                        assert(rem0.skip(i as int + 1)[j] == rem0[i + 1 + j]);
                    }
                    assert(cx.remaining_segments().len() == rem0.skip(i as int + 1).len());
                    assert(cx.remaining_segments() =~= rem0.skip(i as int + 1));
                    lemma_pos_after_snoc(path, pos0, i as int);
                }
                if !bytes_eq(&seg, &pat[i]) {
                    proof {
                        assert(pat.deep_view()[i as int] == pat@[i as int]@);
                        assert(rem0[i as int] != pat.deep_view()[i as int]);
                    }
                    cx.rewind(start);
                    proof {
                        assert(*cx == *old(cx));
                    }
                    return Err(crate::error::NoRoute::new().into_error());
                }
                proof {
                    assert(pat.deep_view()[i as int] == pat@[i as int]@);
                }
                i += 1;
            },
        }
    }
    proof {
        assert(pat.deep_view().len() == n);
        assert(is_prefix_of(pat.deep_view(), rem0));
    }
    Ok(())
}

/// Consumes every remaining segment; always succeeds.
pub fn consume_all(cx: &mut PreflightContext)
    requires
        old(cx).wf(),
    ensures
        final(cx).wf(),
        final(cx).req == old(cx).req,
        final(cx).pos == old(cx).req.path@.len(),
        final(cx).popped == old(cx).popped + old(cx).remaining_segments().len(),
        final(cx).remaining_segments() == Seq::<Seq<u8>>::empty(),
{
    let ghost rem0 = cx.remaining_segments();
    let ghost popped0 = cx.popped as int;
    loop
        invariant
            cx.wf(),
            cx.req == old(cx).req,
            popped0 == old(cx).popped,
            rem0 == segments_from(old(cx).req.path@, old(cx).pos as int),
            cx.popped == popped0 + (rem0.len() - cx.remaining_segments().len()),
            cx.remaining_segments().len() <= rem0.len(),
        ensures
            cx.wf(),
            cx.req == old(cx).req,
            cx.pos == old(cx).req.path@.len(),
            cx.popped == popped0 + rem0.len(),
            cx.remaining_segments() == Seq::<Seq<u8>>::empty(),
        decreases cx.remaining_segments().len(),
    {
        let ghost before = cx.remaining_segments();
        match cx.next_segment() {
            None => {
                proof {
                    assert(cx.remaining_segments() =~= Seq::<Seq<u8>>::empty());
                }
                break ;
            },
            Some(_) => {
                proof {
                    assert(before.len() == 1 + cx.remaining_segments().len());
                }
            },
        }
    }
}

} // verus!
