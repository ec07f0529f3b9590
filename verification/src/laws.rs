//! The laws the combinators obey, stated over the transition relations
//! and proved once and for all.

use vstd::prelude::*;

use crate::action::{
    both_finish, decode_poll_rel, pf_alt, pf_both, pf_mapped, pf_path, pf_rel, pf_store,
    pf_witness, poll_mapped, poll_rel, poll_witness, recv_poll_rel, rewound, Action, AndAction,
    BodyKind, MapAction, PathAction,
};
use crate::context::ActionContext;
use crate::cursor::{segments_from, segments_of, PreflightContext};
use crate::error::Error;
use crate::output::{apply_transform_spec, Polled, Preflight, Val};
use crate::path::{
    encoded_parts, is_prefix_of, pattern_is_wild, pattern_wf, pos_after_n, MatchPath,
    MatchPathKind,
};

verus! {

use vstd::string::StringSliceAdditionalSpecFns;

/// A literal matcher built from the pattern `s` succeeds exactly when
/// the pattern's encoded segments are a prefix of the remaining request
/// segments; on success the cursor stands exactly past them, having
/// popped exactly that many segments, and on failure the error is
/// advisory and the cursor untouched.
pub proof fn lemma_literal_match(
    s: &str,
    mp: MatchPath,
    pat: Vec<Vec<u8>>,
    cx0: PreflightContext,
    a1: Action,
    cx1: PreflightContext,
    r: Result<Preflight<Vec<Val>>, Error>,
)
    requires
        cx0.wf(),
        pattern_wf(s.spec_bytes()),
        !pattern_is_wild(s.spec_bytes()),
        mp.parsed_from(s.spec_bytes()),
        mp.kind == MatchPathKind::Segments(pat),
        pf_path(PathAction { kind: mp.kind, done: false }, cx0, a1, cx1, r),
    ensures
        (r is Ok) <==> is_prefix_of(encoded_parts(s.spec_bytes()), cx0.remaining_segments()),
        r is Ok ==> cx1.remaining_segments() == cx0.remaining_segments().skip(
            encoded_parts(s.spec_bytes()).len() as int,
        ),
        r is Ok ==> cx1.pos == pos_after_n(
            cx0.req.path@,
            cx0.pos as int,
            encoded_parts(s.spec_bytes()).len() as int,
        ),
        r is Ok ==> cx1.popped == cx0.popped + encoded_parts(s.spec_bytes()).len(),
        !(r is Ok) ==> cx1 == cx0 && (r matches Err(e) && e.advisory && e.status == 404u16),
{
    assert(pat.deep_view() == encoded_parts(s.spec_bytes()));
    if r is Ok {
        crate::cursor::lemma_segments_after_n(
            cx0.req.path@,
            cx0.pos as int,
            pat.deep_view().len() as int,
        );
    }
}

/// The root path holds no segments at all.
pub proof fn lemma_root_path_has_no_segments(path: Seq<u8>)
    requires
        path == seq![47u8],
    ensures
        segments_of(path) == Seq::<Seq<u8>>::empty(),
{
    assert(segments_of(path) =~= Seq::<Seq<u8>>::empty());
}

/// An exhausted cursor yields nothing, and stays exhausted: at the end
/// of the path there are no remaining segments.
pub proof fn lemma_exhausted_cursor_stable(path: Seq<u8>, pos: int)
    requires
        0 <= pos,
        pos == path.len(),
    ensures
        segments_from(path, pos) == Seq::<Seq<u8>>::empty(),
{
    assert(segments_from(path, pos) =~= Seq::<Seq<u8>>::empty());
}

/// When a conjunction that keeps both outputs completes during
/// preflight, the output tuple is the left child's output followed by
/// the right child's — in that order — and the right child's preflight
/// ran over the cursor the left child's preflight left behind.
pub proof fn lemma_and_combines_in_order(
    st: AndAction,
    cx0: PreflightContext,
    a1: Action,
    cx1: PreflightContext,
    out: Vec<Val>,
)
    requires
        pf_both(st, cx0, a1, cx1, Ok(Preflight::Completed(out))),
        st.keep is Both,
        st.left_out is None,
        st.right_out is None,
    ensures
        exists|la: Action, cxm: PreflightContext, lv: Vec<Val>, ra: Action, rv: Vec<Val>|
            #![trigger pf_rel(*st.left, cx0, la, cxm, Ok(Preflight::Completed(lv))), pf_rel(
                *st.right,
                cxm,
                ra,
                cx1,
                Ok(Preflight::Completed(rv)),
            )]
            {
                &&& pf_rel(*st.left, cx0, la, cxm, Ok(Preflight::Completed(lv)))
                &&& pf_rel(*st.right, cxm, ra, cx1, Ok(Preflight::Completed(rv)))
                &&& out@ == lv@ + rv@
            },
{
    let r: Result<Preflight<Vec<Val>>, Error> = Ok(Preflight::Completed(out));
    let (la, lb, lc) = choose|la: Action, lb: PreflightContext, lc: Result<
        Preflight<Vec<Val>>,
        Error,
    >|
        {
            &&& #[trigger] pf_witness(la, lb, lc)
            &&& pf_rel(*st.left, cx0, la, lb, lc)
            &&& match lc {
                Err(e) => {
                    &&& crate::action::both_rebuilt(
                        st,
                        a1,
                        la,
                        *st.right,
                        st.left_out,
                        st.right_out,
                    )
                    &&& cx1 == lb
                    &&& r matches Err(e1) && e1 == e
                },
                Ok(lp) => exists|ra: Action, rb: PreflightContext, rc: Result<
                    Preflight<Vec<Val>>,
                    Error,
                >|
                    {
                        &&& #[trigger] pf_witness(ra, rb, rc)
                        &&& pf_rel(*st.right, lb, ra, rb, rc)
                        &&& cx1 == rb
                        &&& match rc {
                            Err(e) => {
                                &&& crate::action::both_rebuilt(
                                    st,
                                    a1,
                                    la,
                                    ra,
                                    pf_store(lp, st.left_out),
                                    st.right_out,
                                )
                                &&& r matches Err(e1) && e1 == e
                            },
                            Ok(rp) => both_finish(st, a1, la, ra, lp, rp, r),
                        }
                    },
            }
        };
    match lc {
        Err(_) => {
            assert(false);
        },
        Ok(lp) => {
            let (ra, rb, rc) = choose|ra: Action, rb: PreflightContext, rc: Result<
                Preflight<Vec<Val>>,
                Error,
            >|
                {
                    &&& #[trigger] pf_witness(ra, rb, rc)
                    &&& pf_rel(*st.right, lb, ra, rb, rc)
                    &&& cx1 == rb
                    &&& match rc {
                        Err(e) => {
                            &&& crate::action::both_rebuilt(
                                st,
                                a1,
                                la,
                                ra,
                                pf_store(lp, st.left_out),
                                st.right_out,
                            )
                            &&& r matches Err(e1) && e1 == e
                        },
                        Ok(rp) => both_finish(st, a1, la, ra, lp, rp, r),
                    }
                };
            match rc {
                Err(_) => {
                    assert(false);
                },
                Ok(rp) => {
                    match (lp, rp) {
                        (Preflight::Completed(lv), Preflight::Completed(rv)) => {
                            assert(pf_rel(*st.left, cx0, la, lb, Ok(
                                Preflight::Completed(lv),
                            )));
                            assert(pf_rel(*st.right, lb, ra, rb, Ok(
                                Preflight::Completed(rv),
                            )));
                            assert(cx1 == rb);
                            assert(out@ == lv@ + rv@);
                        },
                        _ => {
                            assert(false);
                        },
                    }
                },
            }
        },
    }
}

/// When the left child of a conjunction is a fresh literal matcher whose
/// pattern does not match, the conjunction's preflight reports that
/// advisory error and the right child is never consulted: it stands in
/// the rebuilt conjunction exactly as it was.
pub proof fn lemma_and_stops_at_left_mismatch(
    st: AndAction,
    pat: Vec<Vec<u8>>,
    cx0: PreflightContext,
    a1: Action,
    cx1: PreflightContext,
    r: Result<Preflight<Vec<Val>>, Error>,
)
    requires
        pf_both(st, cx0, a1, cx1, r),
        *st.left == Action::Path(
            PathAction { kind: MatchPathKind::Segments(pat), done: false },
        ),
        !is_prefix_of(pat.deep_view(), cx0.remaining_segments()),
    ensures
        r matches Err(e) && e.advisory && e.status == 404u16,
        cx1 == cx0,
        a1 matches Action::Both(st1) && st1.right == st.right && st1.left_out == st.left_out
            && st1.right_out == st.right_out,
{
    let (la, lb, lc) = choose|la: Action, lb: PreflightContext, lc: Result<
        Preflight<Vec<Val>>,
        Error,
    >|
        {
            &&& #[trigger] pf_witness(la, lb, lc)
            &&& pf_rel(*st.left, cx0, la, lb, lc)
        } && pf_both_body(st, cx0, a1, cx1, r, la, lb, lc);
    assert(pf_path(
        PathAction { kind: MatchPathKind::Segments(pat), done: false },
        cx0,
        la,
        lb,
        lc,
    ));
}

/// When the left branch of an alternative is a fresh literal matcher
/// whose pattern does not match — an advisory mismatch — the
/// alternative's result is the right branch's result: the right branch
/// preflights over the original cursor, its output is reported (tagged
/// when wrapping), and the left branch's error is discarded.
pub proof fn lemma_or_falls_through_on_advisory(
    st: crate::action::OrAction,
    l0: Box<Action>,
    r0: Box<Action>,
    pat: Vec<Vec<u8>>,
    cx0: PreflightContext,
    a1: Action,
    cx1: PreflightContext,
    r: Result<Preflight<Vec<Val>>, Error>,
)
    requires
        pf_alt(st, cx0, a1, cx1, r),
        st.state == crate::action::AltState::Start(l0, r0),
        *l0 == Action::Path(PathAction { kind: MatchPathKind::Segments(pat), done: false }),
        !is_prefix_of(pat.deep_view(), cx0.remaining_segments()),
    ensures
        exists|ra: Action, rb: PreflightContext, rc: Result<Preflight<Vec<Val>>, Error>|
            #![trigger pf_rel(*r0, cx0, ra, rb, rc)]
            {
                &&& pf_rel(*r0, cx0, ra, rb, rc)
                &&& cx1 == rb
                &&& match rc {
                    Ok(Preflight::Completed(v)) => r matches Ok(p) && (p matches
                        Preflight::Completed(out) && crate::action::alt_out_ok(
                        st.wrap,
                        false,
                        v,
                        out,
                    )),
                    Ok(Preflight::Incomplete) => r matches Ok(p) && p is Incomplete,
                    Err(e2) => r matches Err(e3) && e3 == e2,
                }
            },
{
    let (la, lb, lc) = choose|la: Action, lb: PreflightContext, lc: Result<
        Preflight<Vec<Val>>,
        Error,
    >|
        {
            &&& #[trigger] pf_witness(la, lb, lc)
            &&& pf_rel(*l0, cx0, la, lb, lc)
            &&& pf_alt_left_body(st, cx0, a1, cx1, r, la, lb, lc)
        };
    assert(pf_path(
        PathAction { kind: MatchPathKind::Segments(pat), done: false },
        cx0,
        la,
        lb,
        lc,
    ));
    assert(lc matches Err(e) && e.advisory);
    assert(lb == cx0);
    let (ra, rb, rc) = choose|ra: Action, rb: PreflightContext, rc: Result<
        Preflight<Vec<Val>>,
        Error,
    >|
        {
            &&& #[trigger] pf_witness(ra, rb, rc)
            &&& pf_rel(*r0, rewound(lb, cx0), ra, rb, rc)
            &&& crate::action::alt_now(st.wrap, false, a1, ra)
            &&& cx1 == rb
            &&& match rc {
                Ok(Preflight::Completed(v)) => match r {
                    Ok(Preflight::Completed(out)) => crate::action::alt_out_ok(
                        st.wrap,
                        false,
                        v,
                        out,
                    ),
                    _ => false,
                },
                Ok(Preflight::Incomplete) => r matches Ok(p) && p is Incomplete,
                Err(e2) => r matches Err(e3) && e3 == e2,
            }
        };
    assert(rewound(lb, cx0) == cx0);
    assert(pf_rel(*r0, cx0, ra, rb, rc));
}

/// The left-step body of the alternative preflight relation, spelled
/// out so the laws can quantify over traces.
pub open spec fn pf_alt_left_body(
    st0: crate::action::OrAction,
    cx0: PreflightContext,
    a1: Action,
    cx1: PreflightContext,
    r: Result<Preflight<Vec<Val>>, Error>,
    la: Action,
    lb: PreflightContext,
    lc: Result<Preflight<Vec<Val>>, Error>,
) -> bool {
    match lc {
        Ok(lp) => {
            &&& crate::action::alt_now(st0.wrap, true, a1, la)
            &&& cx1 == lb
            &&& match lp {
                Preflight::Completed(v) => match r {
                    Ok(Preflight::Completed(out)) => crate::action::alt_out_ok(
                        st0.wrap,
                        true,
                        v,
                        out,
                    ),
                    _ => false,
                },
                Preflight::Incomplete => r matches Ok(p) && p is Incomplete,
            }
        },
        Err(e) => if !e.advisory {
            &&& crate::action::alt_now(st0.wrap, true, a1, la)
            &&& cx1 == lb
            &&& r matches Err(e1) && e1 == e
        } else {
            exists|ra: Action, rb: PreflightContext, rc: Result<Preflight<Vec<Val>>, Error>|
                {
                    &&& #[trigger] pf_witness(ra, rb, rc)
                    &&& pf_rel(
                        *(st0.state->Start_1),
                        rewound(lb, cx0),
                        ra,
                        rb,
                        rc,
                    )
                    &&& crate::action::alt_now(st0.wrap, false, a1, ra)
                    &&& cx1 == rb
                    &&& match rc {
                        Ok(Preflight::Completed(v)) => match r {
                            Ok(Preflight::Completed(out)) => crate::action::alt_out_ok(
                                st0.wrap,
                                false,
                                v,
                                out,
                            ),
                            _ => false,
                        },
                        Ok(Preflight::Incomplete) => r matches Ok(p) && p is Incomplete,
                        Err(e2) => r matches Err(e3) && e3 == e2,
                    }
                }
        },
    }
}

/// When the left branch of an alternative is a body endpoint whose
/// `Content-Type` rule fails — a hard error — the alternative aborts at
/// once with that error: the right branch is never consulted, and the
/// alternative stands committed to the left branch.
pub proof fn lemma_or_aborts_on_hard_error(
    st: crate::action::OrAction,
    l0: Box<Action>,
    r0: Box<Action>,
    cx0: PreflightContext,
    a1: Action,
    cx1: PreflightContext,
    r: Result<Preflight<Vec<Val>>, Error>,
)
    requires
        pf_alt(st, cx0, a1, cx1, r),
        st.state == crate::action::AltState::Start(l0, r0),
        *l0 is Json,
        !crate::action::json_ct_ok(cx0.req),
    ensures
        r matches Err(e) && !e.advisory && e.status == 400u16,
        cx1 == cx0,
        a1 matches Action::Alt(st1) && st1.state is Left,
{
    let (la, lb, lc) = choose|la: Action, lb: PreflightContext, lc: Result<
        Preflight<Vec<Val>>,
        Error,
    >|
        {
            &&& #[trigger] pf_witness(la, lb, lc)
            &&& pf_rel(*l0, cx0, la, lb, lc)
            &&& pf_alt_left_body(st, cx0, a1, cx1, r, la, lb, lc)
        };
    assert(lc matches Err(e) && !e.advisory && e.status == 400u16);
    assert(lb == cx0);
}

/// A mapping combinator that completes during preflight applied its
/// transformation exactly once, right there: the output is the single
/// transformed value of what its child completed with.
pub proof fn lemma_map_applied_once_at_preflight(
    m: MapAction,
    cx0: PreflightContext,
    a1: Action,
    cx1: PreflightContext,
    out: Vec<Val>,
)
    requires
        pf_mapped(m, cx0, a1, cx1, Ok(Preflight::Completed(out))),
    ensures
        exists|ia: Action, ib: PreflightContext, v: Vec<Val>|
            #![trigger pf_rel(*m.inner, cx0, ia, ib, Ok(Preflight::Completed(v)))]
            {
                &&& pf_rel(*m.inner, cx0, ia, ib, Ok(Preflight::Completed(v)))
                &&& cx1 == ib
                &&& out@ == seq![apply_transform_spec(m.op, v@)]
            },
{
    let r: Result<Preflight<Vec<Val>>, Error> = Ok(Preflight::Completed(out));
    let (ia, ib, ic) = choose|ia: Action, ib: PreflightContext, ic: Result<
        Preflight<Vec<Val>>,
        Error,
    >|
        {
            &&& #[trigger] pf_witness(ia, ib, ic)
            &&& pf_rel(*m.inner, cx0, ia, ib, ic)
            &&& a1 matches Action::Mapped(m1) && *m1.inner == ia && m1.op == m.op
            &&& cx1 == ib
            &&& match ic {
                Ok(Preflight::Completed(v)) => match r {
                    Ok(Preflight::Completed(out2)) => out2@ == seq![
                        apply_transform_spec(m.op, v@),
                    ],
                    _ => false,
                },
                Ok(Preflight::Incomplete) => r matches Ok(p) && p is Incomplete,
                Err(e) => r matches Err(e1) && e1 == e,
            }
        };
    match ic {
        Ok(Preflight::Completed(v)) => {
            assert(pf_rel(*m.inner, cx0, ia, ib, Ok(Preflight::Completed(v))));
        },
        _ => {
            assert(false);
        },
    }
}

/// A mapping combinator whose child completes only during polling
/// applies its transformation exactly once, at the poll that yields the
/// child's output.
pub proof fn lemma_map_applied_once_at_poll(
    m: MapAction,
    ctx0: ActionContext,
    a1: Action,
    ctx1: ActionContext,
    out: Vec<Val>,
)
    requires
        poll_mapped(m, ctx0, a1, ctx1, Ok(Polled::Ready(out))),
    ensures
        exists|ia: Action, ib: ActionContext, v: Vec<Val>|
            #![trigger poll_rel(*m.inner, ctx0, ia, ib, Ok(Polled::Ready(v)))]
            {
                &&& poll_rel(*m.inner, ctx0, ia, ib, Ok(Polled::Ready(v)))
                &&& ctx1 == ib
                &&& out@ == seq![apply_transform_spec(m.op, v@)]
            },
{
    let r: Result<Polled, Error> = Ok(Polled::Ready(out));
    let (ia, ib, ic) = choose|ia: Action, ib: ActionContext, ic: Result<Polled, Error>|
        {
            &&& #[trigger] poll_witness(ia, ib, ic)
            &&& poll_rel(*m.inner, ctx0, ia, ib, ic)
            &&& a1 matches Action::Mapped(m1) && *m1.inner == ia && m1.op == m.op
            &&& ctx1 == ib
            &&& match ic {
                Ok(Polled::Ready(v)) => match r {
                    Ok(Polled::Ready(out2)) => out2@ == seq![apply_transform_spec(m.op, v@)],
                    _ => false,
                },
                Ok(Polled::Pending) => r matches Ok(p) && p is Pending,
                Err(e) => r matches Err(e1) && e1 == e,
            }
        };
    match ic {
        Ok(Polled::Ready(v)) => {
            assert(poll_rel(*m.inner, ctx0, ia, ib, Ok(Polled::Ready(v))));
        },
        _ => {
            assert(false);
        },
    }
}

/// The request body is a single-consumption resource: once it is gone
/// from the context, every body-claiming leaf reports the terminal
/// "already consumed" error — never a panic, never empty data.
pub proof fn lemma_body_taken_once(
    a0: Action,
    ctx0: ActionContext,
    a1: Action,
    ctx1: ActionContext,
    r: Result<Polled, Error>,
)
    requires
        poll_rel(a0, ctx0, a1, ctx1, r),
        ctx0.body is None,
        match a0 {
            Action::Raw(_) => true,
            Action::Receive(ra) => ra.state is Start,
            Action::Text(t) => t.inner.state is Start,
            Action::Json(j) => j.inner.state is Start,
            Action::Urlencoded(u) => u.inner.state is Start,
            _ => false,
        },
    ensures
        r matches Err(e) && !e.advisory && e.status == 500u16,
        ctx1 == ctx0,
{
    match a0 {
        Action::Text(t) => {
            lemma_decode_stolen(BodyKind::Text, t.inner, ctx0, ctx1, r);
        },
        Action::Json(j) => {
            lemma_decode_stolen(BodyKind::Json, j.inner, ctx0, ctx1, r);
        },
        Action::Urlencoded(u) => {
            lemma_decode_stolen(BodyKind::Form, u.inner, ctx0, ctx1, r);
        },
        _ => {},
    }
}

proof fn lemma_decode_stolen(
    kind: BodyKind,
    i0: crate::action::ReceiveAllAction,
    ctx0: ActionContext,
    ctx1: ActionContext,
    r: Result<Polled, Error>,
)
    requires
        exists|i1: crate::action::ReceiveAllAction| decode_poll_rel(
            kind,
            i0,
            ctx0,
            i1,
            ctx1,
            r,
        ),
        i0.state is Start,
        ctx0.body is None,
    ensures
        r matches Err(e) && !e.advisory && e.status == 500u16,
        ctx1 == ctx0,
{
    let i1 = choose|i1: crate::action::ReceiveAllAction| decode_poll_rel(
        kind,
        i0,
        ctx0,
        i1,
        ctx1,
        r,
    );
    let (ma, mb, mc) = choose|ma: crate::action::ReceiveAllAction, mb: ActionContext, mc: Result<
        Polled,
        Error,
    >|
        {
            &&& #[trigger] recv_poll_rel(i0, ctx0, ma, mb, mc)
            &&& i1 == ma
            &&& mb == ctx1
            &&& match mc {
                Ok(Polled::Ready(out)) => out@.len() == 1 && match out@[0] {
                    Val::Bytes(bb) => crate::action::decode_finish(kind, bb, r),
                    _ => false,
                },
                Ok(Polled::Pending) => r matches Ok(p) && p is Pending,
                Err(e) => r matches Err(e1) && e1 == e,
            }
        };
    assert(mc matches Err(e) && !e.advisory && e.status == 500u16);
}

/// The body of the conjunction preflight relation for a fixed left
/// step; spelled out so the laws can quantify over traces.
pub open spec fn pf_both_body(
    st0: AndAction,
    cx0: PreflightContext,
    a1: Action,
    cx1: PreflightContext,
    r: Result<Preflight<Vec<Val>>, Error>,
    la: Action,
    lb: PreflightContext,
    lc: Result<Preflight<Vec<Val>>, Error>,
) -> bool {
    match lc {
        Err(e) => {
            &&& crate::action::both_rebuilt(st0, a1, la, *st0.right, st0.left_out, st0.right_out)
            &&& cx1 == lb
            &&& r matches Err(e1) && e1 == e
        },
        Ok(lp) => exists|ra: Action, rb: PreflightContext, rc: Result<
            Preflight<Vec<Val>>,
            Error,
        >|
            {
                &&& #[trigger] pf_witness(ra, rb, rc)
                &&& pf_rel(*st0.right, lb, ra, rb, rc)
                &&& cx1 == rb
                &&& match rc {
                    Err(e) => {
                        &&& crate::action::both_rebuilt(
                            st0,
                            a1,
                            la,
                            ra,
                            pf_store(lp, st0.left_out),
                            st0.right_out,
                        )
                        &&& r matches Err(e1) && e1 == e
                    },
                    Ok(rp) => both_finish(st0, a1, la, ra, lp, rp, r),
                }
            },
    }
}

} // verus!
