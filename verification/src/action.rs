//! The per-request action state machine.
//!
//! An endpoint descriptor manufactures one action per incoming request.
//! The action runs a two-phase protocol: `preflight` once, synchronously,
//! over the request metadata and the segment cursor; then, if the result
//! was incomplete, `poll_action` repeatedly until it yields the output
//! tuple or a terminal error.  Preflight errors are advisory-capable — an
//! enclosing alternative may catch one marked advisory and try its other
//! branch — while poll errors are always terminal.
//!
//! The behaviour of both phases is pinned down by the transition
//! relations [`pf_rel`] and [`poll_rel`]: each executable phase proves
//! that the state it returns, the context it leaves behind and the result
//! it reports stand in the relation to the state and context it started
//! from.

use vstd::prelude::*;

use crate::body::{Body, BodyPoll, BodyStep};
use crate::codec::{
    parse_i64, parse_i64_spec, json_valid, json_wf, form_valid, form_wf, media_type_of,
    parse_media_type, string_from_utf8,
};
use crate::context::ActionContext;
use crate::cursor::{after_segment, PreflightContext};
use crate::error::{BadRequest, Error, NoRoute, ServerError};
use crate::output::{apply_refine, apply_transform, apply_transform_spec, combine, refine_ok,
    Polled, Preflight, Refine, Transform, Val};
use crate::path::{is_prefix_of, match_literals, consume_all, pos_after_n, MatchPathKind};
use crate::request::{ascii_eq_ci, header_lookup, header_value, Method, Request};

verus! {

use vstd::string::StrSliceExecFns;
use vstd::string::StringSliceAdditionalSpecFns;
use vstd::utf8::{valid_utf8, decode_utf8};

// ==== the action state types ====

/// The action of a path-literal matcher: a oneshot that resolves during
/// preflight.
pub struct PathAction {
    pub kind: MatchPathKind,
    pub done: bool,
}

/// The action of the single-segment integer extractor.
pub struct ParamAction {
    pub done: bool,
}

/// The action that hands the raw body handle out of the context.
pub struct RawAction {
    pub _priv: (),
}

/// How far the body receiver has come.
pub enum RecvState {
    /// The body has not been claimed yet.
    Start,
    /// The body is owned and partially drained into the buffer.
    Receiving(Body, Vec<u8>),
    /// The payload was handed out; the receiver is spent.
    Done,
}

/// The action that receives the whole body payload.
pub struct ReceiveAllAction {
    pub state: RecvState,
}

/// The action that receives the body and decodes it as UTF-8 text.
pub struct TextAction {
    pub inner: ReceiveAllAction,
}

/// The action that receives the body and checks it is a JSON document.
pub struct JsonAction {
    pub inner: ReceiveAllAction,
}

/// The action that receives the body and checks it is form-urlencoded.
pub struct UrlencodedAction {
    pub inner: ReceiveAllAction,
}

/// Which child outputs a conjunction keeps.
#[derive(Clone, Copy, PartialEq, Eq, Structural)]
pub enum Keep {
    /// Keep both, concatenated left-then-right.
    Both,
    /// Keep only the left child's output.
    Left,
    /// Keep only the right child's output.
    Right,
}

/// The action of a conjunction: both children preflight in declaration
/// order; the children whose output is kept are polled in that order.
pub struct AndAction {
    pub left: Box<Action>,
    pub right: Box<Action>,
    pub left_out: Option<Vec<Val>>,
    pub right_out: Option<Vec<Val>>,
    pub keep: Keep,
}

/// Which branch an alternative has committed to.
pub enum AltState {
    /// Preflight has not run yet.
    Start(Box<Action>, Box<Action>),
    /// Committed to the left branch.
    Left(Box<Action>),
    /// Committed to the right branch.
    Right(Box<Action>),
}

/// The action of an ordered alternative: the left branch is tried first
/// and wins ties; an advisory preflight error falls through to the right
/// branch with the cursor rewound; a hard error aborts at once.
pub struct OrAction {
    /// Whether the winner's output is wrapped behind a side tag.
    pub wrap: bool,
    pub state: AltState,
}

/// The action of a mapping combinator.
pub struct MapAction {
    pub inner: Box<Action>,
    pub op: Transform,
}

/// The action of a chaining combinator: the fallible second stage runs in
/// the poll phase, never before the child has produced its value.
pub struct AndThenAction {
    pub inner: Box<Action>,
    pub op: Refine,
    pub got: Option<Vec<Val>>,
}

/// A cheap test run against the request metadata before a child
/// preflight.
#[derive(Debug, Clone, Copy, PartialEq, Eq, Structural)]
pub enum Precheck {
    /// The request method must be this one.
    Method(Method),
}

/// The action of a precheck wrapper.
pub struct BeforeApplyAction {
    pub check: Precheck,
    pub inner: Box<Action>,
}

/// The per-request state machine of one combinator tree.
pub enum Action {
    Path(PathAction),
    Param(ParamAction),
    Raw(RawAction),
    Receive(ReceiveAllAction),
    Text(TextAction),
    Json(JsonAction),
    Urlencoded(UrlencodedAction),
    Both(AndAction),
    Alt(OrAction),
    Mapped(MapAction),
    Chained(AndThenAction),
    Checked(BeforeApplyAction),
}

// ==== well-formedness and the polling measure ====

/// The body held by a receiver, when it holds one, has its cursor within
/// its schedule.
pub open spec fn recv_wf(ra: ReceiveAllAction) -> bool {
    match ra.state {
        RecvState::Receiving(b, _) => b.wf(),
        _ => true,
    }
}

/// Every body held anywhere in the action tree is well formed.
pub open spec fn action_wf(a: Action) -> bool
    decreases a,
{
    match a {
        Action::Receive(ra) => recv_wf(ra),
        Action::Text(t) => recv_wf(t.inner),
        Action::Json(j) => recv_wf(j.inner),
        Action::Urlencoded(u) => recv_wf(u.inner),
        Action::Both(st) => action_wf(*st.left) && action_wf(*st.right),
        Action::Alt(st) => match st.state {
            AltState::Start(l, r) => action_wf(*l) && action_wf(*r),
            AltState::Left(l) => action_wf(*l),
            AltState::Right(r) => action_wf(*r),
        },
        Action::Mapped(m) => action_wf(*m.inner),
        Action::Chained(c) => action_wf(*c.inner),
        Action::Checked(c) => action_wf(*c.inner),
        _ => true,
    }
}

/// The schedule entries a receiver can still consume.
pub open spec fn recv_steps(ra: ReceiveAllAction) -> int {
    match ra.state {
        RecvState::Receiving(b, _) => b.remaining_steps(),
        _ => 0,
    }
}

/// The schedule entries the bodies inside the action tree can still
/// consume: every pending poll consumes at least one, so this bounds how
/// often a driver sees a pending result.
pub open spec fn action_steps(a: Action) -> int
    decreases a,
{
    match a {
        Action::Receive(ra) => recv_steps(ra),
        Action::Text(t) => recv_steps(t.inner),
        Action::Json(j) => recv_steps(j.inner),
        Action::Urlencoded(u) => recv_steps(u.inner),
        Action::Both(st) => action_steps(*st.left) + action_steps(*st.right),
        Action::Alt(st) => match st.state {
            AltState::Start(l, r) => action_steps(*l) + action_steps(*r),
            AltState::Left(l) => action_steps(*l),
            AltState::Right(r) => action_steps(*r),
        },
        Action::Mapped(m) => action_steps(*m.inner),
        Action::Chained(c) => action_steps(*c.inner),
        Action::Checked(c) => action_steps(*c.inner),
        _ => 0,
    }
}

// ==== draining the body schedule ====

/// Whether draining from `pos` reaches end-of-stream without meeting a
/// not-ready entry.
pub open spec fn drained_end(steps: Seq<BodyStep>, pos: int) -> bool
    decreases steps.len() - pos when 0 <= pos <= steps.len()
{
    if pos >= steps.len() {
        true
    } else {
        match steps[pos] {
            BodyStep::NotReady => false,
            BodyStep::Data(_) => drained_end(steps, pos + 1),
        }
    }
}

/// The cursor position after one drain pass: past the data run and the
/// not-ready entry that interrupted it, if one did.
pub open spec fn drained_pos(steps: Seq<BodyStep>, pos: int) -> int
    decreases steps.len() - pos when 0 <= pos <= steps.len()
{
    if pos >= steps.len() {
        pos
    } else {
        match steps[pos] {
            BodyStep::NotReady => pos + 1,
            BodyStep::Data(_) => drained_pos(steps, pos + 1),
        }
    }
}

/// The payload bytes one drain pass collects.
pub open spec fn drained_bytes(steps: Seq<BodyStep>, pos: int) -> Seq<u8>
    decreases steps.len() - pos when 0 <= pos <= steps.len()
{
    if pos >= steps.len() {
        Seq::empty()
    } else {
        match steps[pos] {
            BodyStep::NotReady => Seq::empty(),
            BodyStep::Data(c) => c@ + drained_bytes(steps, pos + 1),
        }
    }
}

proof fn lemma_drained_pos_bounds(steps: Seq<BodyStep>, pos: int)
    requires
        0 <= pos <= steps.len(),
    ensures
        pos <= drained_pos(steps, pos) <= steps.len(),
        !drained_end(steps, pos) ==> drained_pos(steps, pos) > pos,
    decreases steps.len() - pos,
{
    if pos < steps.len() {
        if steps[pos] is Data {
            lemma_drained_pos_bounds(steps, pos + 1);
        }
    }
}

// ==== the body receiver ====

/// One poll of the body receiver: claims the body on first contact, then
/// drains data chunks until the stream suspends or ends.
pub open spec fn recv_poll_rel(
    ra0: ReceiveAllAction,
    ctx0: ActionContext,
    ra1: ReceiveAllAction,
    ctx1: ActionContext,
    r: Result<Polled, Error>,
) -> bool {
    match ra0.state {
        RecvState::Start => match ctx0.body {
            None => {
                &&& ra1 == ra0
                &&& ctx1 == ctx0
                &&& r matches Err(e) && !e.advisory && e.status == 500u16
            },
            Some(b) => {
                &&& ctx1.req == ctx0.req
                &&& ctx1.body is None
                &&& recv_drain(b, Seq::empty(), ra1, r)
            },
        },
        RecvState::Receiving(b, buf) => {
            &&& ctx1 == ctx0
            &&& recv_drain(b, buf@, ra1, r)
        },
        RecvState::Done => {
            &&& ra1 == ra0
            &&& ctx1 == ctx0
            &&& r matches Err(e) && !e.advisory && e.status == 500u16
        },
    }
}

/// What one drain pass over `b` makes of the receiver: the full payload
/// when the stream ends, a suspended receiver otherwise.
pub open spec fn recv_drain(
    b: Body,
    buf: Seq<u8>,
    ra1: ReceiveAllAction,
    r: Result<Polled, Error>,
) -> bool {
    if drained_end(b.steps@, b.pos as int) {
        &&& ra1.state is Done
        &&& match r {
            Ok(Polled::Ready(out)) => out@.len() == 1 && match out@[0] {
                Val::Bytes(bb) => bb@ == buf + drained_bytes(b.steps@, b.pos as int),
                _ => false,
            },
            _ => false,
        }
    } else {
        &&& match ra1.state {
            RecvState::Receiving(b1, buf1) => {
                &&& b1.steps@ == b.steps@
                &&& b1.pos == drained_pos(b.steps@, b.pos as int)
                &&& buf1@ == buf + drained_bytes(b.steps@, b.pos as int)
            },
            _ => false,
        }
        &&& r matches Ok(p) && p is Pending
    }
}

impl ReceiveAllAction {
    /// A fresh receiver.
    pub fn start() -> (r: ReceiveAllAction)
        ensures
            r.state is Start,
            recv_wf(r),
    {
        ReceiveAllAction { state: RecvState::Start }
    }

    /// One poll step of the receiver.
    pub fn poll_step(self, ctx: ActionContext) -> (r: (
        ReceiveAllAction,
        ActionContext,
        Result<Polled, Error>,
    ))
        requires
            ctx.wf(),
            recv_wf(self),
        ensures
            recv_poll_rel(self, ctx, r.0, r.1, r.2),
            recv_wf(r.0),
            r.1.wf(),
            r.1.req == ctx.req,
            r.1.body is Some ==> ctx.body is Some,
            recv_steps(r.0) + r.1.steps_left() <= recv_steps(self) + ctx.steps_left(),
            (r.2 matches Ok(p) && p is Pending) ==> recv_steps(r.0) + r.1.steps_left()
                < recv_steps(self) + ctx.steps_left(),
    {
        let mut ctx = ctx;
        let (body, buf): (Body, Vec<u8>) = match self.state {
            RecvState::Start => {
                match ctx.take_body() {
                    Some(b) => (b, Vec::new()),
                    None => {
                        let e = stolen_payload();
                        return (ReceiveAllAction { state: RecvState::Start }, ctx, Err(e));
                    },
                }
            },
            RecvState::Receiving(b, buf) => (b, buf),
            RecvState::Done => {
                let e = resolved_twice();
                return (ReceiveAllAction { state: RecvState::Done }, ctx, Err(e));
            },
        };
        let (ra1, out) = drain(body, buf);
        (ra1, ctx, out)
    }
}

/// Drains data chunks from the body into the buffer until the stream
/// suspends or ends.
fn drain(body: Body, buf: Vec<u8>) -> (r: (ReceiveAllAction, Result<Polled, Error>))
    requires
        body.wf(),
    ensures
        recv_drain(body, buf@, r.0, r.1),
        recv_wf(r.0),
        recv_steps(r.0) <= body.remaining_steps(),
        (r.1 matches Ok(p) && p is Pending) ==> recv_steps(r.0) < body.remaining_steps(),
{
    let mut b = body;
    let mut acc = buf;
    loop
        invariant
            b.wf(),
            body.wf(),
            b.steps@ == body.steps@,
            body.pos as int <= b.pos as int <= b.steps@.len(),
            drained_end(body.steps@, body.pos as int) == drained_end(b.steps@, b.pos as int),
            drained_pos(body.steps@, body.pos as int) == drained_pos(b.steps@, b.pos as int),
            acc@ + drained_bytes(b.steps@, b.pos as int) == buf@ + drained_bytes(
                body.steps@,
                body.pos as int,
            ),
        decreases b.remaining_steps(),
    {
        let ghost pos_here = b.pos as int;
        let ghost steps0 = b.steps@;
        match b.poll_data() {
            BodyPoll::Chunk(c) => {
                proof {
                    assert(drained_end(steps0, pos_here) == drained_end(steps0, pos_here + 1));
                    assert(drained_pos(steps0, pos_here) == drained_pos(steps0, pos_here + 1));
                    assert(drained_bytes(steps0, pos_here) =~= c@ + drained_bytes(
                        steps0,
                        pos_here + 1,
                    ));
                }
                append_bytes(&mut acc, c);
                proof {
                    assert(acc@ + drained_bytes(b.steps@, b.pos as int) =~= buf@
                        + drained_bytes(body.steps@, body.pos as int));
                }
            },
            BodyPoll::Pending => {
                proof {
                    assert(!drained_end(steps0, pos_here));
                    assert(drained_pos(steps0, pos_here) == pos_here + 1);
                    assert(drained_bytes(steps0, pos_here) =~= Seq::<u8>::empty());
                    assert(acc@ =~= buf@ + drained_bytes(body.steps@, body.pos as int));
                }
                return (
                    ReceiveAllAction { state: RecvState::Receiving(b, acc) },
                    Ok(Polled::Pending),
                );
            },
            BodyPoll::End => {
                proof {
                    assert(drained_end(steps0, b.pos as int));
                    assert(drained_bytes(steps0, b.pos as int) =~= Seq::<u8>::empty());
                    assert(acc@ =~= buf@ + drained_bytes(body.steps@, body.pos as int));
                }
                let mut out: Vec<Val> = Vec::new();
                out.push(Val::Bytes(acc));
                return (
                    ReceiveAllAction { state: RecvState::Done },
                    Ok(Polled::Ready(out)),
                );
            },
        }
    }
}

/// Appends the bytes of `more` to `buf`.
fn append_bytes(buf: &mut Vec<u8>, more: Vec<u8>)
    ensures
        final(buf)@ == old(buf)@ + more@,
{
    let ghost goal = old(buf)@ + more@;
    let mut rest = more;
    while rest.len() > 0
        invariant
            buf@ + rest@ == goal,
        decreases rest.len(),
    {
        let b = rest.remove(0);
        buf.push(b);
        proof {
            assert(buf@ + rest@ =~= goal);
        }
    }
    proof {
        assert(buf@ =~= goal);
    }
}

// ==== content-type checks ====

/// The position of the request's `Content-Type` header, when present.
pub open spec fn ct_lookup(req: Request) -> Option<int> {
    header_lookup(req.headers.deep_view(), "content-type".spec_bytes())
}

/// The raw bytes of the request's `Content-Type` header.
pub open spec fn ct_value(req: Request) -> Seq<u8> {
    header_value(req.headers.deep_view(), "content-type".spec_bytes())
}

/// The parsed media type of the request, when the header is present and
/// parseable: essence, charset parameter, presence of parameters.
pub open spec fn ct_media(req: Request) -> Option<(Seq<u8>, Option<Seq<u8>>, bool)> {
    media_type_of(ct_value(req))
}

/// The text endpoint accepts a request without a `Content-Type`, and one
/// whose charset parameter — if any — is UTF-8; an unparseable header and
/// any other charset are rejected.
pub open spec fn text_ct_ok(req: Request) -> bool {
    match ct_lookup(req) {
        None => true,
        Some(_) => match ct_media(req) {
            None => false,
            Some(m) => match m.1 {
                None => true,
                Some(cs) => ascii_eq_ci(cs, "utf-8".spec_bytes()),
            },
        },
    }
}

/// A structured-body endpoint demands a present, parseable `Content-Type`
/// equal to the given essence, with no parameters.
pub open spec fn body_ct_ok(req: Request, essence: Seq<u8>) -> bool {
    &&& ct_lookup(req) is Some
    &&& match ct_media(req) {
        Some(m) => ascii_eq_ci(m.0, essence) && !m.2,
        None => false,
    }
}

/// What the JSON endpoint demands of the request's `Content-Type`.
pub open spec fn json_ct_ok(req: Request) -> bool {
    body_ct_ok(req, "application/json".spec_bytes())
}

/// What the form endpoint demands of the request's `Content-Type`.
pub open spec fn form_ct_ok(req: Request) -> bool {
    body_ct_ok(req, "application/x-www-form-urlencoded".spec_bytes())
}

/// Checks the text endpoint's charset rule against the request.
fn check_text_ct(req: &Request) -> (r: bool)
    ensures
        r == text_ct_ok(*req),
{
    match req.header("content-type") {
        None => true,
        Some(v) => match parse_media_type(v) {
            None => false,
            Some(m) => match &m.charset {
                None => true,
                Some(cs) => crate::request::bytes_eq_ci(cs, &("utf-8").as_bytes_vec()),
            },
        },
    }
}

/// Checks a structured-body endpoint's media-type rule.
fn check_body_ct(req: &Request, essence: &Vec<u8>) -> (r: bool)
    ensures
        r == body_ct_ok(*req, essence@),
{
    match req.header("content-type") {
        None => false,
        Some(v) => match parse_media_type(v) {
            None => false,
            Some(m) => !m.has_params && crate::request::bytes_eq_ci(&m.essence, essence),
        },
    }
}

// ==== the preflight transition relation ====

/// One intermediate step of a child action during preflight.
pub type PfStep = (Action, PreflightContext, Result<Preflight<Vec<Val>>, Error>);

/// One intermediate step of a child action during polling.
pub type PollStep = (Action, ActionContext, Result<Polled, Error>);

/// The preflight of a path matcher.
pub open spec fn pf_path(
    p0: PathAction,
    cx0: PreflightContext,
    a1: Action,
    cx1: PreflightContext,
    r: Result<Preflight<Vec<Val>>, Error>,
) -> bool {
    if p0.done {
        &&& a1 matches Action::Path(p1) && p1 == p0
        &&& cx1 == cx0
        &&& r matches Err(e) && !e.advisory && e.status == 500u16
    } else {
        &&& a1 matches Action::Path(p1) && p1.kind == p0.kind && p1.done
        &&& match p0.kind {
            MatchPathKind::Segments(pat) => {
                if is_prefix_of(pat.deep_view(), cx0.remaining_segments()) {
                    &&& cx1.req == cx0.req
                    &&& cx1.pos == pos_after_n(
                        cx0.req.path@,
                        cx0.pos as int,
                        pat.deep_view().len() as int,
                    )
                    &&& cx1.popped == cx0.popped + pat.deep_view().len()
                    &&& match r {
                        Ok(Preflight::Completed(v)) => v@ == Seq::<Val>::empty(),
                        _ => false,
                    }
                } else {
                    &&& cx1 == cx0
                    &&& r matches Err(e) && e.advisory && e.status == 404u16
                }
            },
            MatchPathKind::AllSegments => {
                &&& cx1.req == cx0.req
                &&& cx1.pos == cx0.req.path@.len()
                &&& cx1.popped == cx0.popped + cx0.remaining_segments().len()
                &&& match r {
                    Ok(Preflight::Completed(v)) => v@ == Seq::<Val>::empty(),
                    _ => false,
                }
            },
        }
    }
}

/// The preflight of the integer segment extractor.
pub open spec fn pf_param(
    p0: ParamAction,
    cx0: PreflightContext,
    a1: Action,
    cx1: PreflightContext,
    r: Result<Preflight<Vec<Val>>, Error>,
) -> bool {
    if p0.done {
        &&& a1 matches Action::Param(p1) && p1 == p0
        &&& cx1 == cx0
        &&& r matches Err(e) && !e.advisory && e.status == 500u16
    } else {
        &&& a1 matches Action::Param(p1) && p1.done
        &&& if cx0.remaining_segments().len() == 0 {
            &&& cx1 == cx0
            &&& r matches Err(e) && e.advisory && e.status == 404u16
        } else {
            match parse_i64_spec(cx0.remaining_segments()[0]) {
                Some(n) => {
                    &&& cx1.req == cx0.req
                    &&& cx1.pos == after_segment(cx0.req.path@, cx0.pos as int)
                    &&& cx1.popped == cx0.popped + 1
                    &&& match r {
                        Ok(Preflight::Completed(v)) => v@ == seq![Val::Int(n)],
                        _ => false,
                    }
                },
                None => {
                    &&& cx1 == cx0
                    &&& r matches Err(e) && e.advisory && e.status == 400u16
                },
            }
        }
    }
}

/// How an alternative rebuilds itself around the branch it committed to.
pub open spec fn alt_now(wrap: bool, left: bool, a1: Action, child: Action) -> bool {
    a1 matches Action::Alt(st1) && st1.wrap == wrap && match st1.state {
        AltState::Left(l) => left && *l == child,
        AltState::Right(r) => !left && *r == child,
        _ => false,
    }
}

/// The output an alternative reports for the winning branch: tagged with
/// the side when wrapping, the branch's own tuple otherwise.
pub open spec fn alt_out_ok(wrap: bool, left: bool, v: Vec<Val>, out: Vec<Val>) -> bool {
    if wrap {
        out@ == seq![Val::Tag(left)] + v@
    } else {
        out == v
    }
}

/// The cursor as the right branch of an alternative sees it: rewound to
/// where the preflight began.
pub open spec fn rewound(cxa: PreflightContext, cx0: PreflightContext) -> PreflightContext {
    PreflightContext { req: cxa.req, pos: cx0.pos, popped: cx0.popped }
}

/// How a conjunction rebuilds itself from its stepped children and
/// stored outputs.
pub open spec fn both_rebuilt(
    st0: AndAction,
    a1: Action,
    l1: Action,
    r1: Action,
    lo: Option<Vec<Val>>,
    ro: Option<Vec<Val>>,
) -> bool {
    a1 matches Action::Both(st1) && *st1.left == l1 && *st1.right == r1 && st1.left_out == lo
        && st1.right_out == ro && st1.keep == st0.keep
}

/// The output stored for a child after its preflight step.
pub open spec fn pf_store(p: Preflight<Vec<Val>>, prev: Option<Vec<Val>>) -> Option<Vec<Val>> {
    match p {
        Preflight::Completed(v) => Some(v),
        Preflight::Incomplete => prev,
    }
}

/// Whether a conjunction's kept children are polled at all.
pub open spec fn needs_left(k: Keep) -> bool {
    k is Both || k is Left
}

pub open spec fn needs_right(k: Keep) -> bool {
    k is Both || k is Right
}

/// The finished output of a conjunction: the kept children's tuples,
/// concatenated left-then-right when both are kept.
pub open spec fn sel_ok(
    keep: Keep,
    lo: Option<Vec<Val>>,
    ro: Option<Vec<Val>>,
    out: Vec<Val>,
) -> bool {
    match keep {
        Keep::Both => lo matches Some(lv) && ro matches Some(rv) && out@ == lv@ + rv@,
        Keep::Left => lo matches Some(lv) && out == lv,
        Keep::Right => ro matches Some(rv) && out == rv,
    }
}

/// How a conjunction's preflight finishes once both children stepped.
pub open spec fn both_finish(
    st0: AndAction,
    a1: Action,
    l1: Action,
    r1: Action,
    lp: Preflight<Vec<Val>>,
    rp: Preflight<Vec<Val>>,
    r: Result<Preflight<Vec<Val>>, Error>,
) -> bool {
    let lo = pf_store(lp, st0.left_out);
    let ro = pf_store(rp, st0.right_out);
    let done = match st0.keep {
        Keep::Both => lo is Some && ro is Some,
        Keep::Left => lo is Some,
        Keep::Right => ro is Some,
    };
    if done {
        &&& both_rebuilt(st0, a1, l1, r1, None, None)
        &&& match r {
            Ok(Preflight::Completed(out)) => sel_ok(st0.keep, lo, ro, out),
            _ => false,
        }
    } else {
        &&& both_rebuilt(st0, a1, l1, r1, lo, ro)
        &&& r matches Ok(p) && p is Incomplete
    }
}

/// The transition relation of the synchronous phase: how one preflight
/// call turns the action `a0` under the context `cx0` into `a1` and
/// `cx1`, reporting `r`.
pub open spec fn pf_rel(
    a0: Action,
    cx0: PreflightContext,
    a1: Action,
    cx1: PreflightContext,
    r: Result<Preflight<Vec<Val>>, Error>,
) -> bool
    decreases a0,
{
    match a0 {
        Action::Path(p0) => pf_path(p0, cx0, a1, cx1, r),
        Action::Param(p0) => pf_param(p0, cx0, a1, cx1, r),
        Action::Raw(_) => {
            &&& a1 == a0
            &&& cx1 == cx0
            &&& r matches Ok(p) && p is Incomplete
        },
        Action::Receive(_) => {
            &&& a1 == a0
            &&& cx1 == cx0
            &&& r matches Ok(p) && p is Incomplete
        },
        Action::Text(_) => a1 == a0 && cx1 == cx0 && (if text_ct_ok(cx0.req) {
            r matches Ok(p) && p is Incomplete
        } else {
            r matches Err(e) && !e.advisory && e.status == 400u16
        }),
        Action::Json(_) => a1 == a0 && cx1 == cx0 && (if json_ct_ok(cx0.req) {
            r matches Ok(p) && p is Incomplete
        } else {
            r matches Err(e) && !e.advisory && e.status == 400u16
        }),
        Action::Urlencoded(_) => a1 == a0 && cx1 == cx0 && (if form_ct_ok(cx0.req) {
            r matches Ok(p) && p is Incomplete
        } else {
            r matches Err(e) && !e.advisory && e.status == 400u16
        }),
        Action::Both(st0) => pf_both(st0, cx0, a1, cx1, r),
        Action::Alt(st0) => pf_alt(st0, cx0, a1, cx1, r),
        Action::Mapped(m0) => pf_mapped(m0, cx0, a1, cx1, r),
        Action::Chained(c0) => pf_chained(c0, cx0, a1, cx1, r),
        Action::Checked(c0) => pf_checked(c0, cx0, a1, cx1, r),
    }
}

/// A trigger marker for existential child steps in the transition
/// relations.
pub open spec fn pf_witness(a: Action, cx: PreflightContext, r: Result<
    Preflight<Vec<Val>>,
    Error,
>) -> bool {
    true
}

/// The preflight of a conjunction, relative to its children's preflight
/// relations.
pub open spec fn pf_both(
    st0: AndAction,
    cx0: PreflightContext,
    a1: Action,
    cx1: PreflightContext,
    r: Result<Preflight<Vec<Val>>, Error>,
) -> bool
    decreases st0,
{
    exists|la: Action, lb: PreflightContext, lc: Result<Preflight<Vec<Val>>, Error>|
        {
            &&& #[trigger] pf_witness(la, lb, lc)
            &&& pf_rel(*st0.left, cx0, la, lb, lc)
            &&& match lc {
                Err(e) => {
                    &&& both_rebuilt(st0, a1, la, *st0.right, st0.left_out, st0.right_out)
                    &&& cx1 == lb
                    &&& r matches Err(e1) && e1 == e
                },
                Ok(lp) => exists|ra: Action, rb: PreflightContext, rc: Result<Preflight<Vec<Val>>, Error>|
                    {
                        &&& #[trigger] pf_witness(ra, rb, rc)
                        &&& pf_rel(*st0.right, lb, ra, rb, rc)
                        &&& cx1 == rb
                        &&& match rc {
                            Err(e) => {
                                &&& both_rebuilt(
                                    st0,
                                    a1,
                                    la,
                                    ra,
                                    pf_store(lp, st0.left_out),
                                    st0.right_out,
                                )
                                &&& r matches Err(e1) && e1 == e
                            },
                            Ok(rp) => both_finish(st0, a1, la, ra, lp, rp, r),
                        }
                    },
            }
        }
}

/// The preflight of an ordered alternative, relative to its branches'
/// preflight relations.
pub open spec fn pf_alt(
    st0: OrAction,
    cx0: PreflightContext,
    a1: Action,
    cx1: PreflightContext,
    r: Result<Preflight<Vec<Val>>, Error>,
) -> bool
    decreases st0,
{
    match st0.state {
        AltState::Start(l0, r0) => exists|la: Action, lb: PreflightContext, lc: Result<Preflight<Vec<Val>>, Error>|
            {
                &&& #[trigger] pf_witness(la, lb, lc)
                &&& pf_rel(*l0, cx0, la, lb, lc)
                &&& match lc {
                    Ok(lp) => {
                        &&& alt_now(st0.wrap, true, a1, la)
                        &&& cx1 == lb
                        &&& match lp {
                            Preflight::Completed(v) => match r {
                                Ok(Preflight::Completed(out)) => alt_out_ok(
                                    st0.wrap,
                                    true,
                                    v,
                                    out,
                                ),
                                _ => false,
                            },
                            Preflight::Incomplete => r matches Ok(p) && p is Incomplete,
                        }
                    },
                    Err(e) => if !e.advisory {
                        &&& alt_now(st0.wrap, true, a1, la)
                        &&& cx1 == lb
                        &&& r matches Err(e1) && e1 == e
                    } else {
                        exists|ra: Action, rb: PreflightContext, rc: Result<Preflight<Vec<Val>>, Error>|
                            {
                                &&& #[trigger] pf_witness(ra, rb, rc)
                                &&& pf_rel(*r0, rewound(lb, cx0), ra, rb, rc)
                                &&& alt_now(st0.wrap, false, a1, ra)
                                &&& cx1 == rb
                                &&& match rc {
                                    Ok(Preflight::Completed(v)) => match r {
                                        Ok(Preflight::Completed(out)) => alt_out_ok(
                                            st0.wrap,
                                            false,
                                            v,
                                            out,
                                        ),
                                        _ => false,
                                    },
                                    Ok(Preflight::Incomplete) => r matches Ok(p)
                                        && p is Incomplete,
                                    Err(e2) => r matches Err(e3) && e3 == e2,
                                }
                            }
                    },
                }
            },
        _ => {
            &&& a1 matches Action::Alt(st1) && st1.wrap == st0.wrap && st1.state == st0.state
            &&& cx1 == cx0
            &&& r matches Err(e) && !e.advisory && e.status == 500u16
        },
    }
}

/// The preflight of a mapping combinator, relative to its child's.
pub open spec fn pf_mapped(
    m0: MapAction,
    cx0: PreflightContext,
    a1: Action,
    cx1: PreflightContext,
    r: Result<Preflight<Vec<Val>>, Error>,
) -> bool
    decreases m0,
{
    exists|ia: Action, ib: PreflightContext, ic: Result<Preflight<Vec<Val>>, Error>|
        {
            &&& #[trigger] pf_witness(ia, ib, ic)
            &&& pf_rel(*m0.inner, cx0, ia, ib, ic)
            &&& a1 matches Action::Mapped(m1) && *m1.inner == ia && m1.op == m0.op
            &&& cx1 == ib
            &&& match ic {
                Ok(Preflight::Completed(v)) => match r {
                    Ok(Preflight::Completed(out)) => out@ == seq![
                        apply_transform_spec(m0.op, v@),
                    ],
                    _ => false,
                },
                Ok(Preflight::Incomplete) => r matches Ok(p) && p is Incomplete,
                Err(e) => r matches Err(e1) && e1 == e,
            }
        }
}

/// The preflight of a chaining combinator, relative to its child's: a
/// completed child parks its value for the poll phase.
pub open spec fn pf_chained(
    c0: AndThenAction,
    cx0: PreflightContext,
    a1: Action,
    cx1: PreflightContext,
    r: Result<Preflight<Vec<Val>>, Error>,
) -> bool
    decreases c0,
{
    exists|ia: Action, ib: PreflightContext, ic: Result<Preflight<Vec<Val>>, Error>|
        {
            &&& #[trigger] pf_witness(ia, ib, ic)
            &&& pf_rel(*c0.inner, cx0, ia, ib, ic)
            &&& a1 matches Action::Chained(c1) && *c1.inner == ia && c1.op == c0.op
            &&& cx1 == ib
            &&& match ic {
                Ok(Preflight::Completed(v)) => {
                    &&& a1 matches Action::Chained(c1) && c1.got matches Some(g) && g == v
                    &&& r matches Ok(p) && p is Incomplete
                },
                Ok(Preflight::Incomplete) => {
                    &&& a1 matches Action::Chained(c1) && c1.got == c0.got
                    &&& r matches Ok(p) && p is Incomplete
                },
                Err(e) => {
                    &&& a1 matches Action::Chained(c1) && c1.got == c0.got
                    &&& r matches Err(e1) && e1 == e
                },
            }
        }
}

/// The preflight of a precheck wrapper, relative to its child's.
pub open spec fn pf_checked(
    c0: BeforeApplyAction,
    cx0: PreflightContext,
    a1: Action,
    cx1: PreflightContext,
    r: Result<Preflight<Vec<Val>>, Error>,
) -> bool
    decreases c0,
{
    match c0.check {
        Precheck::Method(m) => if cx0.req.method == m {
            exists|ia: Action, ib: PreflightContext, ic: Result<Preflight<Vec<Val>>, Error>|
                {
                    &&& #[trigger] pf_witness(ia, ib, ic)
                    &&& pf_rel(*c0.inner, cx0, ia, ib, ic)
                    &&& a1 matches Action::Checked(c1) && *c1.inner == ia && c1.check
                        == c0.check
                    &&& cx1 == ib
                    &&& r == ic
                }
        } else {
            &&& a1 matches Action::Checked(c1) && c1.check == c0.check && c1.inner == c0.inner
            &&& cx1 == cx0
            &&& r matches Err(e) && e.advisory && e.status == 404u16
        },
    }
}

impl Action {
    /// Applies the incoming request to this action, synchronously.  This
    /// is called once, before any poll; it may consume path segments and
    /// inspect headers, and never touches the body.
    #[verifier::rlimit(100)]
    #[verifier::spinoff_prover]
    pub fn preflight(self, cx: PreflightContext) -> (res: (
        Action,
        PreflightContext,
        Result<Preflight<Vec<Val>>, Error>,
    ))
        requires
            cx.wf(),
            action_wf(self),
        ensures
            pf_rel(self, cx, res.0, res.1, res.2),
            res.1.wf(),
            res.1.req == cx.req,
            action_wf(res.0),
        decreases self,
    {
        let ghost a0 = self;
        let ghost cx0 = cx;
        match self {
            Action::Path(p) => preflight_path(p, cx),
            Action::Param(p) => preflight_param(p, cx),
            Action::Raw(ra) => (Action::Raw(ra), cx, Ok(Preflight::Incomplete)),
            Action::Receive(ra) => (Action::Receive(ra), cx, Ok(Preflight::Incomplete)),
            Action::Text(t) => {
                if check_text_ct(cx.request()) {
                    (Action::Text(t), cx, Ok(Preflight::Incomplete))
                } else {
                    let e = BadRequest::new(
                        String::from_str("only the UTF-8 charset is supported"),
                    ).into_error();
                    (Action::Text(t), cx, Err(e))
                }
            },
            Action::Json(j) => {
                if check_body_ct(cx.request(), &("application/json").as_bytes_vec()) {
                    (Action::Json(j), cx, Ok(Preflight::Incomplete))
                } else {
                    let e = BadRequest::new(
                        String::from_str("the content type must be application/json"),
                    ).into_error();
                    (Action::Json(j), cx, Err(e))
                }
            },
            Action::Urlencoded(u) => {
                if check_body_ct(
                    cx.request(),
                    &("application/x-www-form-urlencoded").as_bytes_vec(),
                ) {
                    (Action::Urlencoded(u), cx, Ok(Preflight::Incomplete))
                } else {
                    let e = BadRequest::new(
                        String::from_str(
                            "the content type must be application/x-www-form-urlencoded",
                        ),
                    ).into_error();
                    (Action::Urlencoded(u), cx, Err(e))
                }
            },
            Action::Both(st) => preflight_both(st, cx),
            Action::Alt(st) => preflight_alt(st, cx),
            Action::Mapped(m) => preflight_mapped(m, cx),
            Action::Chained(c) => preflight_chained(c, cx),
            Action::Checked(c) => preflight_checked(c, cx),
        }
    }
}


/// The preflight of a conjunction: left child first, then the right
/// child over the advanced cursor; an error from either child propagates
/// at once.
#[verifier::rlimit(100)]
fn preflight_both(st: AndAction, cx: PreflightContext) -> (res: (
    Action,
    PreflightContext,
    Result<Preflight<Vec<Val>>, Error>,
))
    requires
        cx.wf(),
        action_wf(Action::Both(st)),
    ensures
        pf_both(st, cx, res.0, res.1, res.2),
        res.1.wf(),
        res.1.req == cx.req,
        action_wf(res.0),
    decreases st,
{
    let ghost a0 = Action::Both(st);
    let ghost cx0 = cx;
    let AndAction { left, right, left_out, right_out, keep } = st;
    let ghost glo = left_out;
    let ghost gro = right_out;
    let (l1, cxa, rl) = (*left).preflight(cx);
    let ghost gls: PfStep = (l1, cxa, rl);
    proof {
        assert(pf_witness(gls.0, gls.1, gls.2));
        assert(pf_rel(*a0->Both_0.left, cx0, gls.0, gls.1, gls.2));
    }
    match rl {
        Err(e) => {
            let a1 = Action::Both(
                AndAction {
                    left: Box::new(l1),
                    right,
                    left_out,
                    right_out,
                    keep,
                },
            );
            (a1, cxa, Err(e))
        },
        Ok(lp) => {
            let ghost glp = lp;
            let lo2: Option<Vec<Val>> = match lp {
                Preflight::Completed(v) => Some(v),
                Preflight::Incomplete => left_out,
            };
            let (r1, cxb, rr) = (*right).preflight(cxa);
            let ghost grs: PfStep = (r1, cxb, rr);
            proof {
                assert(pf_witness(grs.0, grs.1, grs.2));
                assert(pf_rel(*a0->Both_0.right, gls.1, grs.0, grs.1, grs.2));
            }
            match rr {
                Err(e) => {
                    let a1 = Action::Both(
                        AndAction {
                            left: Box::new(l1),
                            right: Box::new(r1),
                            left_out: lo2,
                            right_out,
                            keep,
                        },
                    );
                    proof {
                        assert(lo2 == pf_store(glp, glo));
                    }
                    (a1, cxb, Err(e))
                },
                Ok(rp) => {
                    let ghost grp = rp;
                    let ro2: Option<Vec<Val>> = match rp {
                        Preflight::Completed(v) => Some(v),
                        Preflight::Incomplete => right_out,
                    };
                    proof {
                        assert(lo2 == pf_store(glp, glo));
                        assert(ro2 == pf_store(grp, gro));
                    }
                    let done = match keep {
                        Keep::Both => lo2.is_some() && ro2.is_some(),
                        Keep::Left => lo2.is_some(),
                        Keep::Right => ro2.is_some(),
                    };
                    if done {
                        let ghost glo2 = lo2;
                        let ghost gro2 = ro2;
                        let out: Vec<Val> = match keep {
                            Keep::Both => match (lo2, ro2) {
                                (Some(lv), Some(rv)) => combine(lv, rv),
                                _ => vstd::pervasive::unreached(),
                            },
                            Keep::Left => match lo2 {
                                Some(lv) => lv,
                                None => vstd::pervasive::unreached(),
                            },
                            Keep::Right => match ro2 {
                                Some(rv) => rv,
                                None => vstd::pervasive::unreached(),
                            },
                        };
                        proof {
                            assert(sel_ok(keep, glo2, gro2, out));
                        }
                        let a1 = Action::Both(
                            AndAction {
                                left: Box::new(l1),
                                right: Box::new(r1),
                                left_out: None,
                                right_out: None,
                                keep,
                            },
                        );
                        (a1, cxb, Ok(Preflight::Completed(out)))
                    } else {
                        let a1 = Action::Both(
                            AndAction {
                                left: Box::new(l1),
                                right: Box::new(r1),
                                left_out: lo2,
                                right_out: ro2,
                                keep,
                            },
                        );
                        (a1, cxb, Ok(Preflight::Incomplete))
                    }
                },
            }
        },
    }
}

/// The preflight of an ordered alternative: the left branch is tried
/// first; only an advisory error lets the right branch run, over the
/// rewound cursor.
#[verifier::rlimit(100)]
fn preflight_alt(st: OrAction, cx: PreflightContext) -> (res: (
    Action,
    PreflightContext,
    Result<Preflight<Vec<Val>>, Error>,
))
    requires
        cx.wf(),
        action_wf(Action::Alt(st)),
    ensures
        pf_alt(st, cx, res.0, res.1, res.2),
        res.1.wf(),
        res.1.req == cx.req,
        action_wf(res.0),
    decreases st,
{
    let ghost a0 = Action::Alt(st);
    let ghost cx0 = cx;
    let OrAction { wrap, state } = st;
    match state {
        AltState::Start(l0, r0) => {
            let mark = cx.mark();
            let (l1, cxa, rl) = (*l0).preflight(cx);
            let ghost gls: PfStep = (l1, cxa, rl);
            proof {
                assert(pf_witness(gls.0, gls.1, gls.2));
                assert(a0->Alt_0.state matches AltState::Start(gl, _) && pf_rel(
                    *gl,
                    cx0,
                    gls.0,
                    gls.1,
                    gls.2,
                ));
            }
            match rl {
                Ok(Preflight::Completed(v)) => {
                    let ghost gv = v;
                    let out = tag_out(wrap, true, v);
                    let a1 = Action::Alt(
                        OrAction { wrap, state: AltState::Left(Box::new(l1)) },
                    );
                    (a1, cxa, Ok(Preflight::Completed(out)))
                },
                Ok(Preflight::Incomplete) => {
                    let a1 = Action::Alt(
                        OrAction { wrap, state: AltState::Left(Box::new(l1)) },
                    );
                    (a1, cxa, Ok(Preflight::Incomplete))
                },
                Err(e) => {
                    if !e.is_advisory() {
                        let a1 = Action::Alt(
                            OrAction { wrap, state: AltState::Left(Box::new(l1)) },
                        );
                        (a1, cxa, Err(e))
                    } else {
                        let mut cxr = cxa;
                        cxr.rewind(mark);
                        proof {
                            assert(cxr == rewound(gls.1, cx0));
                        }
                        let (r1, cxb, rr) = (*r0).preflight(cxr);
                        let ghost grs: PfStep = (r1, cxb, rr);
                        proof {
                            assert(pf_witness(grs.0, grs.1, grs.2));
                            assert(a0->Alt_0.state matches AltState::Start(_, gr)
                                && pf_rel(
                                *gr,
                                rewound(gls.1, cx0),
                                grs.0,
                                grs.1,
                                grs.2,
                            ));
                        }
                        match rr {
                            Ok(Preflight::Completed(v)) => {
                                let out = tag_out(wrap, false, v);
                                let a1 = Action::Alt(
                                    OrAction {
                                        wrap,
                                        state: AltState::Right(Box::new(r1)),
                                    },
                                );
                                (a1, cxb, Ok(Preflight::Completed(out)))
                            },
                            Ok(Preflight::Incomplete) => {
                                let a1 = Action::Alt(
                                    OrAction {
                                        wrap,
                                        state: AltState::Right(Box::new(r1)),
                                    },
                                );
                                (a1, cxb, Ok(Preflight::Incomplete))
                            },
                            Err(e2) => {
                                let a1 = Action::Alt(
                                    OrAction {
                                        wrap,
                                        state: AltState::Right(Box::new(r1)),
                                    },
                                );
                                (a1, cxb, Err(e2))
                            },
                        }
                    }
                },
            }
        },
        AltState::Left(l) => {
            let e = applied_twice();
            (Action::Alt(OrAction { wrap, state: AltState::Left(l) }), cx, Err(e))
        },
        AltState::Right(r) => {
            let e = applied_twice();
            (Action::Alt(OrAction { wrap, state: AltState::Right(r) }), cx, Err(e))
        },
    }
}


#[verifier::rlimit(100)]
fn preflight_checked(c: BeforeApplyAction, cx: PreflightContext) -> (res: (
    Action,
    PreflightContext,
    Result<Preflight<Vec<Val>>, Error>,
))
    requires
        cx.wf(),
        action_wf(Action::Checked(c)),
    ensures
        pf_checked(c, cx, res.0, res.1, res.2),
        res.1.wf(),
        res.1.req == cx.req,
        action_wf(res.0),
    decreases c,
{
    let ghost a0 = Action::Checked(c);
    let ghost cx0 = cx;
    let BeforeApplyAction { check, inner } = c;
    let passed = match check {
        Precheck::Method(m) => method_eq(&cx.request().method, &m),
    };
    if passed {
        let (i1, cxa, ri) = (*inner).preflight(cx);
        let ghost gst: PfStep = (i1, cxa, ri);
        proof {
            assert(pf_witness(gst.0, gst.1, gst.2));
            assert(pf_rel(*a0->Checked_0.inner, cx0, gst.0, gst.1, gst.2));
        }
        let a1 = Action::Checked(BeforeApplyAction { check, inner: Box::new(i1) });
        proof {
            assert(pf_rel(*c.inner, cx0, gst.0, gst.1, gst.2));
            assert(exists|ia: Action, ib: PreflightContext, ic: Result<
                Preflight<Vec<Val>>,
                Error,
            >|
                {
                    &&& #[trigger] pf_rel(*c.inner, cx0, ia, ib, ic)
                    &&& a1 matches Action::Checked(c1) && *c1.inner == ia
                        && c1.check == c.check
                    &&& cxa == ib
                    &&& gst.2 == ic
                });
            assert(c.check matches Precheck::Method(mm) && cx0.req.method == mm);
            assert(pf_checked(c, cx0, a1, cxa, gst.2)) by {
                reveal_with_fuel(pf_checked, 2);
            }
        }
        (a1, cxa, ri)
    } else {
        let e = NoRoute::new().into_error();
        (Action::Checked(BeforeApplyAction { check, inner }), cx, Err(e))
    }
}


#[verifier::rlimit(100)]
fn preflight_chained(c: AndThenAction, cx: PreflightContext) -> (res: (
    Action,
    PreflightContext,
    Result<Preflight<Vec<Val>>, Error>,
))
    requires
        cx.wf(),
        action_wf(Action::Chained(c)),
    ensures
        pf_chained(c, cx, res.0, res.1, res.2),
        res.1.wf(),
        res.1.req == cx.req,
        action_wf(res.0),
    decreases c,
{
    let ghost a0 = Action::Chained(c);
    let ghost cx0 = cx;
    let AndThenAction { inner, op, got } = c;
    let (i1, cxa, ri) = (*inner).preflight(cx);
    let ghost gst: PfStep = (i1, cxa, ri);
    proof {
        assert(pf_witness(gst.0, gst.1, gst.2));
        assert(pf_rel(*a0->Chained_0.inner, cx0, gst.0, gst.1, gst.2));
    }
    match ri {
        Ok(Preflight::Completed(v)) => {
            let a1 = Action::Chained(
                AndThenAction { inner: Box::new(i1), op, got: Some(v) },
            );
            (a1, cxa, Ok(Preflight::Incomplete))
        },
        Ok(Preflight::Incomplete) => {
            let a1 = Action::Chained(
                AndThenAction { inner: Box::new(i1), op, got },
            );
            (a1, cxa, Ok(Preflight::Incomplete))
        },
        Err(e) => {
            let a1 = Action::Chained(
                AndThenAction { inner: Box::new(i1), op, got },
            );
            (a1, cxa, Err(e))
        },
    }
}


#[verifier::rlimit(100)]
fn preflight_mapped(m: MapAction, cx: PreflightContext) -> (res: (
    Action,
    PreflightContext,
    Result<Preflight<Vec<Val>>, Error>,
))
    requires
        cx.wf(),
        action_wf(Action::Mapped(m)),
    ensures
        pf_mapped(m, cx, res.0, res.1, res.2),
        res.1.wf(),
        res.1.req == cx.req,
        action_wf(res.0),
    decreases m,
{
    let ghost a0 = Action::Mapped(m);
    let ghost cx0 = cx;
    let MapAction { inner, op } = m;
    let (i1, cxa, ri) = (*inner).preflight(cx);
    let ghost gst: PfStep = (i1, cxa, ri);
    proof {
        assert(pf_witness(gst.0, gst.1, gst.2));
        assert(pf_rel(*a0->Mapped_0.inner, cx0, gst.0, gst.1, gst.2));
    }
    let a1 = Action::Mapped(MapAction { inner: Box::new(i1), op });
    match ri {
        Ok(Preflight::Completed(v)) => {
            let ghost gv = v@;
            let t = apply_transform(&op, v);
            let mut out: Vec<Val> = Vec::new();
            out.push(t);
            proof {
                assert(out@ =~= seq![apply_transform_spec(op, gv)]);
            }
            (a1, cxa, Ok(Preflight::Completed(out)))
        },
        Ok(Preflight::Incomplete) => (a1, cxa, Ok(Preflight::Incomplete)),
        Err(e) => (a1, cxa, Err(e)),
    }
}


#[verifier::rlimit(100)]
fn preflight_param(p: ParamAction, cx: PreflightContext) -> (res: (
    Action,
    PreflightContext,
    Result<Preflight<Vec<Val>>, Error>,
))
    requires
        cx.wf(),
    ensures
        pf_param(p, cx, res.0, res.1, res.2),
        res.1.wf(),
        res.1.req == cx.req,
    decreases p,
{
    let ghost cx0 = cx;
    if p.done {
        let e = applied_twice();
        (Action::Param(p), cx, Err(e))
    } else {
        let a1 = Action::Param(ParamAction { done: true });
        let mut cx = cx;
        let mark = cx.mark();
        let ghost rem0 = cx.remaining_segments();
        match cx.next_segment() {
            None => {
                let e = NoRoute::new().into_error();
                (a1, cx, Err(e))
            },
            Some(seg) => {
                proof {
                    assert(rem0[0] == seg@);
                }
                match parse_i64(&seg) {
                    Some(n) => {
                        let mut out: Vec<Val> = Vec::new();
                        out.push(Val::Int(n));
                        proof {
                            assert(out@ =~= seq![Val::Int(n)]);
                        }
                        (a1, cx, Ok(Preflight::Completed(out)))
                    },
                    None => {
                        cx.rewind(mark);
                        proof {
                            assert(cx == cx0);
                        }
                        let e = crate::error::NotPresent::new(
                            String::from_str("the segment is not an integer"),
                        ).into_error();
                        (a1, cx, Err(e))
                    },
                }
            },
        }
    }
}


#[verifier::rlimit(100)]
fn preflight_path(p: PathAction, cx: PreflightContext) -> (res: (
    Action,
    PreflightContext,
    Result<Preflight<Vec<Val>>, Error>,
))
    requires
        cx.wf(),
    ensures
        pf_path(p, cx, res.0, res.1, res.2),
        res.1.wf(),
        res.1.req == cx.req,
    decreases p,
{
    let PathAction { kind, done } = p;
    if done {
        let e = applied_twice();
        (Action::Path(PathAction { kind, done }), cx, Err(e))
    } else {
        match kind {
            MatchPathKind::Segments(pat) => {
                let mut cx = cx;
                let r = match_literals(&mut cx, &pat);
                let a1 = Action::Path(
                    PathAction { kind: MatchPathKind::Segments(pat), done: true },
                );
                match r {
                    Ok(()) => (a1, cx, Ok(Preflight::Completed(Vec::new()))),
                    Err(e) => (a1, cx, Err(e)),
                }
            },
            MatchPathKind::AllSegments => {
                let mut cx = cx;
                consume_all(&mut cx);
                let a1 = Action::Path(
                    PathAction { kind: MatchPathKind::AllSegments, done: true },
                );
                (a1, cx, Ok(Preflight::Completed(Vec::new())))
            },
        }
    }
}

/// Compares two request methods.
fn method_eq(a: &Method, b: &Method) -> (r: bool)
    ensures
        r == (a == b),
{
    *a == *b
}

/// Prepends the side tag to the winning branch's output when wrapping.
fn tag_out(wrap: bool, left: bool, v: Vec<Val>) -> (r: Vec<Val>)
    ensures
        alt_out_ok(wrap, left, v, r),
{
    if wrap {
        let mut out: Vec<Val> = Vec::new();
        out.push(Val::Tag(left));
        let r = combine(out, v);
        proof {
            assert(r@ =~= seq![Val::Tag(left)] + v@);
        }
        r
    } else {
        v
    }
}

/// The terminal error reported when a preflight is applied a second
/// time.
pub fn applied_twice() -> (r: Error)
    ensures
        !r.advisory,
        r.status == 500u16,
{
    ServerError::new(String::from_str("the action cannot apply twice")).into_error()
}

// ==== the poll transition relation ====

/// A trigger marker for existential child steps in the poll relation.
pub open spec fn poll_witness(a: Action, ctx: ActionContext, r: Result<Polled, Error>) -> bool {
    true
}

/// One poll of a body endpoint that decodes the received payload: the
/// receiver steps first; on end-of-stream the decoder judges the bytes.
/// `kind` tells which decoder: text, JSON or form-urlencoded.
pub open spec fn decode_poll_rel(
    kind: BodyKind,
    i0: ReceiveAllAction,
    ctx0: ActionContext,
    i1: ReceiveAllAction,
    ctx1: ActionContext,
    r: Result<Polled, Error>,
) -> bool {
    exists|ma: ReceiveAllAction, mb: ActionContext, mc: Result<Polled, Error>|
        {
            &&& #[trigger] recv_poll_rel(i0, ctx0, ma, mb, mc)
            &&& i1 == ma
            &&& ctx1 == mb
            &&& match mc {
                Ok(Polled::Ready(out)) => out@.len() == 1 && match out@[0] {
                    Val::Bytes(bb) => decode_finish(kind, bb, r),
                    _ => false,
                },
                Ok(Polled::Pending) => r matches Ok(p) && p is Pending,
                Err(e) => r matches Err(e1) && e1 == e,
            }
        }
}

/// Which decoder a body endpoint applies to the received payload.
#[derive(Clone, Copy, PartialEq, Eq, Structural)]
pub enum BodyKind {
    Text,
    Json,
    Form,
}

/// How a body endpoint finishes once the payload has fully arrived.
pub open spec fn decode_finish(kind: BodyKind, bb: Vec<u8>, r: Result<Polled, Error>) -> bool {
    match kind {
        BodyKind::Text => if valid_utf8(bb@) {
            match r {
                Ok(Polled::Ready(o)) => o@.len() == 1 && match o@[0] {
                    Val::Text(s) => s@ == decode_utf8(bb@),
                    _ => false,
                },
                _ => false,
            }
        } else {
            r matches Err(e) && !e.advisory && e.status == 400u16
        },
        BodyKind::Json => if json_wf(bb@) {
            match r {
                Ok(Polled::Ready(o)) => o@.len() == 1 && match o@[0] {
                    Val::Json(jb) => jb@ == bb@,
                    _ => false,
                },
                _ => false,
            }
        } else {
            r matches Err(e) && !e.advisory && e.status == 400u16
        },
        BodyKind::Form => if form_wf(bb@) {
            match r {
                Ok(Polled::Ready(o)) => o@.len() == 1 && match o@[0] {
                    Val::Form(fb) => fb@ == bb@,
                    _ => false,
                },
                _ => false,
            }
        } else {
            r matches Err(e) && !e.advisory && e.status == 400u16
        },
    }
}

/// The transition relation of the asynchronous phase: how one poll call
/// turns the action `a0` under the context `ctx0` into `a1` and `ctx1`,
/// reporting `r`.
pub open spec fn poll_rel(
    a0: Action,
    ctx0: ActionContext,
    a1: Action,
    ctx1: ActionContext,
    r: Result<Polled, Error>,
) -> bool
    decreases a0, 2int,
{
    match a0 {
        Action::Path(_) => {
            &&& a1 == a0
            &&& ctx1 == ctx0
            &&& r matches Err(e) && !e.advisory && e.status == 500u16
        },
        Action::Param(_) => {
            &&& a1 == a0
            &&& ctx1 == ctx0
            &&& r matches Err(e) && !e.advisory && e.status == 500u16
        },
        Action::Raw(_) => match ctx0.body {
            Some(b) => {
                &&& a1 == a0
                &&& ctx1.req == ctx0.req && ctx1.body is None
                &&& match r {
                    Ok(Polled::Ready(out)) => out@.len() == 1 && out@[0] == Val::Stream(b),
                    _ => false,
                }
            },
            None => {
                &&& a1 == a0
                &&& ctx1 == ctx0
                &&& r matches Err(e) && !e.advisory && e.status == 500u16
            },
        },
        Action::Receive(ra0) => a1 matches Action::Receive(ra1) && recv_poll_rel(
            ra0,
            ctx0,
            ra1,
            ctx1,
            r,
        ),
        Action::Text(t0) => a1 matches Action::Text(t1) && decode_poll_rel(
            BodyKind::Text,
            t0.inner,
            ctx0,
            t1.inner,
            ctx1,
            r,
        ),
        Action::Json(j0) => a1 matches Action::Json(j1) && decode_poll_rel(
            BodyKind::Json,
            j0.inner,
            ctx0,
            j1.inner,
            ctx1,
            r,
        ),
        Action::Urlencoded(u0) => a1 matches Action::Urlencoded(u1) && decode_poll_rel(
            BodyKind::Form,
            u0.inner,
            ctx0,
            u1.inner,
            ctx1,
            r,
        ),
        Action::Both(st0) => poll_both(st0, ctx0, a1, ctx1, r),
        Action::Alt(st0) => poll_alt(st0, ctx0, a1, ctx1, r),
        Action::Mapped(m0) => poll_mapped(m0, ctx0, a1, ctx1, r),
        Action::Chained(c0) => poll_chained(c0, ctx0, a1, ctx1, r),
        Action::Checked(c0) => poll_checked(c0, ctx0, a1, ctx1, r),
    }
}

/// One poll of a conjunction: the kept children that still lack an
/// output are driven left to right; once every kept output is present
/// they are selected and combined.
pub open spec fn poll_both(
    st0: AndAction,
    ctx0: ActionContext,
    a1: Action,
    ctx1: ActionContext,
    r: Result<Polled, Error>,
) -> bool
    decreases st0, 1int,
{
    if needs_left(st0.keep) && st0.left_out is None {
        exists|la: Action, lb: ActionContext, lc: Result<Polled, Error>|
            {
                &&& #[trigger] poll_witness(la, lb, lc)
                &&& poll_rel(*st0.left, ctx0, la, lb, lc)
                &&& match lc {
                    Err(e) => {
                        &&& both_rebuilt(st0, a1, la, *st0.right, None, st0.right_out)
                        &&& ctx1 == lb
                        &&& r matches Err(e1) && e1 == e
                    },
                    Ok(Polled::Pending) => {
                        &&& both_rebuilt(st0, a1, la, *st0.right, None, st0.right_out)
                        &&& ctx1 == lb
                        &&& r matches Ok(p) && p is Pending
                    },
                    Ok(Polled::Ready(lv)) => poll_both_right(
                        st0,
                        la,
                        Some(lv),
                        lb,
                        a1,
                        ctx1,
                        r,
                    ),
                }
            }
    } else {
        poll_both_right(st0, *st0.left, st0.left_out, ctx0, a1, ctx1, r)
    }
}

/// The right half of one conjunction poll, after the left child has been
/// dealt with.
pub open spec fn poll_both_right(
    st0: AndAction,
    l1: Action,
    lo: Option<Vec<Val>>,
    ctxm: ActionContext,
    a1: Action,
    ctx1: ActionContext,
    r: Result<Polled, Error>,
) -> bool
    decreases st0, 0int,
{
    if needs_right(st0.keep) && st0.right_out is None {
        exists|ra: Action, rb: ActionContext, rc: Result<Polled, Error>|
            {
                &&& #[trigger] poll_witness(ra, rb, rc)
                &&& poll_rel(*st0.right, ctxm, ra, rb, rc)
                &&& match rc {
                    Err(e) => {
                        &&& both_rebuilt(st0, a1, l1, ra, lo, None)
                        &&& ctx1 == rb
                        &&& r matches Err(e1) && e1 == e
                    },
                    Ok(Polled::Pending) => {
                        &&& both_rebuilt(st0, a1, l1, ra, lo, None)
                        &&& ctx1 == rb
                        &&& r matches Ok(p) && p is Pending
                    },
                    Ok(Polled::Ready(rv)) => {
                        &&& both_rebuilt(st0, a1, l1, ra, None, None)
                        &&& ctx1 == rb
                        &&& match r {
                            Ok(Polled::Ready(out)) => sel_ok(st0.keep, lo, Some(rv), out),
                            _ => false,
                        }
                    },
                }
            }
    } else {
        &&& both_rebuilt(st0, a1, l1, *st0.right, None, None)
        &&& ctx1 == ctxm
        &&& match r {
            Ok(Polled::Ready(out)) => sel_ok(st0.keep, lo, st0.right_out, out),
            _ => false,
        }
    }
}

/// One poll of an alternative: polling before preflight is a contract
/// violation; afterwards the committed branch is driven and its output
/// tagged when wrapping.
pub open spec fn poll_alt(
    st0: OrAction,
    ctx0: ActionContext,
    a1: Action,
    ctx1: ActionContext,
    r: Result<Polled, Error>,
) -> bool
    decreases st0, 1int,
{
    match st0.state {
        AltState::Start(_, _) => {
            &&& a1 matches Action::Alt(st1) && st1.wrap == st0.wrap && st1.state == st0.state
            &&& ctx1 == ctx0
            &&& r matches Err(e) && !e.advisory && e.status == 500u16
        },
        AltState::Left(l0) => exists|la: Action, lb: ActionContext, lc: Result<Polled, Error>|
            {
                &&& #[trigger] poll_witness(la, lb, lc)
                &&& poll_rel(*l0, ctx0, la, lb, lc)
                &&& alt_now(st0.wrap, true, a1, la)
                &&& ctx1 == lb
                &&& match lc {
                    Ok(Polled::Ready(v)) => match r {
                        Ok(Polled::Ready(out)) => alt_out_ok(st0.wrap, true, v, out),
                        _ => false,
                    },
                    Ok(Polled::Pending) => r matches Ok(p) && p is Pending,
                    Err(e) => r matches Err(e1) && e1 == e,
                }
            },
        AltState::Right(r0) => exists|ra: Action, rb: ActionContext, rc: Result<Polled, Error>|
            {
                &&& #[trigger] poll_witness(ra, rb, rc)
                &&& poll_rel(*r0, ctx0, ra, rb, rc)
                &&& alt_now(st0.wrap, false, a1, ra)
                &&& ctx1 == rb
                &&& match rc {
                    Ok(Polled::Ready(v)) => match r {
                        Ok(Polled::Ready(out)) => alt_out_ok(st0.wrap, false, v, out),
                        _ => false,
                    },
                    Ok(Polled::Pending) => r matches Ok(p) && p is Pending,
                    Err(e) => r matches Err(e1) && e1 == e,
                }
            },
    }
}

/// One poll of a mapping combinator: the transformation is applied
/// exactly when the child's poll yields its output.
pub open spec fn poll_mapped(
    m0: MapAction,
    ctx0: ActionContext,
    a1: Action,
    ctx1: ActionContext,
    r: Result<Polled, Error>,
) -> bool
    decreases m0, 1int,
{
    exists|ia: Action, ib: ActionContext, ic: Result<Polled, Error>|
        {
            &&& #[trigger] poll_witness(ia, ib, ic)
            &&& poll_rel(*m0.inner, ctx0, ia, ib, ic)
            &&& a1 matches Action::Mapped(m1) && *m1.inner == ia && m1.op == m0.op
            &&& ctx1 == ib
            &&& match ic {
                Ok(Polled::Ready(v)) => match r {
                    Ok(Polled::Ready(out)) => out@ == seq![apply_transform_spec(m0.op, v@)],
                    _ => false,
                },
                Ok(Polled::Pending) => r matches Ok(p) && p is Pending,
                Err(e) => r matches Err(e1) && e1 == e,
            }
        }
}

/// One poll of a chaining combinator: a value parked by the preflight is
/// refined now; otherwise the child is driven and its fresh output
/// refined as soon as it is ready.
pub open spec fn poll_chained(
    c0: AndThenAction,
    ctx0: ActionContext,
    a1: Action,
    ctx1: ActionContext,
    r: Result<Polled, Error>,
) -> bool
    decreases c0, 1int,
{
    match c0.got {
        Some(v) => {
            &&& ctx1 == ctx0
            &&& a1 matches Action::Chained(c1) && c1.inner == c0.inner && c1.op == c0.op
                && c1.got is None
            &&& refine_finish(c0.op, v@, r)
        },
        None => exists|ia: Action, ib: ActionContext, ic: Result<Polled, Error>|
            {
                &&& #[trigger] poll_witness(ia, ib, ic)
                &&& poll_rel(*c0.inner, ctx0, ia, ib, ic)
                &&& a1 matches Action::Chained(c1) && *c1.inner == ia && c1.op == c0.op
                    && c1.got is None
                &&& ctx1 == ib
                &&& match ic {
                    Ok(Polled::Ready(v)) => refine_finish(c0.op, v@, r),
                    Ok(Polled::Pending) => r matches Ok(p) && p is Pending,
                    Err(e) => r matches Err(e1) && e1 == e,
                }
            },
    }
}

/// How the second stage of a chain reports the refined output.
pub open spec fn refine_finish(op: Refine, v: Seq<Val>, r: Result<Polled, Error>) -> bool {
    match refine_ok(op, v) {
        Some(n) => match r {
            Ok(Polled::Ready(out)) => out@ == seq![Val::Int(n)],
            _ => false,
        },
        None => r matches Err(e) && !e.advisory && e.status == 400u16,
    }
}

/// One poll of a precheck wrapper: the check ran at preflight; polling
/// passes straight through to the child.
pub open spec fn poll_checked(
    c0: BeforeApplyAction,
    ctx0: ActionContext,
    a1: Action,
    ctx1: ActionContext,
    r: Result<Polled, Error>,
) -> bool
    decreases c0, 1int,
{
    exists|ia: Action, ib: ActionContext, ic: Result<Polled, Error>|
        {
            &&& #[trigger] poll_witness(ia, ib, ic)
            &&& poll_rel(*c0.inner, ctx0, ia, ib, ic)
            &&& a1 matches Action::Checked(c1) && *c1.inner == ia && c1.check == c0.check
            &&& ctx1 == ib
            &&& r == ic
        }
}

impl Action {
    /// Progresses this action and returns the result if ready.  Polling
    /// may claim the request body; its errors are terminal.
    #[verifier::rlimit(60)]
    pub fn poll_action(self, ctx: ActionContext) -> (res: (
        Action,
        ActionContext,
        Result<Polled, Error>,
    ))
        requires
            ctx.wf(),
            action_wf(self),
        ensures
            poll_rel(self, ctx, res.0, res.1, res.2),
            res.1.wf(),
            action_wf(res.0),
            res.1.req == ctx.req,
            res.1.body is Some ==> ctx.body is Some,
            action_steps(res.0) + res.1.steps_left() <= action_steps(self) + ctx.steps_left(),
            (res.2 matches Ok(p) && p is Pending) ==> action_steps(res.0) + res.1.steps_left()
                < action_steps(self) + ctx.steps_left(),
        decreases self, 2int,
    {
        match self {
            Action::Path(p) => {
                let e = resolved_twice();
                (Action::Path(p), ctx, Err(e))
            },
            Action::Param(p) => {
                let e = resolved_twice();
                (Action::Param(p), ctx, Err(e))
            },
            Action::Raw(ra) => {
                let mut ctx = ctx;
                match ctx.take_body() {
                    Some(b) => {
                        let mut out: Vec<Val> = Vec::new();
                        out.push(Val::Stream(b));
                        (Action::Raw(ra), ctx, Ok(Polled::Ready(out)))
                    },
                    None => {
                        let e = stolen_payload();
                        (Action::Raw(ra), ctx, Err(e))
                    },
                }
            },
            Action::Receive(ra) => {
                let (ra1, ctx1, r) = ra.poll_step(ctx);
                (Action::Receive(ra1), ctx1, r)
            },
            Action::Text(t) => {
                let (i1, ctx1, r) = poll_decode(BodyKind::Text, t.inner, ctx);
                (Action::Text(TextAction { inner: i1 }), ctx1, r)
            },
            Action::Json(j) => {
                let (i1, ctx1, r) = poll_decode(BodyKind::Json, j.inner, ctx);
                (Action::Json(JsonAction { inner: i1 }), ctx1, r)
            },
            Action::Urlencoded(u) => {
                let (i1, ctx1, r) = poll_decode(BodyKind::Form, u.inner, ctx);
                (Action::Urlencoded(UrlencodedAction { inner: i1 }), ctx1, r)
            },
            Action::Both(st) => poll_both_exec(st, ctx),
            Action::Alt(st) => poll_alt_exec(st, ctx),
            Action::Mapped(m) => poll_mapped_exec(m, ctx),
            Action::Chained(c) => poll_chained_exec(c, ctx),
            Action::Checked(c) => poll_checked_exec(c, ctx),
        }
    }
}

/// Polls a body-decoding endpoint: drives the receiver, then decodes the
/// complete payload.
#[verifier::rlimit(60)]
fn poll_decode(kind: BodyKind, inner: ReceiveAllAction, ctx: ActionContext) -> (res: (
    ReceiveAllAction,
    ActionContext,
    Result<Polled, Error>,
))
    requires
        ctx.wf(),
        recv_wf(inner),
    ensures
        decode_poll_rel(kind, inner, ctx, res.0, res.1, res.2),
        recv_wf(res.0),
        res.1.wf(),
        res.1.req == ctx.req,
        res.1.body is Some ==> ctx.body is Some,
        recv_steps(res.0) + res.1.steps_left() <= recv_steps(inner) + ctx.steps_left(),
        (res.2 matches Ok(p) && p is Pending) ==> recv_steps(res.0) + res.1.steps_left()
            < recv_steps(inner) + ctx.steps_left(),
{
    let (i1, ctxa, ri) = inner.poll_step(ctx);
    let ghost gm = (i1, ctxa, ri);
    proof {
        assert(recv_poll_rel(inner, ctx, gm.0, gm.1, gm.2));
    }
    match ri {
        Ok(Polled::Ready(out)) => {
            let mut out = out;
            let v0 = out.remove(0);
            match v0 {
                Val::Bytes(bb) => {
                    match kind {
                        BodyKind::Text => match string_from_utf8(bb) {
                            Some(s) => {
                                let mut o: Vec<Val> = Vec::new();
                                o.push(Val::Text(s));
                                (i1, ctxa, Ok(Polled::Ready(o)))
                            },
                            None => {
                                let e = BadRequest::new(
                                    String::from_str("the payload is not valid UTF-8"),
                                ).into_error();
                                (i1, ctxa, Err(e))
                            },
                        },
                        BodyKind::Json => {
                            if json_valid(&bb) {
                                let mut o: Vec<Val> = Vec::new();
                                o.push(Val::Json(bb));
                                (i1, ctxa, Ok(Polled::Ready(o)))
                            } else {
                                let e = BadRequest::new(
                                    String::from_str("the payload is not a JSON document"),
                                ).into_error();
                                (i1, ctxa, Err(e))
                            }
                        },
                        BodyKind::Form => {
                            if form_valid(&bb) {
                                let mut o: Vec<Val> = Vec::new();
                                o.push(Val::Form(bb));
                                (i1, ctxa, Ok(Polled::Ready(o)))
                            } else {
                                let e = BadRequest::new(
                                    String::from_str(
                                        "the payload is not a form-urlencoded document",
                                    ),
                                ).into_error();
                                (i1, ctxa, Err(e))
                            }
                        },
                    }
                },
                _ => {
                    proof {
                        assert(false);
                    }
                    vstd::pervasive::unreached()
                },
            }
        },
        Ok(Polled::Pending) => (i1, ctxa, Ok(Polled::Pending)),
        Err(e) => (i1, ctxa, Err(e)),
    }
}

/// Polls a conjunction: drives the kept children that still lack an
/// output, left to right.
#[verifier::rlimit(100)]
fn poll_both_exec(st: AndAction, ctx: ActionContext) -> (res: (
    Action,
    ActionContext,
    Result<Polled, Error>,
))
    requires
        ctx.wf(),
        action_wf(Action::Both(st)),
    ensures
        poll_both(st, ctx, res.0, res.1, res.2),
        res.1.wf(),
        action_wf(res.0),
        res.1.req == ctx.req,
        res.1.body is Some ==> ctx.body is Some,
        action_steps(res.0) + res.1.steps_left() <= action_steps(Action::Both(st))
            + ctx.steps_left(),
        (res.2 matches Ok(p) && p is Pending) ==> action_steps(res.0) + res.1.steps_left()
            < action_steps(Action::Both(st)) + ctx.steps_left(),
    decreases st, 1int,
{
    let AndAction { left, right, left_out, right_out, keep } = st;
    let poll_left = match keep {
        Keep::Both => true,
        Keep::Left => true,
        Keep::Right => false,
    };
    if poll_left && left_out.is_none() {
        let (l1, ctxa, rl) = (*left).poll_action(ctx);
        let ghost g = (l1, ctxa, rl);
        proof {
            assert(poll_witness(g.0, g.1, g.2));
            assert(poll_rel(*st.left, ctx, g.0, g.1, g.2));
        }
        match rl {
            Err(e) => {
                let a1 = Action::Both(
                    AndAction {
                        left: Box::new(l1),
                        right,
                        left_out: None,
                        right_out,
                        keep,
                    },
                );
                (a1, ctxa, Err(e))
            },
            Ok(Polled::Pending) => {
                let a1 = Action::Both(
                    AndAction {
                        left: Box::new(l1),
                        right,
                        left_out: None,
                        right_out,
                        keep,
                    },
                );
                (a1, ctxa, Ok(Polled::Pending))
            },
            Ok(Polled::Ready(lv)) => poll_both_finish(
                Ghost(st),
                l1,
                Some(lv),
                right,
                right_out,
                keep,
                ctxa,
            ),
        }
    } else {
        poll_both_finish(Ghost(st), *left, left_out, right, right_out, keep, ctx)
    }
}

/// The right half of one conjunction poll.
#[verifier::rlimit(100)]
fn poll_both_finish(
    Ghost(st0): Ghost<AndAction>,
    l1: Action,
    lo: Option<Vec<Val>>,
    right: Box<Action>,
    right_out: Option<Vec<Val>>,
    keep: Keep,
    ctxm: ActionContext,
) -> (res: (Action, ActionContext, Result<Polled, Error>))
    requires
        ctxm.wf(),
        action_wf(*right),
        action_wf(l1),
        right == st0.right,
        right_out == st0.right_out,
        keep == st0.keep,
        needs_left(keep) ==> lo is Some,
    ensures
        poll_both_right(st0, l1, lo, ctxm, res.0, res.1, res.2),
        res.1.wf(),
        action_wf(res.0),
        res.1.req == ctxm.req,
        res.1.body is Some ==> ctxm.body is Some,
        action_steps(res.0) + res.1.steps_left() <= action_steps(l1) + action_steps(*right)
            + ctxm.steps_left(),
        (res.2 matches Ok(p) && p is Pending) ==> action_steps(res.0) + res.1.steps_left()
            < action_steps(l1) + action_steps(*right) + ctxm.steps_left(),
    decreases st0, 0int,
{
    let poll_right = match keep {
        Keep::Both => true,
        Keep::Left => false,
        Keep::Right => true,
    };
    if poll_right && right_out.is_none() {
        let (r1, ctxb, rr) = (*right).poll_action(ctxm);
        let ghost g = (r1, ctxb, rr);
        proof {
            assert(poll_witness(g.0, g.1, g.2));
            assert(poll_rel(*st0.right, ctxm, g.0, g.1, g.2));
        }
        match rr {
            Err(e) => {
                let a1 = Action::Both(
                    AndAction {
                        left: Box::new(l1),
                        right: Box::new(r1),
                        left_out: lo,
                        right_out: None,
                        keep,
                    },
                );
                (a1, ctxb, Err(e))
            },
            Ok(Polled::Pending) => {
                let a1 = Action::Both(
                    AndAction {
                        left: Box::new(l1),
                        right: Box::new(r1),
                        left_out: lo,
                        right_out: None,
                        keep,
                    },
                );
                (a1, ctxb, Ok(Polled::Pending))
            },
            Ok(Polled::Ready(rv)) => {
                let ghost glo = lo;
                let ghost grv = rv;
                let out: Vec<Val> = match keep {
                    Keep::Both => match lo {
                        Some(lv) => combine(lv, rv),
                        None => vstd::pervasive::unreached(),
                    },
                    Keep::Left => match lo {
                        Some(lv) => lv,
                        None => vstd::pervasive::unreached(),
                    },
                    Keep::Right => rv,
                };
                proof {
                    assert(sel_ok(keep, glo, Some(grv), out));
                }
                let a1 = Action::Both(
                    AndAction {
                        left: Box::new(l1),
                        right: Box::new(r1),
                        left_out: None,
                        right_out: None,
                        keep,
                    },
                );
                (a1, ctxb, Ok(Polled::Ready(out)))
            },
        }
    } else {
        let ghost glo = lo;
        let out: Vec<Val> = match keep {
            Keep::Both => match (lo, right_out) {
                (Some(lv), Some(rv)) => combine(lv, rv),
                _ => vstd::pervasive::unreached(),
            },
            Keep::Left => match lo {
                Some(lv) => lv,
                None => vstd::pervasive::unreached(),
            },
            Keep::Right => match right_out {
                Some(rv) => rv,
                None => vstd::pervasive::unreached(),
            },
        };
        proof {
            assert(sel_ok(keep, glo, st0.right_out, out));
        }
        let a1 = Action::Both(
            AndAction {
                left: Box::new(l1),
                right,
                left_out: None,
                right_out: None,
                keep,
            },
        );
        (a1, ctxm, Ok(Polled::Ready(out)))
    }
}

/// Polls an alternative: drives the branch the preflight committed to.
#[verifier::rlimit(100)]
fn poll_alt_exec(st: OrAction, ctx: ActionContext) -> (res: (
    Action,
    ActionContext,
    Result<Polled, Error>,
))
    requires
        ctx.wf(),
        action_wf(Action::Alt(st)),
    ensures
        poll_alt(st, ctx, res.0, res.1, res.2),
        res.1.wf(),
        action_wf(res.0),
        res.1.req == ctx.req,
        res.1.body is Some ==> ctx.body is Some,
        action_steps(res.0) + res.1.steps_left() <= action_steps(Action::Alt(st))
            + ctx.steps_left(),
        (res.2 matches Ok(p) && p is Pending) ==> action_steps(res.0) + res.1.steps_left()
            < action_steps(Action::Alt(st)) + ctx.steps_left(),
    decreases st, 1int,
{
    let OrAction { wrap, state } = st;
    match state {
        AltState::Start(l, r) => {
            let e = resolved_twice();
            (Action::Alt(OrAction { wrap, state: AltState::Start(l, r) }), ctx, Err(e))
        },
        AltState::Left(l0) => {
            let (l1, ctxa, rl) = (*l0).poll_action(ctx);
            let ghost g = (l1, ctxa, rl);
            proof {
                assert(poll_witness(g.0, g.1, g.2));
                assert(st.state matches AltState::Left(gl) && poll_rel(
                    *gl,
                    ctx,
                    g.0,
                    g.1,
                    g.2,
                ));
            }
            let a1 = Action::Alt(OrAction { wrap, state: AltState::Left(Box::new(l1)) });
            match rl {
                Ok(Polled::Ready(v)) => {
                    let out = tag_out(wrap, true, v);
                    (a1, ctxa, Ok(Polled::Ready(out)))
                },
                Ok(Polled::Pending) => (a1, ctxa, Ok(Polled::Pending)),
                Err(e) => (a1, ctxa, Err(e)),
            }
        },
        AltState::Right(r0) => {
            let (r1, ctxa, rr) = (*r0).poll_action(ctx);
            let ghost g = (r1, ctxa, rr);
            proof {
                assert(poll_witness(g.0, g.1, g.2));
                assert(st.state matches AltState::Right(gr) && poll_rel(
                    *gr,
                    ctx,
                    g.0,
                    g.1,
                    g.2,
                ));
            }
            let a1 = Action::Alt(OrAction { wrap, state: AltState::Right(Box::new(r1)) });
            match rr {
                Ok(Polled::Ready(v)) => {
                    let out = tag_out(wrap, false, v);
                    (a1, ctxa, Ok(Polled::Ready(out)))
                },
                Ok(Polled::Pending) => (a1, ctxa, Ok(Polled::Pending)),
                Err(e) => (a1, ctxa, Err(e)),
            }
        },
    }
}

/// Polls a mapping combinator.
#[verifier::rlimit(100)]
fn poll_mapped_exec(m: MapAction, ctx: ActionContext) -> (res: (
    Action,
    ActionContext,
    Result<Polled, Error>,
))
    requires
        ctx.wf(),
        action_wf(Action::Mapped(m)),
    ensures
        poll_mapped(m, ctx, res.0, res.1, res.2),
        res.1.wf(),
        action_wf(res.0),
        res.1.req == ctx.req,
        res.1.body is Some ==> ctx.body is Some,
        action_steps(res.0) + res.1.steps_left() <= action_steps(Action::Mapped(m))
            + ctx.steps_left(),
        (res.2 matches Ok(p) && p is Pending) ==> action_steps(res.0) + res.1.steps_left()
            < action_steps(Action::Mapped(m)) + ctx.steps_left(),
    decreases m, 1int,
{
    let MapAction { inner, op } = m;
    let (i1, ctxa, ri) = (*inner).poll_action(ctx);
    let ghost g = (i1, ctxa, ri);
    proof {
        assert(poll_witness(g.0, g.1, g.2));
        assert(poll_rel(*m.inner, ctx, g.0, g.1, g.2));
    }
    let a1 = Action::Mapped(MapAction { inner: Box::new(i1), op });
    match ri {
        Ok(Polled::Ready(v)) => {
            let ghost gv = v@;
            let t = apply_transform(&op, v);
            let mut out: Vec<Val> = Vec::new();
            out.push(t);
            proof {
                assert(out@ =~= seq![apply_transform_spec(op, gv)]);
            }
            (a1, ctxa, Ok(Polled::Ready(out)))
        },
        Ok(Polled::Pending) => (a1, ctxa, Ok(Polled::Pending)),
        Err(e) => (a1, ctxa, Err(e)),
    }
}

/// Polls a chaining combinator: refines a parked value, or drives the
/// child and refines its fresh output.
#[verifier::rlimit(100)]
fn poll_chained_exec(c: AndThenAction, ctx: ActionContext) -> (res: (
    Action,
    ActionContext,
    Result<Polled, Error>,
))
    requires
        ctx.wf(),
        action_wf(Action::Chained(c)),
    ensures
        poll_chained(c, ctx, res.0, res.1, res.2),
        res.1.wf(),
        action_wf(res.0),
        res.1.req == ctx.req,
        res.1.body is Some ==> ctx.body is Some,
        action_steps(res.0) + res.1.steps_left() <= action_steps(Action::Chained(c))
            + ctx.steps_left(),
        (res.2 matches Ok(p) && p is Pending) ==> action_steps(res.0) + res.1.steps_left()
            < action_steps(Action::Chained(c)) + ctx.steps_left(),
    decreases c, 1int,
{
    let AndThenAction { inner, op, got } = c;
    match got {
        Some(v) => {
            let a1 = Action::Chained(AndThenAction { inner, op, got: None });
            match apply_refine(&op, v) {
                Ok(out) => (a1, ctx, Ok(Polled::Ready(out))),
                Err(e) => (a1, ctx, Err(e)),
            }
        },
        None => {
            let (i1, ctxa, ri) = (*inner).poll_action(ctx);
            let ghost g = (i1, ctxa, ri);
            proof {
                assert(poll_witness(g.0, g.1, g.2));
                assert(poll_rel(*c.inner, ctx, g.0, g.1, g.2));
            }
            let a1 = Action::Chained(AndThenAction { inner: Box::new(i1), op, got: None });
            match ri {
                Ok(Polled::Ready(v)) => {
                    let ghost gv = v@;
                    match apply_refine(&op, v) {
                        Ok(out) => (a1, ctxa, Ok(Polled::Ready(out))),
                        Err(e) => (a1, ctxa, Err(e)),
                    }
                },
                Ok(Polled::Pending) => (a1, ctxa, Ok(Polled::Pending)),
                Err(e) => (a1, ctxa, Err(e)),
            }
        },
    }
}

/// Polls a precheck wrapper: passes straight through to the child.
#[verifier::rlimit(100)]
fn poll_checked_exec(c: BeforeApplyAction, ctx: ActionContext) -> (res: (
    Action,
    ActionContext,
    Result<Polled, Error>,
))
    requires
        ctx.wf(),
        action_wf(Action::Checked(c)),
    ensures
        poll_checked(c, ctx, res.0, res.1, res.2),
        res.1.wf(),
        action_wf(res.0),
        res.1.req == ctx.req,
        res.1.body is Some ==> ctx.body is Some,
        action_steps(res.0) + res.1.steps_left() <= action_steps(Action::Checked(c))
            + ctx.steps_left(),
        (res.2 matches Ok(p) && p is Pending) ==> action_steps(res.0) + res.1.steps_left()
            < action_steps(Action::Checked(c)) + ctx.steps_left(),
    decreases c, 1int,
{
    let BeforeApplyAction { check, inner } = c;
    let (i1, ctxa, ri) = (*inner).poll_action(ctx);
    let ghost g = (i1, ctxa, ri);
    proof {
        assert(poll_witness(g.0, g.1, g.2));
        assert(poll_rel(*c.inner, ctx, g.0, g.1, g.2));
    }
    let a1 = Action::Checked(BeforeApplyAction { check, inner: Box::new(i1) });
    (a1, ctxa, ri)
}

/// The terminal error reported when the request body has already been
/// claimed by another endpoint.
pub fn stolen_payload() -> (r: Error)
    ensures
        !r.advisory,
        r.status == 500u16,
{
    ServerError::new(
        String::from_str("the request body has already been taken by another endpoint"),
    ).into_error()
}

/// The terminal error reported when a spent action is driven again.
pub fn resolved_twice() -> (r: Error)
    ensures
        !r.advisory,
        r.status == 500u16,
{
    ServerError::new(String::from_str("the action cannot resolve twice")).into_error()
}

} // verus!
