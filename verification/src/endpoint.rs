//! Endpoint descriptors.
//!
//! An endpoint is an immutable, shareable descriptor of a combinator
//! tree.  It is never consumed by a request: `action` manufactures a
//! fresh per-request [`Action`] state machine each time it is called, and
//! the relation [`is_action_of`] pins down what a fresh action looks
//! like.

use vstd::prelude::*;

use crate::action::{
    Action, AltState, AndAction, AndThenAction, BeforeApplyAction, JsonAction, Keep, MapAction,
    OrAction, ParamAction, PathAction, Precheck, RawAction, ReceiveAllAction, RecvState,
    TextAction, UrlencodedAction, action_wf,
};
use crate::body::clone_bytes;
use crate::output::{Refine, Transform};
use crate::path::{MatchPath, MatchPathKind};

verus! {

/// The endpoint that extracts one path segment as a decimal integer.
#[derive(Debug)]
pub struct Param {
    _priv: (),
}

/// The endpoint that hands out the raw body handle.
#[derive(Debug)]
pub struct Raw {
    _priv: (),
}

/// The endpoint that receives the whole body payload as bytes.
#[derive(Debug)]
pub struct ReceiveAll {
    _priv: (),
}

/// The endpoint that receives the body and decodes it as UTF-8 text.
#[derive(Debug)]
pub struct Text {
    pub receive_all: ReceiveAll,
}

/// The endpoint that receives the body and validates it as JSON.
#[derive(Debug)]
pub struct Json {
    pub receive_all: ReceiveAll,
}

/// The endpoint that receives the body and validates it as a
/// form-urlencoded document.
#[derive(Debug)]
pub struct Urlencoded {
    pub receive_all: ReceiveAll,
}

/// A mapping endpoint: transforms its child's output tuple.
pub struct MapEndpoint {
    pub endpoint: Box<Endpoint>,
    pub op: Transform,
}

/// A chaining endpoint: refines its child's output in a second, fallible
/// stage that runs during the poll phase.
pub struct AndThen {
    pub endpoint: Box<Endpoint>,
    pub op: Refine,
}

/// A wrapper that runs a cheap request precheck before its child's
/// preflight.
#[derive(Debug, Clone, Copy, PartialEq, Eq, Structural)]
pub struct BeforeApply {
    pub check: Precheck,
}

/// A precheck wrapper around an endpoint.
pub struct BeforeApplyEndpoint {
    pub endpoint: Box<Endpoint>,
    pub check: Precheck,
}

/// An immutable combinator-tree descriptor.
pub enum Endpoint {
    Path(MatchPath),
    Param(Param),
    Raw(Raw),
    ReceiveAll(ReceiveAll),
    Text(Text),
    Json(Json),
    Urlencoded(Urlencoded),
    And(Box<Endpoint>, Box<Endpoint>),
    Left(Box<Endpoint>, Box<Endpoint>),
    With(Box<Endpoint>, Box<Endpoint>),
    Or(Box<Endpoint>, Box<Endpoint>),
    OrStrict(Box<Endpoint>, Box<Endpoint>),
    Mapped(MapEndpoint),
    AndThen(AndThen),
    Checked(BeforeApplyEndpoint),
}

/// Whether two matcher kinds carry the same segments.
pub open spec fn kind_like(a: MatchPathKind, b: MatchPathKind) -> bool {
    match (a, b) {
        (MatchPathKind::Segments(x), MatchPathKind::Segments(y)) => x.deep_view()
            == y.deep_view(),
        (MatchPathKind::AllSegments, MatchPathKind::AllSegments) => true,
        _ => false,
    }
}

/// What a fresh action of an endpoint looks like: the same tree shape,
/// with every guard in its initial state and no body claimed.
pub open spec fn is_action_of(e: Endpoint, a: Action) -> bool
    decreases e,
{
    match e {
        Endpoint::Path(mp) => a matches Action::Path(pa) && kind_like(pa.kind, mp.kind)
            && !pa.done,
        Endpoint::Param(_) => a matches Action::Param(p) && !p.done,
        Endpoint::Raw(_) => a is Raw,
        Endpoint::ReceiveAll(_) => a matches Action::Receive(ra) && ra.state is Start,
        Endpoint::Text(_) => a matches Action::Text(t) && t.inner.state is Start,
        Endpoint::Json(_) => a matches Action::Json(j) && j.inner.state is Start,
        Endpoint::Urlencoded(_) => a matches Action::Urlencoded(u) && u.inner.state is Start,
        Endpoint::And(l, r) => a matches Action::Both(st) && st.keep is Both
            && st.left_out is None && st.right_out is None && is_action_of(*l, *st.left)
            && is_action_of(*r, *st.right),
        Endpoint::Left(l, r) => a matches Action::Both(st) && st.keep is Left
            && st.left_out is None && st.right_out is None && is_action_of(*l, *st.left)
            && is_action_of(*r, *st.right),
        Endpoint::With(l, r) => a matches Action::Both(st) && st.keep is Right
            && st.left_out is None && st.right_out is None && is_action_of(*l, *st.left)
            && is_action_of(*r, *st.right),
        Endpoint::Or(l, r) => a matches Action::Alt(st) && st.wrap && (st.state matches
            AltState::Start(al, ar) && is_action_of(*l, *al) && is_action_of(*r, *ar)),
        Endpoint::OrStrict(l, r) => a matches Action::Alt(st) && !st.wrap && (st.state matches
            AltState::Start(al, ar) && is_action_of(*l, *al) && is_action_of(*r, *ar)),
        Endpoint::Mapped(me) => a matches Action::Mapped(ma) && ma.op == me.op && is_action_of(
            *me.endpoint,
            *ma.inner,
        ),
        Endpoint::AndThen(ae) => a matches Action::Chained(ca) && ca.op == ae.op
            && ca.got is None && is_action_of(*ae.endpoint, *ca.inner),
        Endpoint::Checked(be) => a matches Action::Checked(ba) && ba.check == be.check
            && is_action_of(*be.endpoint, *ba.inner),
    }
}

impl Endpoint {
    /// Manufactures a fresh per-request action from this descriptor.
    pub fn action(&self) -> (a: Action)
        ensures
            is_action_of(*self, a),
            action_wf(a),
        decreases self,
    {
        match self {
            Endpoint::Path(mp) => Action::Path(
                PathAction { kind: clone_kind(&mp.kind), done: false },
            ),
            Endpoint::Param(_) => Action::Param(ParamAction { done: false }),
            Endpoint::Raw(_) => Action::Raw(RawAction { _priv: () }),
            Endpoint::ReceiveAll(_) => Action::Receive(
                ReceiveAllAction { state: RecvState::Start },
            ),
            Endpoint::Text(_) => Action::Text(
                TextAction { inner: ReceiveAllAction { state: RecvState::Start } },
            ),
            Endpoint::Json(_) => Action::Json(
                JsonAction { inner: ReceiveAllAction { state: RecvState::Start } },
            ),
            Endpoint::Urlencoded(_) => Action::Urlencoded(
                UrlencodedAction { inner: ReceiveAllAction { state: RecvState::Start } },
            ),
            Endpoint::And(l, r) => Action::Both(
                AndAction {
                    left: Box::new(l.action()),
                    right: Box::new(r.action()),
                    left_out: None,
                    right_out: None,
                    keep: Keep::Both,
                },
            ),
            Endpoint::Left(l, r) => Action::Both(
                AndAction {
                    left: Box::new(l.action()),
                    right: Box::new(r.action()),
                    left_out: None,
                    right_out: None,
                    keep: Keep::Left,
                },
            ),
            Endpoint::With(l, r) => Action::Both(
                AndAction {
                    left: Box::new(l.action()),
                    right: Box::new(r.action()),
                    left_out: None,
                    right_out: None,
                    keep: Keep::Right,
                },
            ),
            Endpoint::Or(l, r) => Action::Alt(
                OrAction {
                    wrap: true,
                    state: AltState::Start(Box::new(l.action()), Box::new(r.action())),
                },
            ),
            Endpoint::OrStrict(l, r) => Action::Alt(
                OrAction {
                    wrap: false,
                    state: AltState::Start(Box::new(l.action()), Box::new(r.action())),
                },
            ),
            Endpoint::Mapped(me) => Action::Mapped(
                MapAction { inner: Box::new(me.endpoint.action()), op: me.op },
            ),
            Endpoint::AndThen(ae) => Action::Chained(
                AndThenAction { inner: Box::new(ae.endpoint.action()), op: ae.op, got: None },
            ),
            Endpoint::Checked(be) => Action::Checked(
                BeforeApplyAction { check: be.check, inner: Box::new(be.endpoint.action()) },
            ),
        }
    }

    /// Sequential conjunction: both children's outputs, left then right.
    pub fn and(self, other: Endpoint) -> (r: Endpoint)
        ensures
            r matches Endpoint::And(l, rr) && *l == self && *rr == other,
    {
        Endpoint::And(Box::new(self), Box::new(other))
    }

    /// Sequential conjunction keeping only the left child's output.
    pub fn left(self, other: Endpoint) -> (r: Endpoint)
        ensures
            r matches Endpoint::Left(l, rr) && *l == self && *rr == other,
    {
        Endpoint::Left(Box::new(self), Box::new(other))
    }

    /// Sequential conjunction keeping only the right child's output.
    pub fn with(self, other: Endpoint) -> (r: Endpoint)
        ensures
            r matches Endpoint::With(l, rr) && *l == self && *rr == other,
    {
        Endpoint::With(Box::new(self), Box::new(other))
    }

    /// Ordered alternative whose winner is wrapped behind a side tag.
    pub fn or(self, other: Endpoint) -> (r: Endpoint)
        ensures
            r matches Endpoint::Or(l, rr) && *l == self && *rr == other,
    {
        Endpoint::Or(Box::new(self), Box::new(other))
    }

    /// Ordered alternative that returns the winner's output unwrapped.
    pub fn or_strict(self, other: Endpoint) -> (r: Endpoint)
        ensures
            r matches Endpoint::OrStrict(l, rr) && *l == self && *rr == other,
    {
        Endpoint::OrStrict(Box::new(self), Box::new(other))
    }

    /// Applies a transformation to this endpoint's output tuple.
    pub fn map(self, op: Transform) -> (r: Endpoint)
        ensures
            r matches Endpoint::Mapped(m) && *m.endpoint == self && m.op == op,
    {
        Endpoint::Mapped(MapEndpoint { endpoint: Box::new(self), op })
    }

    /// Chains a fallible second stage after this endpoint.
    pub fn and_then(self, op: Refine) -> (r: Endpoint)
        ensures
            r matches Endpoint::AndThen(a) && *a.endpoint == self && a.op == op,
    {
        Endpoint::AndThen(AndThen { endpoint: Box::new(self), op })
    }
}

/// Copies a matcher kind, segment for segment.
fn clone_kind(k: &MatchPathKind) -> (r: MatchPathKind)
    ensures
        kind_like(r, *k),
{
    match k {
        MatchPathKind::AllSegments => MatchPathKind::AllSegments,
        MatchPathKind::Segments(v) => {
            let mut out: Vec<Vec<u8>> = Vec::new();
            let mut i: usize = 0;
            while i < v.len()
                invariant
                    i <= v.len(),
                    out@.len() == i,
                    forall|j: int| 0 <= j < i ==> #[trigger] out@[j]@ == v@[j]@,
                decreases v.len() - i,
            {
                out.push(clone_bytes(&v[i]));
                i += 1;
            }
            proof {
                assert forall|j: int| 0 <= j < v@.len() implies out.deep_view()[j]
                    == v.deep_view()[j] by {
                    assert(out.deep_view()[j] =~= out@[j]@);
                    assert(v.deep_view()[j] =~= v@[j]@);
                }
                assert(out.deep_view() =~= v.deep_view());
            }
            MatchPathKind::Segments(out)
        },
    }
}

impl MatchPath {
    /// Lifts this matcher into an endpoint descriptor.
    pub fn into_endpoint(self) -> (r: Endpoint)
        ensures
            r matches Endpoint::Path(mp) && mp == self,
    {
        Endpoint::Path(self)
    }
}

/// Creates the single-segment integer extractor.
pub fn param() -> (r: Param) {
    Param { _priv: () }
}

impl Param {
    /// Lifts this extractor into an endpoint descriptor.
    pub fn into_endpoint(self) -> (r: Endpoint)
        ensures
            r is Param,
    {
        Endpoint::Param(self)
    }
}

/// Creates an endpoint which takes the request body handle from the
/// context.  If the body has already been taken by another endpoint, the
/// action reports the terminal "already consumed" error.
pub fn raw() -> (r: Raw) {
    Raw { _priv: () }
}

impl Raw {
    /// Lifts this endpoint into a descriptor.
    pub fn into_endpoint(self) -> (r: Endpoint)
        ensures
            r is Raw,
    {
        Endpoint::Raw(self)
    }
}

/// Creates an endpoint which receives the whole request body as bytes.
pub fn receive_all() -> (r: ReceiveAll) {
    ReceiveAll { _priv: () }
}

impl ReceiveAll {
    /// Lifts this endpoint into a descriptor.
    pub fn into_endpoint(self) -> (r: Endpoint)
        ensures
            r is ReceiveAll,
    {
        Endpoint::ReceiveAll(self)
    }
}

/// Creates an endpoint which parses the request body into text.
pub fn text() -> (r: Text) {
    Text { receive_all: receive_all() }
}

impl Text {
    /// Lifts this endpoint into a descriptor.
    pub fn into_endpoint(self) -> (r: Endpoint)
        ensures
            r is Text,
    {
        Endpoint::Text(self)
    }
}

/// Creates an endpoint which validates the request body as JSON.
pub fn json() -> (r: Json) {
    Json { receive_all: receive_all() }
}

impl Json {
    /// Lifts this endpoint into a descriptor.
    pub fn into_endpoint(self) -> (r: Endpoint)
        ensures
            r is Json,
    {
        Endpoint::Json(self)
    }
}

/// Creates an endpoint which validates the request body as a
/// form-urlencoded document.
pub fn urlencoded() -> (r: Urlencoded) {
    Urlencoded { receive_all: receive_all() }
}

impl Urlencoded {
    /// Lifts this endpoint into a descriptor.
    pub fn into_endpoint(self) -> (r: Endpoint)
        ensures
            r is Urlencoded,
    {
        Endpoint::Urlencoded(self)
    }
}

/// Creates an endpoint which takes the raw body stream, like [`raw`].
pub fn body_stream() -> (r: Endpoint)
    ensures
        r is Raw,
{
    Endpoint::Raw(raw())
}

/// Creates a wrapper which runs the given precheck before its child's
/// preflight; a failed check is an advisory routing miss.
pub fn before_apply(check: Precheck) -> (r: BeforeApply)
    ensures
        r.check == check,
{
    BeforeApply { check }
}

impl BeforeApply {
    /// Wraps an endpoint with this precheck.
    pub fn wrap(self, endpoint: Endpoint) -> (r: Endpoint)
        ensures
            r matches Endpoint::Checked(be) && *be.endpoint == endpoint && be.check
                == self.check,
    {
        Endpoint::Checked(BeforeApplyEndpoint { endpoint: Box::new(endpoint), check: self.check })
    }
}

} // verus!
