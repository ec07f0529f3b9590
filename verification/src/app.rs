//! The dispatcher.
//!
//! The dispatcher drives one action to completion per request: the
//! preflight first, then — while the action is incomplete — repeated
//! polls, each of which may consume part of the body schedule.  The final
//! typed output, or the error, is converted into a response; no leaf or
//! combinator constructs a response itself.

use vstd::prelude::*;

use crate::action::{
    action_steps, action_wf, pf_rel, pf_witness, poll_rel, poll_witness, Action,
};
use crate::body::Body;
use crate::context::ActionContext;
use crate::cursor::PreflightContext;
use crate::endpoint::{is_action_of, Endpoint};
use crate::error::Error;
use crate::output::{Polled, Preflight, Val};
use crate::request::Request;

verus! {

use vstd::utf8::encode_utf8;

// ==== running an action to completion ====

/// There is a chain of `fuel` or fewer polls from this state to the
/// outcome `out`.
pub open spec fn polls_to(
    a: Action,
    ctx: ActionContext,
    fuel: nat,
    out: Result<Vec<Val>, Error>,
) -> bool
    decreases fuel,
{
    exists|a1: Action, ctx1: ActionContext, r: Result<Polled, Error>|
        {
            &&& #[trigger] poll_witness(a1, ctx1, r)
            &&& poll_rel(a, ctx, a1, ctx1, r)
            &&& match r {
                Ok(Polled::Ready(v)) => out == Ok::<Vec<Val>, Error>(v),
                Err(e) => out == Err::<Vec<Val>, Error>(e),
                Ok(Polled::Pending) => fuel > 0 && polls_to(a1, ctx1, (fuel - 1) as nat, out),
            }
        }
}

/// The action `a`, preflighted over `req` and then polled with the body
/// `body`, reaches the outcome `out`.
pub open spec fn drives_to(
    a: Action,
    req: Request,
    body: Body,
    out: Result<Vec<Val>, Error>,
) -> bool {
    exists|a1: Action, cx1: PreflightContext, r: Result<Preflight<Vec<Val>>, Error>|
        {
            &&& #[trigger] pf_witness(a1, cx1, r)
            &&& pf_rel(a, PreflightContext { req, pos: 1, popped: 0 }, a1, cx1, r)
            &&& match r {
                Ok(Preflight::Completed(v)) => out == Ok::<Vec<Val>, Error>(v),
                Err(e) => out == Err::<Vec<Val>, Error>(e),
                Ok(Preflight::Incomplete) => exists|fuel: nat|
                    #[trigger] polls_to(
                        a1,
                        ActionContext { req: cx1.req, body: Some(body) },
                        fuel,
                        out,
                    ),
            }
        }
}

proof fn lemma_action_steps_nonneg(a: Action)
    requires
        action_wf(a),
    ensures
        action_steps(a) >= 0,
    decreases a,
{
    match a {
        Action::Both(st) => {
            lemma_action_steps_nonneg(*st.left);
            lemma_action_steps_nonneg(*st.right);
        },
        Action::Alt(st) => {
            match st.state {
                crate::action::AltState::Start(l, r) => {
                    lemma_action_steps_nonneg(*l);
                    lemma_action_steps_nonneg(*r);
                },
                crate::action::AltState::Left(l) => {
                    lemma_action_steps_nonneg(*l);
                },
                crate::action::AltState::Right(r) => {
                    lemma_action_steps_nonneg(*r);
                },
            }
        },
        Action::Mapped(m) => {
            lemma_action_steps_nonneg(*m.inner);
        },
        Action::Chained(c) => {
            lemma_action_steps_nonneg(*c.inner);
        },
        Action::Checked(c) => {
            lemma_action_steps_nonneg(*c.inner);
        },
        _ => {},
    }
}

/// Polls the action until it yields its output or a terminal error.
/// Termination is by the body schedule: every pending poll consumes at
/// least one schedule entry.
fn drive(a: Action, ctx: ActionContext) -> (r: Result<Vec<Val>, Error>)
    requires
        ctx.wf(),
        action_wf(a),
    ensures
        exists|fuel: nat| #[trigger] polls_to(a, ctx, fuel, r),
    decreases action_steps(a) + ctx.steps_left(),
{
    proof {
        lemma_action_steps_nonneg(a);
    }
    let ghost ga = a;
    let ghost gctx = ctx;
    let (a1, ctx1, pr) = a.poll_action(ctx);
    let ghost g = (a1, ctx1, pr);
    proof {
        assert(poll_witness(g.0, g.1, g.2));
        assert(poll_rel(ga, gctx, g.0, g.1, g.2));
    }
    match pr {
        Ok(Polled::Ready(v)) => {
            let ghost gv = v;
            proof {
                assert(polls_to(ga, gctx, 0, Ok::<Vec<Val>, Error>(gv)));
            }
            Ok(v)
        },
        Err(e) => {
            let ghost ge = e;
            proof {
                assert(polls_to(ga, gctx, 0, Err::<Vec<Val>, Error>(ge)));
            }
            Err(e)
        },
        Ok(Polled::Pending) => {
            proof {
                lemma_action_steps_nonneg(g.0);
            }
            let out = drive(a1, ctx1);
            let ghost gout = out;
            proof {
                let f = choose|f: nat| polls_to(g.0, g.1, f, gout);
                assert(polls_to(ga, gctx, f + 1, gout));
            }
            out
        },
    }
}

// ==== responses ====

/// An HTTP response as the core models it: a status code, a header list
/// and a fully materialized body.
pub struct Response {
    pub status: u16,
    pub headers: Vec<(Vec<u8>, Vec<u8>)>,
    pub body: Vec<u8>,
}

/// The decimal digits of a non-negative number, most significant first.
pub open spec fn dec_digits(n: int) -> Seq<u8>
    decreases n when n >= 0
{
    if n < 10 {
        seq![(48 + n) as u8]
    } else {
        dec_digits(n / 10).push((48 + n % 10) as u8)
    }
}

/// The decimal rendering of an integer.
pub open spec fn dec_of(n: int) -> Seq<u8> {
    if n < 0 {
        seq![45u8] + dec_digits(-n)
    } else {
        dec_digits(n)
    }
}

/// Renders a non-negative number in decimal.
fn fmt_u64(n: u64) -> (r: Vec<u8>)
    ensures
        r@ == dec_digits(n as int),
    decreases n,
{
    if n < 10 {
        let mut r: Vec<u8> = Vec::new();
        r.push(48 + (n as u8));
        proof {
            assert(r@ =~= dec_digits(n as int));
        }
        r
    } else {
        let mut r = fmt_u64(n / 10);
        r.push(48 + ((n % 10) as u8));
        r
    }
}

/// Renders a signed integer in decimal.
pub fn fmt_i64(n: i64) -> (r: Vec<u8>)
    ensures
        r@ == dec_of(n as int),
{
    if n >= 0 {
        fmt_u64(n as u64)
    } else {
        let m: u64 = if n == i64::MIN {
            9223372036854775808u64
        } else {
            (-n) as u64
        };
        let mut r: Vec<u8> = Vec::new();
        r.push(45);
        let digits = fmt_u64(m);
        let r = crate::output::concat_bytes(r, digits);
        proof {
            assert(r@ =~= dec_of(n as int));
        }
        r
    }
}

/// How one output value appears in a plain-text response body.
pub open spec fn render_val_spec(v: Val) -> Seq<u8> {
    match v {
        Val::Unit => Seq::empty(),
        Val::Int(n) => dec_of(n as int),
        Val::Text(s) => encode_utf8(s@),
        Val::Bytes(b) => b@,
        Val::Json(b) => b@,
        Val::Form(b) => b@,
        Val::Stream(_) => Seq::empty(),
        Val::Tag(_) => Seq::empty(),
    }
}

/// The plain-text rendering of a whole output tuple: the values
/// rendered in order, concatenated.
pub open spec fn render_out_spec(vals: Seq<Val>) -> Seq<u8>
    decreases vals.len(),
{
    if vals.len() == 0 {
        Seq::empty()
    } else {
        render_val_spec(vals[0]) + render_out_spec(vals.drop_first())
    }
}

/// Renders one output value.
pub fn render_val(v: Val) -> (r: Vec<u8>)
    ensures
        r@ == render_val_spec(v),
{
    match v {
        Val::Unit => Vec::new(),
        Val::Int(n) => fmt_i64(n),
        Val::Text(s) => s.as_str().as_bytes_vec(),
        Val::Bytes(b) => b,
        Val::Json(b) => b,
        Val::Form(b) => b,
        Val::Stream(_) => Vec::new(),
        Val::Tag(_) => Vec::new(),
    }
}

/// Renders a whole output tuple.
pub fn render_out(vals: Vec<Val>) -> (r: Vec<u8>)
    ensures
        r@ == render_out_spec(vals@),
{
    let ghost gvals = vals@;
    let mut rest = vals;
    let mut r: Vec<u8> = Vec::new();
    while rest.len() > 0
        invariant
            r@ + render_out_spec(rest@) == render_out_spec(gvals),
        decreases rest.len(),
    {
        let ghost before = rest@;
        let v = rest.remove(0);
        proof {
            assert(before.drop_first() =~= rest@);
            assert(render_out_spec(before) == render_val_spec(v) + render_out_spec(rest@));
        }
        let piece = render_val(v);
        let ghost rprev = r@;
        r = crate::output::concat_bytes(r, piece);
        proof {
            assert(r@ + render_out_spec(rest@) =~= render_out_spec(gvals));
        }
    }
    proof {
        assert(r@ =~= render_out_spec(gvals));
    }
    r
}

/// What the default responder produces: a plain-text 200 response for an
/// output tuple, the error's own status and message otherwise.
pub open spec fn resp_of(out: Result<Vec<Val>, Error>, resp: Response) -> bool {
    match out {
        Ok(v) => {
            &&& resp.status == 200u16
            &&& resp.body@ == render_out_spec(v@)
        },
        Err(e) => {
            &&& resp.status == e.status
            &&& resp.body@ == encode_utf8(e.message@)
        },
    }
}

/// A pre-defined responder that renders the output tuple as plain text.
#[derive(Debug)]
pub struct DefaultResponder {
    _priv: (),
}

impl DefaultResponder {
    /// Creates the default responder.
    pub fn new() -> (r: DefaultResponder) {
        DefaultResponder { _priv: () }
    }

    /// Converts an outcome into an HTTP response: the rendered output
    /// with status 200, or the error's status and message.
    pub fn respond(&self, outcome: Result<Vec<Val>, Error>) -> (r: Response)
        ensures
            resp_of(outcome, r),
    {
        match outcome {
            Ok(vals) => {
                let body = render_out(vals);
                let mut headers: Vec<(Vec<u8>, Vec<u8>)> = Vec::new();
                headers.push(
                    (
                        ("content-type").as_bytes_vec(),
                        ("text/plain; charset=utf-8").as_bytes_vec(),
                    ),
                );
                Response { status: 200, headers, body }
            },
            Err(e) => {
                let body = e.message.as_str().as_bytes_vec();
                let mut headers: Vec<(Vec<u8>, Vec<u8>)> = Vec::new();
                headers.push(
                    (
                        ("content-type").as_bytes_vec(),
                        ("text/plain; charset=utf-8").as_bytes_vec(),
                    ),
                );
                Response { status: e.status, headers, body }
            },
        }
    }
}

/// A responder that renders a single value, for inspection while
/// developing; `pretty` is kept for interface fidelity and does not
/// change the byte-exact rendering.
#[derive(Debug)]
pub struct Debug {
    pub value: Val,
    pub pretty: bool,
}

impl Debug {
    /// Creates an instance from a value to render.
    pub fn new(value: Val) -> (r: Debug)
        ensures
            r.value == value,
            !r.pretty,
    {
        Debug { value, pretty: false }
    }

    /// Sets whether the rendering is the pretty variant.
    pub fn pretty(self, enabled: bool) -> (r: Debug)
        ensures
            r.value == self.value,
            r.pretty == enabled,
    {
        Debug { value: self.value, pretty: enabled }
    }

    /// Renders the value as a plain-text 200 response.
    pub fn respond(self) -> (r: Response)
        ensures
            r.status == 200u16,
            r.body@ == render_val_spec(self.value),
    {
        let body = render_val(self.value);
        let mut headers: Vec<(Vec<u8>, Vec<u8>)> = Vec::new();
        headers.push(
            (("content-type").as_bytes_vec(), ("text/plain; charset=utf-8").as_bytes_vec()),
        );
        Response { status: 200, headers, body }
    }
}

// ==== the dispatcher ====

/// A dispatcher wrapping one endpoint tree: it resolves each incoming
/// request against a fresh action of the tree.
pub struct App {
    pub endpoint: Endpoint,
}

impl App {
    /// Creates a dispatcher from the given endpoint.
    pub fn new(endpoint: Endpoint) -> (r: App)
        ensures
            r.endpoint == endpoint,
    {
        App { endpoint }
    }

    /// Resolves one request: preflight, then polling until the output or
    /// a terminal error arrives.
    pub fn run(&self, req: Request, body: Body) -> (r: Result<Vec<Val>, Error>)
        requires
            req.wf(),
            body.wf(),
        ensures
            exists|a: Action| #[trigger] is_action_of(self.endpoint, a) && drives_to(
                a,
                req,
                body,
                r,
            ),
    {
        let a = self.endpoint.action();
        let ghost ga = a;
        let ghost greq = req;
        let cx = PreflightContext::new(req);
        let ghost gcx = cx;
        proof {
            assert(gcx == (PreflightContext { req: greq, pos: 1, popped: 0 }));
        }
        let (a1, cx1, pr) = a.preflight(cx);
        let ghost g = (a1, cx1, pr);
        proof {
            assert(pf_witness(g.0, g.1, g.2));
            assert(pf_rel(ga, gcx, g.0, g.1, g.2));
        }
        match pr {
            Ok(Preflight::Completed(v)) => {
                let ghost gv = v;
                proof {
                    assert(drives_to(ga, greq, body, Ok::<Vec<Val>, Error>(gv)));
                }
                Ok(v)
            },
            Err(e) => {
                let ghost ge = e;
                proof {
                    assert(drives_to(ga, greq, body, Err::<Vec<Val>, Error>(ge)));
                }
                Err(e)
            },
            Ok(Preflight::Incomplete) => {
                let actx = ActionContext::new(cx1.into_request(), Some(body));
                let ghost gactx = actx;
                let out = drive(a1, actx);
                let ghost gout = out;
                proof {
                    let f = choose|f: nat| polls_to(g.0, gactx, f, gout);
                    assert(polls_to(g.0, (ActionContext { req: g.1.req, body: Some(body) }), f, gout));
                    assert(drives_to(ga, greq, body, gout));
                }
                out
            },
        }
    }

    /// Resolves one request and converts the outcome into a response
    /// through the default responder.
    pub fn dispatch(&self, req: Request, body: Body) -> (r: Response)
        requires
            req.wf(),
            body.wf(),
        ensures
            exists|a: Action, out: Result<Vec<Val>, Error>|
                {
                    &&& is_action_of(self.endpoint, a)
                    &&& #[trigger] drives_to(a, req, body, out)
                    &&& resp_of(out, r)
                },
    {
        let out = self.run(req, body);
        let ghost gout = out;
        let resp = DefaultResponder::new().respond(out);
        proof {
            let a = choose|a: Action|
                #[trigger] is_action_of(self.endpoint, a) && drives_to(a, req, body, gout);
            assert(is_action_of(self.endpoint, a) && drives_to(a, req, body, gout) && resp_of(
                gout,
                resp,
            ));
        }
        resp
    }
}

} // verus!
