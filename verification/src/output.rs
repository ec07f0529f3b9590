//! The output data model.
//!
//! A successful match produces an ordered tuple of extracted values,
//! represented as a vector of [`Val`].  Conjunction combines the tuples of
//! its two children by concatenation, left before right; this is the one
//! combine operation every n-ary combinator is built on.

use vstd::prelude::*;

use crate::body::Body;

verus! {

/// One extracted value in an output tuple.
#[derive(Debug, PartialEq)]
pub enum Val {
    /// The unit value produced by pure matchers.
    Unit,
    /// An integer extracted from a path segment.
    Int(i64),
    /// A text body decoded from UTF-8.
    Text(String),
    /// A raw byte payload (a fully received body).
    Bytes(Vec<u8>),
    /// A validated JSON document, kept as its byte text.
    Json(Vec<u8>),
    /// A validated form-urlencoded document, kept as its byte text.
    Form(Vec<u8>),
    /// The request body handle itself, handed out by the raw endpoint.
    Stream(Body),
    /// The side marker a wrapping alternative prepends to the winning
    /// branch's values (`true` for the left branch).
    Tag(bool),
}

/// Concatenates the left child's output tuple with the right child's,
/// preserving left-then-right element order.
pub fn combine(left: Vec<Val>, right: Vec<Val>) -> (r: Vec<Val>)
    ensures
        r@ == left@ + right@,
{
    let ghost goal = left@ + right@;
    let mut acc = left;
    let mut rest = right;
    while rest.len() > 0
        invariant
            acc@ + rest@ == goal,
        decreases rest.len(),
    {
        let v = rest.remove(0);
        acc.push(v);
        proof {
            assert(acc@ + rest@ =~= goal);
        }
    }
    proof {
        assert(acc@ =~= goal);
    }
    acc
}

/// Concatenates two byte vectors.
pub fn concat_bytes(a: Vec<u8>, b: Vec<u8>) -> (r: Vec<u8>)
    ensures
        r@ == a@ + b@,
{
    let ghost goal = a@ + b@;
    let mut acc = a;
    let mut rest = b;
    while rest.len() > 0
        invariant
            acc@ + rest@ == goal,
        decreases rest.len(),
    {
        let v = rest.remove(0);
        acc.push(v);
        proof {
            assert(acc@ + rest@ =~= goal);
        }
    }
    proof {
        assert(acc@ =~= goal);
    }
    acc
}

/// The result of the synchronous first phase of an action.
pub enum Preflight<T> {
    /// The action has been completed with the specified output value.
    Completed(T),
    /// The action is incomplete and needs polling.
    Incomplete,
}

impl<T> Preflight<T> {
    /// Returns `true` if the value of this is `Completed(x)`.
    pub fn is_completed(&self) -> (r: bool)
        ensures
            r == (self is Completed),
    {
        match self {
            Preflight::Completed(..) => true,
            Preflight::Incomplete => false,
        }
    }

    /// Returns `true` if the value of this is `Incomplete`.
    pub fn is_incomplete(&self) -> (r: bool)
        ensures
            r == (self is Incomplete),
    {
        !self.is_completed()
    }

    /// Converts the contained value using the specified closure.
    pub fn map<U, F: FnOnce(T) -> U>(self, op: F) -> (r: Preflight<U>)
        requires
            self is Completed ==> call_requires(op, (self->Completed_0,)),
        ensures
            self is Incomplete ==> r is Incomplete,
            self is Completed ==> r is Completed && call_ensures(
                op,
                (self->Completed_0,),
                r->Completed_0,
            ),
    {
        match self {
            Preflight::Completed(x) => Preflight::Completed(op(x)),
            Preflight::Incomplete => Preflight::Incomplete,
        }
    }
}

/// The result of one asynchronous step of an action.
pub enum Polled {
    /// The action cannot progress until more of the body arrives.
    Pending,
    /// The action finished with its output tuple.
    Ready(Vec<Val>),
}

// ==== output transformations ====

/// A side-effect-free transformation a mapping combinator applies to the
/// output tuple of its child, producing one value.
#[derive(Clone, Copy, PartialEq, Eq, Structural)]
pub enum Transform {
    /// The number of values in the tuple (saturating).
    Count,
    /// The first value of the tuple, or the unit value when it is empty.
    Head,
}

/// What applying a transformation to an output tuple yields.
pub open spec fn apply_transform_spec(t: Transform, vals: Seq<Val>) -> Val {
    match t {
        Transform::Count => if vals.len() <= 0x7fff_ffff {
            Val::Int(vals.len() as i64)
        } else {
            Val::Int(0x7fff_ffff)
        },
        Transform::Head => if vals.len() > 0 {
            vals[0]
        } else {
            Val::Unit
        },
    }
}

/// Applies a transformation to an output tuple.
pub fn apply_transform(t: &Transform, vals: Vec<Val>) -> (r: Val)
    ensures
        r == apply_transform_spec(*t, vals@),
{
    match t {
        Transform::Count => {
            let n = vals.len();
            if n <= 0x7fff_ffff {
                Val::Int(n as i64)
            } else {
                Val::Int(0x7fff_ffff)
            }
        },
        Transform::Head => {
            let mut vals = vals;
            if vals.len() > 0 {
                vals.remove(0)
            } else {
                Val::Unit
            }
        },
    }
}

/// A fallible second stage a chaining combinator runs once its child has
/// produced a value; its failure is a terminal error.
#[derive(Clone, Copy, PartialEq, Eq, Structural)]
pub enum Refine {
    /// Parses the first value — text or bytes — as a decimal integer.
    ParseInt,
}

/// The integer a refinement extracts from an output tuple, when it can.
pub open spec fn refine_ok(op: Refine, vals: Seq<Val>) -> Option<i64> {
    match op {
        Refine::ParseInt => if vals.len() > 0 {
            match vals[0] {
                Val::Text(s) => crate::codec::parse_i64_spec(
                    vstd::utf8::encode_utf8(s@),
                ),
                Val::Bytes(b) => crate::codec::parse_i64_spec(b@),
                _ => None,
            }
        } else {
            None
        },
    }
}

/// Applies a refinement to an output tuple: the refined tuple on success,
/// a hard 400-class error otherwise.
pub fn apply_refine(op: &Refine, vals: Vec<Val>) -> (r: Result<Vec<Val>, crate::error::Error>)
    ensures
        match refine_ok(*op, vals@) {
            Some(n) => r matches Ok(out) && out@ == seq![Val::Int(n)],
            None => r matches Err(e) && !e.advisory && e.status == 400u16,
        },
{
    let mut vals = vals;
    match op {
        Refine::ParseInt => {
            if vals.len() == 0 {
                return Err(
                    crate::error::BadRequest::new(
                        String::from_str("nothing to parse"),
                    ).into_error(),
                );
            }
            let parsed: Option<i64> = match &vals[0] {
                Val::Text(s) => crate::codec::parse_i64(&s.as_str().as_bytes_vec()),
                Val::Bytes(b) => crate::codec::parse_i64(b),
                _ => None,
            };
            match parsed {
                Some(n) => {
                    let mut out: Vec<Val> = Vec::new();
                    out.push(Val::Int(n));
                    proof {
                        assert(out@ =~= seq![Val::Int(n)]);
                    }
                    Ok(out)
                },
                None => Err(
                    crate::error::BadRequest::new(
                        String::from_str("not a decimal integer"),
                    ).into_error(),
                ),
            }
        },
    }
}

} // verus!
