//! The request-body handle.
//!
//! A body is a single-owner, single-consumption stream of byte chunks.
//! The driver that feeds the core has already scheduled the chunks as a
//! finite sequence of poll outcomes: each poll either yields a chunk,
//! reports that no data is available yet, or signals end-of-stream once
//! the sequence is exhausted.  The full payload of a body is the
//! concatenation of its data chunks, in order.

use vstd::prelude::*;

verus! {

/// One scheduled outcome of polling the body stream.
#[derive(Debug, PartialEq)]
pub enum BodyStep {
    /// No data was available at this poll; the caller must suspend.
    NotReady,
    /// A chunk of payload bytes arrived.
    Data(Vec<u8>),
}

/// What one call to [`Body::poll_data`] reports.
#[derive(Debug)]
pub enum BodyPoll {
    /// No data yet; poll again later.
    Pending,
    /// The next chunk of the payload.
    Chunk(Vec<u8>),
    /// The stream is exhausted; no further chunk will arrive.
    End,
}

/// A request body: a finite schedule of poll outcomes and a cursor over it.
#[derive(Debug, PartialEq)]
pub struct Body {
    pub steps: Vec<BodyStep>,
    pub pos: usize,
}

/// The payload carried by the steps of `steps` from `from` on: the
/// concatenation of every data chunk, in order.
pub open spec fn payload_from(steps: Seq<BodyStep>, from: int) -> Seq<u8>
    decreases steps.len() - from when 0 <= from <= steps.len()
{
    if from >= steps.len() {
        Seq::empty()
    } else {
        match steps[from] {
            BodyStep::NotReady => payload_from(steps, from + 1),
            BodyStep::Data(chunk) => chunk@ + payload_from(steps, from + 1),
        }
    }
}

impl Body {
    /// A body is well formed while its cursor lies within its schedule.
    pub open spec fn wf(&self) -> bool {
        self.pos <= self.steps.len()
    }

    /// The payload bytes this body has not yet yielded.
    pub open spec fn remaining_payload(&self) -> Seq<u8> {
        payload_from(self.steps@, self.pos as int)
    }

    /// The number of schedule entries this body has not yet consumed.
    pub open spec fn remaining_steps(&self) -> int {
        self.steps@.len() - self.pos
    }

    /// Creates a body from a schedule of poll outcomes.
    pub fn new(steps: Vec<BodyStep>) -> (r: Body)
        ensures
            r.steps == steps,
            r.pos == 0usize,
            r.wf(),
    {
        Body { steps, pos: 0 }
    }

    /// Creates a body whose whole payload arrives as one chunk.
    pub fn from_bytes(payload: Vec<u8>) -> (r: Body)
        ensures
            r.wf(),
            r.remaining_payload() == payload@,
    {
        let ghost p = payload@;
        let mut steps: Vec<BodyStep> = Vec::new();
        steps.push(BodyStep::Data(payload));
        let r = Body { steps, pos: 0 };
        proof {
            assert(r.steps@.len() == 1);
            assert(payload_from(r.steps@, 1) =~= Seq::<u8>::empty());
            assert(r.remaining_payload() =~= p);
        }
        r
    }

    /// Creates an already-exhausted body.
    pub fn empty() -> (r: Body)
        ensures
            r.wf(),
            r.remaining_payload() == Seq::<u8>::empty(),
            r.remaining_steps() == 0,
    {
        Body { steps: Vec::new(), pos: 0 }
    }

    /// Polls the stream: consumes the next schedule entry and reports it,
    /// or reports end-of-stream once the schedule is exhausted.
    pub fn poll_data(&mut self) -> (r: BodyPoll)
        requires
            old(self).wf(),
        ensures
            final(self).wf(),
            final(self).steps == old(self).steps,
            match r {
                BodyPoll::Pending => {
                    &&& old(self).remaining_steps() > 0
                    &&& old(self).steps@[old(self).pos as int] is NotReady
                    &&& final(self).pos == old(self).pos + 1
                    &&& final(self).remaining_payload() == old(self).remaining_payload()
                },
                BodyPoll::Chunk(chunk) => {
                    &&& old(self).remaining_steps() > 0
                    &&& (old(self).steps@[old(self).pos as int] matches BodyStep::Data(c)
                        && chunk@ == c@)
                    &&& final(self).pos == old(self).pos + 1
                    &&& old(self).remaining_payload() == chunk@
                        + final(self).remaining_payload()
                },
                BodyPoll::End => {
                    &&& old(self).remaining_steps() == 0
                    &&& final(self).pos == old(self).pos
                    &&& old(self).remaining_payload() == Seq::<u8>::empty()
                },
            },
    {
        if self.pos == self.steps.len() {
            return BodyPoll::End;
        }
        let i = self.pos;
        self.pos = self.pos + 1;
        // The schedule entry is read without disturbing the vector: the
        // chunk bytes are copied out of it.
        match &self.steps[i] {
            BodyStep::NotReady => {
                proof {
                    assert(payload_from(self.steps@, i as int) == payload_from(
                        self.steps@,
                        i as int + 1,
                    ));
                }
                BodyPoll::Pending
            },
            BodyStep::Data(chunk) => {
                let c = clone_bytes(chunk);
                proof {
                    assert(payload_from(self.steps@, i as int) == c@ + payload_from(
                        self.steps@,
                        i as int + 1,
                    ));
                }
                BodyPoll::Chunk(c)
            },
        }
    }
}

/// Copies a byte vector.
pub fn clone_bytes(v: &Vec<u8>) -> (r: Vec<u8>)
    ensures
        r@ == v@,
{
    let mut r: Vec<u8> = Vec::new();
    let mut i: usize = 0;
    while i < v.len()
        invariant
            i <= v.len(),
            r@ == v@.subrange(0, i as int),
        decreases v.len() - i,
    {
        r.push(v[i]);
        proof {
            assert(r@ =~= v@.subrange(0, i as int + 1));
        }
        i += 1;
    }
    proof {
        assert(r@ =~= v@);
    }
    r
}

} // verus!
