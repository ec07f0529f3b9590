//! The preflight context: an immutable request view plus a forward-only
//! cursor over the path segments.
//!
//! The path `/foo/bar.txt` holds the segments `foo` and `bar.txt`; the root
//! path `/` holds none.  The cursor starts right after the leading slash
//! and pops one segment at a time; once the path is exhausted every further
//! pop keeps reporting `None` without moving.

use vstd::prelude::*;

use crate::request::Request;

verus! {

/// The index of the first slash in `path` at or after `pos`, or the length
/// of `path` when no slash follows.
pub open spec fn find_slash(path: Seq<u8>, pos: int) -> int
    decreases path.len() - pos when 0 <= pos <= path.len()
{
    if pos >= path.len() {
        path.len() as int
    } else if path[pos] == 47u8 {
        pos
    } else {
        find_slash(path, pos + 1)
    }
}

/// The cursor position that follows the segment starting at `pos`: one
/// past the delimiting slash, or the end of the path.
pub open spec fn after_segment(path: Seq<u8>, pos: int) -> int {
    let e = find_slash(path, pos);
    if e < path.len() {
        e + 1
    } else {
        e
    }
}

/// The path segments that remain at cursor position `pos`, in order.
pub open spec fn segments_from(path: Seq<u8>, pos: int) -> Seq<Seq<u8>>
    decreases path.len() - pos when 0 <= pos <= path.len() via segments_from_decreases
{
    if pos >= path.len() {
        Seq::empty()
    } else {
        seq![path.subrange(pos, find_slash(path, pos))] + segments_from(
            path,
            after_segment(path, pos),
        )
    }
}

#[via_fn]
proof fn segments_from_decreases(path: Seq<u8>, pos: int) {
    if 0 <= pos < path.len() {
        lemma_find_slash_bounds(path, pos);
    }
}

/// All segments of a well-formed path (one that begins with a slash).
pub open spec fn segments_of(path: Seq<u8>) -> Seq<Seq<u8>> {
    segments_from(path, 1)
}

pub broadcast proof fn lemma_find_slash_bounds(path: Seq<u8>, pos: int)
    requires
        0 <= pos <= path.len(),
    ensures
        pos <= #[trigger] find_slash(path, pos) <= path.len(),
    decreases path.len() - pos,
{
    if pos < path.len() && path[pos] != 47u8 {
        lemma_find_slash_bounds(path, pos + 1);
    }
}

/// A saved cursor position, used by alternative combinators to rewind
/// after an advisory mismatch.
#[derive(Clone, Copy)]
pub struct CursorMark {
    pub pos: usize,
    pub popped: usize,
}

/// A set of contextual values used during the synchronous matching phase:
/// the request metadata and the segment cursor.
pub struct PreflightContext {
    pub req: Request,
    pub pos: usize,
    pub popped: usize,
}

impl PreflightContext {
    /// The cursor always sits between the leading slash and the end of
    /// the path of a well-formed request, and can have popped at most one
    /// segment per byte it has advanced over.
    pub open spec fn wf(&self) -> bool {
        self.req.wf() && 1 <= self.pos <= self.req.path@.len() && self.popped < self.pos
    }

    /// The segments the cursor has not yet consumed.
    pub open spec fn remaining_segments(&self) -> Seq<Seq<u8>> {
        segments_from(self.req.path@, self.pos as int)
    }

    /// Creates a context whose cursor sits just past the leading slash.
    pub fn new(req: Request) -> (r: PreflightContext)
        requires
            req.wf(),
        ensures
            r.req == req,
            r.pos == 1usize,
            r.popped == 0usize,
            r.wf(),
    {
        PreflightContext { req, pos: 1, popped: 0 }
    }

    /// Returns a reference to the inner request.
    pub fn request(&self) -> (r: &Request)
        ensures
            r == self.req,
    {
        &self.req
    }

    /// Gives the request back, consuming the context.
    pub fn into_request(self) -> (r: Request)
        ensures
            r == self.req,
    {
        self.req
    }

    /// Returns the number of segments already popped.
    pub fn num_popped_segments(&self) -> (r: usize)
        ensures
            r == self.popped,
    {
        self.popped
    }

    /// Saves the cursor so an alternative combinator can rewind to it.
    pub fn mark(&self) -> (r: CursorMark)
        ensures
            r.pos == self.pos,
            r.popped == self.popped,
    {
        CursorMark { pos: self.pos, popped: self.popped }
    }

    /// Rewinds the cursor to a previously saved position.
    pub fn rewind(&mut self, m: CursorMark)
        requires
            old(self).wf(),
            1 <= m.pos <= old(self).req.path@.len(),
            m.popped < m.pos,
        ensures
            final(self).req == old(self).req,
            final(self).pos == m.pos,
            final(self).popped == m.popped,
            final(self).wf(),
    {
        self.pos = m.pos;
        self.popped = m.popped;
    }

    /// Advances the cursor and returns the next segment, or `None` — and
    /// leaves the cursor untouched — once the path is exhausted.
    pub fn next_segment(&mut self) -> (r: Option<Vec<u8>>)
        requires
            old(self).wf(),
        ensures
            final(self).wf(),
            final(self).req == old(self).req,
            match r {
                None => {
                    &&& old(self).pos == old(self).req.path@.len()
                    &&& *final(self) == *old(self)
                    &&& old(self).remaining_segments() == Seq::<Seq<u8>>::empty()
                },
                Some(seg) => {
                    &&& old(self).pos < old(self).req.path@.len()
                    &&& seg@ == old(self).req.path@.subrange(
                        old(self).pos as int,
                        find_slash(old(self).req.path@, old(self).pos as int),
                    )
                    &&& final(self).pos == after_segment(
                        old(self).req.path@,
                        old(self).pos as int,
                    )
                    &&& final(self).popped == old(self).popped + 1
                    &&& final(self).pos > old(self).pos
                    &&& old(self).remaining_segments() == seq![seg@]
                        + final(self).remaining_segments()
                },
            },
    {
        let ghost path = self.req.path@;
        let len = self.req.path.len();
        if self.pos == len {
            proof {
                assert(self.remaining_segments() =~= Seq::<Seq<u8>>::empty());
            }
            return None;
        }
        let e = self.find_slash_exec(self.pos);
        let seg = copy_range(&self.req.path, self.pos, e);
        let ghost oldpos = self.pos as int;
        if e < len {
            self.pos = e + 1;
        } else {
            self.pos = e;
        }
        self.popped = self.popped + 1;
        proof {
            lemma_find_slash_bounds(path, oldpos);
            assert(segments_from(path, oldpos) == seq![path.subrange(
                oldpos,
                find_slash(path, oldpos),
            )] + segments_from(path, after_segment(path, oldpos)));
        }
        Some(seg)
    }

    /// Returns the part of the path that the cursor has not consumed.
    pub fn remaining_path(&self) -> (r: Vec<u8>)
        requires
            self.wf(),
        ensures
            r@ == self.req.path@.subrange(self.pos as int, self.req.path@.len() as int),
    {
        copy_range(&self.req.path, self.pos, self.req.path.len())
    }

    /// Finds the next slash at or after `from`, executably.
    fn find_slash_exec(&self, from: usize) -> (r: usize)
        requires
            self.wf(),
            1 <= from <= self.req.path@.len(),
        ensures
            r == find_slash(self.req.path@, from as int),
            from <= r <= self.req.path@.len(),
    {
        find_slash_in(&self.req.path, from)
    }
}

/// Finds the first slash in `v` at or after `from`, executably.
pub fn find_slash_in(v: &Vec<u8>, from: usize) -> (r: usize)
    requires
        from <= v@.len(),
    ensures
        r == find_slash(v@, from as int),
        from <= r <= v@.len(),
{
    let ghost path = v@;
    let len = v.len();
    let mut i = from;
    while i < len && v[i] != 47
        invariant
            from <= i <= len,
            len == path.len(),
            path == v@,
            find_slash(path, from as int) == find_slash(path, i as int),
        decreases len - i,
    {
        proof {
            assert(find_slash(path, i as int) == find_slash(path, i as int + 1));
        }
        i += 1;
    }
    proof {
        lemma_find_slash_bounds(path, from as int);
    }
    i
}

/// Consuming `n` segments moves the cursor to `pos_after_n`, and what
/// remains there is exactly the original remainder with its first `n`
/// segments skipped.
pub proof fn lemma_segments_after_n(path: Seq<u8>, pos: int, n: int)
    requires
        0 <= pos <= path.len(),
        0 <= n <= segments_from(path, pos).len(),
    ensures
        0 <= crate::path::pos_after_n(path, pos, n) <= path.len(),
        segments_from(path, crate::path::pos_after_n(path, pos, n)) == segments_from(
            path,
            pos,
        ).skip(n),
    decreases n,
{
    if n == 0 {
        assert(segments_from(path, pos).skip(0) =~= segments_from(path, pos));
    } else {
        assert(segments_from(path, pos).len() > 0);
        assert(pos < path.len());
        lemma_find_slash_bounds(path, pos);
        let after = after_segment(path, pos);
        assert(segments_from(path, pos) == seq![path.subrange(pos, find_slash(path, pos))]
            + segments_from(path, after));
        lemma_segments_after_n(path, after, n - 1);
        assert(crate::path::pos_after_n(path, pos, n) == crate::path::pos_after_n(
            path,
            after,
            n - 1,
        ));
        assert(segments_from(path, pos).skip(n) =~= segments_from(path, after).skip(n - 1));
    }
}

/// Copies the bytes of `v` between `from` and `to`.
pub fn copy_range(v: &Vec<u8>, from: usize, to: usize) -> (r: Vec<u8>)
    requires
        from <= to <= v@.len(),
    ensures
        r@ == v@.subrange(from as int, to as int),
{
    let mut r: Vec<u8> = Vec::new();
    let mut i = from;
    while i < to
        invariant
            from <= i <= to <= v@.len(),
            r@ == v@.subrange(from as int, i as int),
        decreases to - i,
    {
        r.push(v[i]);
        proof {
            assert(r@ =~= v@.subrange(from as int, i as int + 1));
        }
        i += 1;
    }
    r
}

} // verus!
