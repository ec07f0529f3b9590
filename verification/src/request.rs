//! The request view the core matches against.
//!
//! The core is agnostic to the concrete HTTP stack: the driver hands it the
//! request metadata as plain values — the method, the raw path bytes of the
//! URI, and the header list as byte pairs in arrival order.

use vstd::prelude::*;

verus! {

use vstd::string::StrSliceExecFns;
use vstd::string::StringSliceAdditionalSpecFns;

/// The request method.
#[derive(Debug, Clone, Copy, PartialEq, Eq, Structural)]
pub enum Method {
    Get,
    Post,
    Put,
    Delete,
    Head,
    Patch,
    Options,
}

/// An immutable view of the incoming request's metadata.
pub struct Request {
    pub method: Method,
    /// The raw path of the request URI, always beginning with `/`.
    pub path: Vec<u8>,
    /// The request headers: `(name, value)` byte pairs in arrival order.
    /// Header names compare case-insensitively.
    pub headers: Vec<(Vec<u8>, Vec<u8>)>,
}

impl Request {
    /// A request is well formed when its path begins with a slash.
    pub open spec fn wf(&self) -> bool {
        self.path@.len() >= 1 && self.path@[0] == 47u8
    }

    /// Creates a request view from its parts.
    pub fn new(method: Method, path: Vec<u8>, headers: Vec<(Vec<u8>, Vec<u8>)>) -> (r:
        Request)
        requires
            path@.len() >= 1 && path@[0] == 47u8,
        ensures
            r.method == method,
            r.path == path,
            r.headers == headers,
            r.wf(),
    {
        Request { method, path, headers }
    }

    /// The value of the first header whose name equals `name`
    /// case-insensitively, or `None` when no header carries that name.
    pub fn header(&self, name: &str) -> (r: Option<&Vec<u8>>)
        ensures
            match r {
                Some(v) => v@ == header_value(self.headers.deep_view(), name.spec_bytes()),
                None => header_lookup(self.headers.deep_view(), name.spec_bytes()) is None,
            },
            (r is Some) == (header_lookup(self.headers.deep_view(), name.spec_bytes())
                is Some),
    {
        let target = name.as_bytes_vec();
        let mut i: usize = 0;
        while i < self.headers.len()
            invariant
                i <= self.headers.len(),
                target@ == name.spec_bytes(),
                forall|j: int|
                    0 <= j < i ==> !ascii_eq_ci(
                        self.headers.deep_view()[j].0,
                        name.spec_bytes(),
                    ),
            decreases self.headers.len() - i,
        {
            if bytes_eq_ci(&self.headers[i].0, &target) {
                proof {
                    lemma_header_lookup_first(
                        self.headers.deep_view(),
                        name.spec_bytes(),
                        i as int,
                    );
                }
                return Some(&self.headers[i].1);
            }
            i += 1;
        }
        proof {
            lemma_header_lookup_absent(self.headers.deep_view(), name.spec_bytes());
        }
        None
    }
}

/// Lowercases one ASCII byte.
pub open spec fn lower_byte(b: u8) -> u8 {
    if 65 <= b <= 90 {
        (b + 32) as u8
    } else {
        b
    }
}

/// Case-insensitive equality of two ASCII byte strings.
pub open spec fn ascii_eq_ci(a: Seq<u8>, b: Seq<u8>) -> bool {
    a.len() == b.len() && forall|i: int| 0 <= i < a.len() ==> lower_byte(a[i]) == lower_byte(b[i])
}

/// The index of the first header whose name equals `name`
/// case-insensitively.
pub open spec fn header_lookup(headers: Seq<(Seq<u8>, Seq<u8>)>, name: Seq<u8>) -> Option<
    int,
>
    decreases headers.len(),
{
    if headers.len() == 0 {
        None
    } else if ascii_eq_ci(headers[0].0, name) {
        Some(0)
    } else {
        match header_lookup(headers.drop_first(), name) {
            Some(i) => Some(i + 1),
            None => None,
        }
    }
}

/// The value of the first header named `name`, when one exists.
pub open spec fn header_value(headers: Seq<(Seq<u8>, Seq<u8>)>, name: Seq<u8>) -> Seq<u8> {
    match header_lookup(headers, name) {
        Some(i) => headers[i].1,
        None => Seq::empty(),
    }
}

proof fn lemma_header_lookup_first(headers: Seq<(Seq<u8>, Seq<u8>)>, name: Seq<u8>, i: int)
    requires
        0 <= i < headers.len(),
        ascii_eq_ci(headers[i].0, name),
        forall|j: int| 0 <= j < i ==> !ascii_eq_ci(headers[j].0, name),
    ensures
        header_lookup(headers, name) == Some(i),
    decreases i,
{
    if i == 0 {
    } else {
        assert(!ascii_eq_ci(headers[0].0, name));
        lemma_header_lookup_first(headers.drop_first(), name, i - 1);
    }
}

proof fn lemma_header_lookup_absent(headers: Seq<(Seq<u8>, Seq<u8>)>, name: Seq<u8>)
    requires
        forall|j: int| 0 <= j < headers.len() ==> !ascii_eq_ci(headers[j].0, name),
    ensures
        header_lookup(headers, name) is None,
    decreases headers.len(),
{
    if headers.len() > 0 {
        lemma_header_lookup_absent(headers.drop_first(), name);
    }
}

/// Lowercases one ASCII byte, executably.
pub fn lower_byte_exec(b: u8) -> (r: u8)
    ensures
        r == lower_byte(b),
{
    if 65 <= b && b <= 90 {
        b + 32
    } else {
        b
    }
}

/// Compares two byte strings case-insensitively (ASCII).
pub fn bytes_eq_ci(a: &Vec<u8>, b: &Vec<u8>) -> (r: bool)
    ensures
        r == ascii_eq_ci(a@, b@),
{
    if a.len() != b.len() {
        return false;
    }
    let mut i: usize = 0;
    while i < a.len()
        invariant
            i <= a.len(),
            a.len() == b.len(),
            forall|j: int| 0 <= j < i ==> lower_byte(a@[j]) == lower_byte(b@[j]),
        decreases a.len() - i,
    {
        if lower_byte_exec(a[i]) != lower_byte_exec(b[i]) {
            return false;
        }
        i += 1;
    }
    true
}

/// Compares two byte strings for exact equality.
pub fn bytes_eq(a: &Vec<u8>, b: &Vec<u8>) -> (r: bool)
    ensures
        r == (a@ == b@),
{
    if a.len() != b.len() {
        return false;
    }
    let mut i: usize = 0;
    while i < a.len()
        invariant
            i <= a.len(),
            a.len() == b.len(),
            forall|j: int| 0 <= j < i ==> a@[j] == b@[j],
        decreases a.len() - i,
    {
        if a[i] != b[i] {
            return false;
        }
        i += 1;
    }
    proof {
        assert(a@ =~= b@);
    }
    true
}

} // verus!
