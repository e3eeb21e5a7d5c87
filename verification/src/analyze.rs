//! The policy and the filter that applies it to a client's byte stream.
//!
//! The filter walks a buffer request by request. A request that the policy
//! allows goes to the accepted stream, one that it denies to the rejected
//! stream, each with its header and byte for byte. Where the buffer stops
//! framing, everything that is left is rejected.

use crate::request::{body_fits, decode, Decoded};
use crate::wire::{
    frame_len, frame_one, header_len, is_big_request, is_request, lemma_frame_request_then_rest,
    lemma_framed_prefix_is_request, FrameError, Opcode, Request, BIG_HEADER_LEN, HEADER_LEN,
};
use vstd::prelude::*;

verus! {

/// The verdict on one request.
#[derive(Clone, Copy, Debug, PartialEq, Eq, Structural)]
pub enum Outcome {
    Allowed,
    Denied,
}

/// Why the analysis of a buffer was given up.
#[derive(Clone, Copy, Debug, PartialEq, Eq, Structural)]
pub enum ParseError {
    /// A message could not be parsed.
    ParseFail,
    /// A header declares more bytes than the buffer holds.
    InconsistentLength,
}

impl ParseError {
    /// A short text for logs.
    pub fn description(&self) -> (s: &'static str)
        ensures
            s@ == match *self {
                ParseError::ParseFail => "Error parsing X message"@,
                ParseError::InconsistentLength => "Message length inconsistent"@,
            },
    {
        match self {
            ParseError::ParseFail => "Error parsing X message",
            ParseError::InconsistentLength => "Message length inconsistent",
        }
    }
}

/// One verdict for each recognized opcode. Requests with any other opcode are
/// always allowed, and so are requests whose body does not decode.
#[derive(Clone, Copy, Debug, PartialEq, Eq, Structural)]
pub struct Policy {
    pub change_window_attributes: Outcome,
    pub intern_atom: Outcome,
    pub change_property: Outcome,
    pub get_property: Outcome,
    pub grab_button: Outcome,
    pub query_extension: Outcome,
}

impl Policy {
    /// The verdict that this policy holds for an opcode.
    pub open spec fn rule(self, op: Opcode) -> Outcome {
        match op {
            Opcode::ChangeWindowAttributes => self.change_window_attributes,
            Opcode::InternAtom => self.intern_atom,
            Opcode::ChangeProperty => self.change_property,
            Opcode::GetProperty => self.get_property,
            Opcode::GrabButton => self.grab_button,
            Opcode::QueryExtension => self.query_extension,
        }
    }

    /// The policy that allows every request.
    pub open spec fn permissive_spec() -> Policy {
        Policy {
            change_window_attributes: Outcome::Allowed,
            intern_atom: Outcome::Allowed,
            change_property: Outcome::Allowed,
            get_property: Outcome::Allowed,
            grab_button: Outcome::Allowed,
            query_extension: Outcome::Allowed,
        }
    }

    /// The baseline policy: every request is allowed.
    pub fn permissive() -> (p: Policy)
        ensures
            p == Policy::permissive_spec(),
    {
        Policy {
            change_window_attributes: Outcome::Allowed,
            intern_atom: Outcome::Allowed,
            change_property: Outcome::Allowed,
            get_property: Outcome::Allowed,
            grab_button: Outcome::Allowed,
            query_extension: Outcome::Allowed,
        }
    }

    /// The same policy with the verdict for one opcode replaced.
    pub fn with_rule(self, op: Opcode, verdict: Outcome) -> (p: Policy)
        ensures
            p.rule(op) == verdict,
            forall|other: Opcode| other != op ==> p.rule(other) == self.rule(other),
    {
        let mut p = self;
        match op {
            Opcode::ChangeWindowAttributes => {
                p.change_window_attributes = verdict;
            },
            Opcode::InternAtom => {
                p.intern_atom = verdict;
            },
            Opcode::ChangeProperty => {
                p.change_property = verdict;
            },
            Opcode::GetProperty => {
                p.get_property = verdict;
            },
            Opcode::GrabButton => {
                p.grab_button = verdict;
            },
            Opcode::QueryExtension => {
                p.query_extension = verdict;
            },
        }
        p
    }

    /// The verdict on a decoded request.
    pub fn verdict(&self, request: &Decoded) -> (o: Outcome)
        ensures
            o == match request.opcode() {
                Some(op) => self.rule(op),
                None => Outcome::Allowed,
            },
    {
        match request {
            Decoded::ChangeWindowAttributes => self.change_window_attributes,
            Decoded::InternAtom(_) => self.intern_atom,
            Decoded::ChangeProperty(_) => self.change_property,
            Decoded::GetProperty(_) => self.get_property,
            Decoded::GrabButton(_) => self.grab_button,
            Decoded::QueryExtension(_) => self.query_extension,
            Decoded::Opaque => Outcome::Allowed,
        }
    }
}

/// The verdict on a request with this opcode and body.
pub open spec fn decide_spec(policy: Policy, opcode: u8, body: Seq<u8>) -> Outcome {
    match Opcode::recognized(opcode) {
        None => Outcome::Allowed,
        Some(op) => if body_fits(op, body) {
            policy.rule(op)
        } else {
            Outcome::Allowed
        },
    }
}

/// The verdict on a request given as its bytes, header included.
pub open spec fn request_verdict(policy: Policy, r: Seq<u8>) -> Outcome
    recommends
        is_request(r),
{
    decide_spec(policy, r[0], r.subrange(header_len(r), r.len() as int))
}

/// Decides on one framed request: decodes it where the opcode is recognized
/// and asks the policy. A body that does not decode is no reason to deny.
pub fn analyze_request_opcode(policy: &Policy, header: &Request) -> (o: Outcome)
    ensures
        o == decide_spec(*policy, header.opcode, header.data@),
{
    match decode(header) {
        Some(request) => policy.verdict(&request),
        None => Outcome::Allowed,
    }
}

/// An opcode that is not recognized is allowed, whatever the policy.
pub proof fn lemma_unrecognized_opcode_allowed(policy: Policy, opcode: u8, body: Seq<u8>)
    requires
        Opcode::recognized(opcode) is None,
    ensures
        decide_spec(policy, opcode, body) == Outcome::Allowed,
{
}

/// A recognized opcode whose body does not decode is allowed, whatever the
/// policy.
pub proof fn lemma_decode_failure_allowed(policy: Policy, op: Opcode, body: Seq<u8>)
    requires
        !body_fits(op, body),
    ensures
        decide_spec(policy, op.code(), body) == Outcome::Allowed,
{
}

/// The accepted and the rejected stream that a buffer is split into.
pub open spec fn filter_spec(policy: Policy, b: Seq<u8>) -> (Seq<u8>, Seq<u8>)
    decreases b.len(),
{
    match frame_len(b) {
        Ok(n) => if 0 < n <= b.len() {
            let rest = filter_spec(policy, b.skip(n));
            match request_verdict(policy, b.take(n)) {
                Outcome::Allowed => (b.take(n) + rest.0, rest.1),
                Outcome::Denied => (rest.0, b.take(n) + rest.1),
            }
        } else {
            (Seq::empty(), b)
        },
        Err(_) => (Seq::empty(), b),
    }
}

/// Filters a buffer of requests under a policy. Returns the accepted bytes
/// and the rejected bytes.
pub fn filter_with_policy(policy: &Policy, buffer: &[u8]) -> (r: (Vec<u8>, Vec<u8>))
    ensures
        (r.0@, r.1@) == filter_spec(*policy, buffer@),
        r.0@.len() + r.1@.len() == buffer@.len(),
{
    let mut out_accept_buff: Vec<u8> = Vec::with_capacity(buffer.len());
    let mut out_reject_buff: Vec<u8> = Vec::with_capacity(buffer.len());
    let mut work_buffer: &[u8] = buffer;
    loop
        invariant
            filter_spec(*policy, buffer@).0 == out_accept_buff@ + filter_spec(
                *policy,
                work_buffer@,
            ).0,
            filter_spec(*policy, buffer@).1 == out_reject_buff@ + filter_spec(
                *policy,
                work_buffer@,
            ).1,
            out_accept_buff@.len() + out_reject_buff@.len() + work_buffer@.len() == buffer@.len(),
        decreases work_buffer@.len(),
    {
        let ghost before = work_buffer@;
        let ghost accepted = out_accept_buff@;
        let ghost rejected = out_reject_buff@;
        match frame_one(work_buffer) {
            Err(_) => {
                out_reject_buff.extend_from_slice(work_buffer);
                proof {
                    assert(accepted + Seq::<u8>::empty() =~= accepted);
                }
                return (out_accept_buff, out_reject_buff);
            },
            Ok(framed) => {
                proof {
                    lemma_framed_prefix_is_request(before);
                }
                let ghost rest = filter_spec(*policy, framed.remaining@);
                match analyze_request_opcode(policy, &framed.request) {
                    Outcome::Allowed => {
                        out_accept_buff.extend_from_slice(framed.raw);
                        proof {
                            assert(accepted + (framed.raw@ + rest.0) =~= (accepted + framed.raw@)
                                + rest.0);
                        }
                    },
                    Outcome::Denied => {
                        out_reject_buff.extend_from_slice(framed.raw);
                        proof {
                            assert(rejected + (framed.raw@ + rest.1) =~= (rejected + framed.raw@)
                                + rest.1);
                        }
                    },
                }
                work_buffer = framed.remaining;
            },
        }
    }
}

/// Filters a buffer of requests under the baseline policy. Returns two
/// buffers, one with the accepted and one with the rejected requests.
pub fn filter_buffer(buffer: &[u8]) -> (r: (Vec<u8>, Vec<u8>))
    ensures
        (r.0@, r.1@) == filter_spec(Policy::permissive_spec(), buffer@),
        r.0@ + r.1@ == buffer@,
{
    let policy = Policy::permissive();
    proof {
        lemma_permissive_filter_splits(buffer@);
    }
    filter_with_policy(&policy, buffer)
}

/// Under the baseline policy the accepted stream is the part of the buffer
/// that frames, and the rejected stream is what follows it.
pub proof fn lemma_permissive_filter_splits(b: Seq<u8>)
    ensures
        filter_spec(Policy::permissive_spec(), b).0 + filter_spec(Policy::permissive_spec(), b).1
            == b,
    decreases b.len(),
{
    let policy = Policy::permissive_spec();
    let out = filter_spec(policy, b);
    match frame_len(b) {
        Ok(n) => {
            if 0 < n <= b.len() {
                let rest = filter_spec(policy, b.skip(n));
                lemma_permissive_filter_splits(b.skip(n));
                assert(request_verdict(policy, b.take(n)) == Outcome::Allowed);
                assert((b.take(n) + rest.0) + rest.1 =~= b.take(n) + (rest.0 + rest.1));
                assert(b.take(n) + b.skip(n) =~= b);
            } else {
                assert(out.0 + out.1 =~= b);
            }
        },
        Err(_) => {
            assert(out.0 + out.1 =~= b);
        },
    }
}

/// `b` can be dealt out, byte by byte and in order, into `a` and `r`.
pub open spec fn is_interleaving(a: Seq<u8>, r: Seq<u8>, b: Seq<u8>) -> bool
    decreases b.len(),
{
    if b.len() == 0 {
        a.len() == 0 && r.len() == 0
    } else {
        ||| a.len() > 0 && a[0] == b[0] && is_interleaving(a.skip(1), r, b.skip(1))
        ||| r.len() > 0 && r[0] == b[0] && is_interleaving(a, r.skip(1), b.skip(1))
    }
}

/// A run of bytes in front of a buffer may go, whole, in front of the first
/// of two streams that the buffer is dealt into.
proof fn lemma_interleaving_prepend_first(c: Seq<u8>, a: Seq<u8>, r: Seq<u8>, b: Seq<u8>)
    requires
        is_interleaving(a, r, b),
    ensures
        is_interleaving(c + a, r, c + b),
    decreases c.len(),
{
    if c.len() == 0 {
        assert(c + a =~= a);
        assert(c + b =~= b);
    } else {
        lemma_interleaving_prepend_first(c.skip(1), a, r, b);
        assert((c + a).skip(1) =~= c.skip(1) + a);
        assert((c + b).skip(1) =~= c.skip(1) + b);
    }
}

/// A run of bytes in front of a buffer may go, whole, in front of the second
/// of two streams that the buffer is dealt into.
proof fn lemma_interleaving_prepend_second(c: Seq<u8>, a: Seq<u8>, r: Seq<u8>, b: Seq<u8>)
    requires
        is_interleaving(a, r, b),
    ensures
        is_interleaving(a, c + r, c + b),
    decreases c.len(),
{
    if c.len() == 0 {
        assert(c + r =~= r);
        assert(c + b =~= b);
    } else {
        lemma_interleaving_prepend_second(c.skip(1), a, r, b);
        assert((c + r).skip(1) =~= c.skip(1) + r);
        assert((c + b).skip(1) =~= c.skip(1) + b);
    }
}

/// The filter loses no byte and reorders none: the input can be dealt out in
/// order into the accepted and the rejected stream, so their lengths add up
/// to the input's.
pub proof fn lemma_filter_conserves_bytes(policy: Policy, b: Seq<u8>)
    ensures
        is_interleaving(filter_spec(policy, b).0, filter_spec(policy, b).1, b),
        filter_spec(policy, b).0.len() + filter_spec(policy, b).1.len() == b.len(),
    decreases b.len(),
{
    let empty = Seq::<u8>::empty();
    if b.len() == 0 {
        assert(filter_spec(policy, b) == (empty, b));
    } else {
        let n = match frame_len(b) {
            Ok(n) => if 0 < n <= b.len() {
                n
            } else {
                0
            },
            Err(_) => 0,
        };
        if n == 0 {
            assert(filter_spec(policy, b) == (empty, b));
            assert(is_interleaving(empty, empty, empty));
            lemma_interleaving_prepend_second(b, empty, empty, empty);
            assert(b + empty =~= b);
        } else {
            let rest = filter_spec(policy, b.skip(n));
            lemma_filter_conserves_bytes(policy, b.skip(n));
            assert(b.take(n) + b.skip(n) =~= b);
            match request_verdict(policy, b.take(n)) {
                Outcome::Allowed => {
                    lemma_interleaving_prepend_first(b.take(n), rest.0, rest.1, b.skip(n));
                },
                Outcome::Denied => {
                    lemma_interleaving_prepend_second(b.take(n), rest.0, rest.1, b.skip(n));
                },
            }
        }
    }
}

/// Filtering what the filter accepted changes nothing: all of it is accepted
/// again and nothing is rejected.
pub proof fn lemma_filter_accepted_is_stable(policy: Policy, b: Seq<u8>)
    ensures
        filter_spec(policy, filter_spec(policy, b).0) == (
            filter_spec(policy, b).0,
            Seq::<u8>::empty(),
        ),
    decreases b.len(),
{
    let empty = Seq::<u8>::empty();
    let n = match frame_len(b) {
        Ok(n) => if 0 < n <= b.len() {
            n
        } else {
            0
        },
        Err(_) => 0,
    };
    if n == 0 {
        assert(filter_spec(policy, b).0 == empty);
        assert(filter_spec(policy, empty) == (empty, empty));
    } else {
        let first = b.take(n);
        let rest = filter_spec(policy, b.skip(n));
        lemma_filter_accepted_is_stable(policy, b.skip(n));
        match request_verdict(policy, first) {
            Outcome::Allowed => {
                let a = first + rest.0;
                lemma_framed_prefix_is_request(b);
                lemma_frame_request_then_rest(first, rest.0);
                assert(a.take(n) == first);
                assert(a.skip(n) == rest.0);
                assert(filter_spec(policy, a) == (a, empty));
            },
            Outcome::Denied => {},
        }
    }
}

/// Whether a complete header stands at the front of `b` and declares more
/// bytes than `b` holds.
pub open spec fn declares_too_much(b: Seq<u8>) -> bool {
    &&& frame_len(b) == Err::<int, FrameError>(FrameError::Incomplete)
    &&& b.len() >= 4
    &&& b.len() >= header_len(b)
}

/// What the analysis of a buffer reports.
pub open spec fn analyze_spec(b: Seq<u8>) -> Result<Outcome, ParseError>
    decreases b.len(),
{
    match frame_len(b) {
        Ok(n) => if 0 < n <= b.len() {
            analyze_spec(b.skip(n))
        } else {
            Ok(Outcome::Allowed)
        },
        Err(FrameError::Malformed) => Err(ParseError::ParseFail),
        Err(FrameError::Incomplete) => if declares_too_much(b) {
            Err(ParseError::InconsistentLength)
        } else {
            Ok(Outcome::Allowed)
        },
    }
}

/// Walks a recorded buffer request by request, deciding on each under the
/// baseline policy. The walk ends where the buffer stops framing. It is an
/// error when it ends at a malformed header, or at one that declares more
/// than is there; what is too short for a header is passed over.
pub fn analyze_buffer(buffer: &[u8]) -> (r: Result<Outcome, ParseError>)
    ensures
        r == analyze_spec(buffer@),
{
    let policy = Policy::permissive();
    let mut work_buffer: &[u8] = buffer;
    loop
        invariant
            analyze_spec(work_buffer@) == analyze_spec(buffer@),
        decreases work_buffer@.len(),
    {
        let size: usize = work_buffer.len();
        match frame_one(work_buffer) {
            Ok(framed) => {
                let _decision = analyze_request_opcode(&policy, &framed.request);
                work_buffer = framed.remaining;
            },
            Err(FrameError::Malformed) => {
                return Err(ParseError::ParseFail);
            },
            Err(FrameError::Incomplete) => {
                let header_present: bool = size >= BIG_HEADER_LEN || (size >= HEADER_LEN && (
                work_buffer[2] != 0 || work_buffer[3] != 0));
                proof {
                    if size >= 4 {
                        let field = work_buffer@.subrange(2, 4);
                        assert(field[0] == work_buffer@[2] && field[1] == work_buffer@[3]);
                        assert(is_big_request(work_buffer@) <==> work_buffer@[2] == 0
                            && work_buffer@[3] == 0);
                    }
                }
                if header_present {
                    return Err(ParseError::InconsistentLength);
                }
                return Ok(Outcome::Allowed);
            },
        }
    }
}

} // verus!
