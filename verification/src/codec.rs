//! The delimited framing codec: an append-only input buffer is scanned for
//! the delimiter byte; the bytes before it form one frame, the bytes after
//! stay buffered for the next scan. Frames are parsed into the generic
//! field-set and handed to the envelope model; encoding serializes an
//! envelope and appends the delimiter.

use crate::decode::{decode, spec_decode};
use crate::envelope::{spec_encode, Envelope, EnvelopeV, ProtocolError};
use crate::json::{parse_fields, parsed_fields, render_fields, rendered_fields};
use crate::value::fields_view;
use crate::DELIMITER;
use vstd::prelude::*;

verus! {

/// Index of the first delimiter byte in the buffer, if any.
pub open spec fn find_delim(b: Seq<u8>) -> Option<int>
    decreases b.len(),
{
    if b.len() == 0 {
        None
    } else if b[0] == DELIMITER {
        Some(0)
    } else {
        match find_delim(b.subrange(1, b.len() as int)) {
            Some(i) => Some(i + 1),
            None => None,
        }
    }
}

pub proof fn lemma_find_delim_at(b: Seq<u8>, i: int)
    requires
        0 <= i < b.len(),
        forall|j: int| 0 <= j < i ==> b[j] != DELIMITER,
        b[i] == DELIMITER,
    ensures
        find_delim(b) == Some(i),
    decreases i,
{
    if i == 0 {
    } else {
        let t = b.subrange(1, b.len() as int);
        assert(forall|j: int| 0 <= j < i - 1 ==> t[j] == b[j + 1]);
        lemma_find_delim_at(t, i - 1);
    }
}

pub proof fn lemma_find_delim_none(b: Seq<u8>)
    requires
        forall|j: int| 0 <= j < b.len() ==> b[j] != DELIMITER,
    ensures
        find_delim(b) is None,
    decreases b.len(),
{
    if b.len() > 0 {
        lemma_find_delim_none(b.subrange(1, b.len() as int));
    }
}

/// The accumulate-and-scan state over one connection's inbound bytes.
pub struct FrameBuffer {
    pub buf: Vec<u8>,
    /// Cap on bytes buffered without a delimiter; beyond it the connection
    /// is torn down with `FrameTooLarge` rather than growing without bound.
    pub max_frame: usize,
}

impl FrameBuffer {
    pub fn new(max_frame: usize) -> (r: Self)
        ensures
            r.buf@ == Seq::<u8>::empty(),
            r.max_frame == max_frame,
    {
        FrameBuffer { buf: Vec::new(), max_frame }
    }

    /// Appends one read's worth of bytes; frames may arrive split or many
    /// per read, so this never interprets anything by itself.
    pub fn feed(&mut self, data: Vec<u8>)
        ensures
            final(self).buf@ == old(self).buf@ + data@,
            final(self).max_frame == old(self).max_frame,
    {
        let mut rest = data;
        let mut i: usize = 0;
        while i < rest.len()
            invariant
                i <= rest.len(),
                rest@ == data@,
                self.buf@ == old(self).buf@ + data@.subrange(0, i as int),
                self.max_frame == old(self).max_frame,
            decreases rest.len() - i,
        {
            let b = rest[i];
            self.buf.push(b);
            proof {
                assert(self.buf@ =~= old(self).buf@ + data@.subrange(0, i as int + 1));
            }
            i = i + 1;
        }
        proof {
            assert(data@.subrange(0, data@.len() as int) =~= data@);
        }
    }

    /// Scans for the next complete frame. Returns the bytes before the first
    /// delimiter and consumes them together with the delimiter; with no
    /// delimiter buffered, reports `FrameTooLarge` past the cap and `None`
    /// otherwise, leaving the buffer unchanged.
    pub fn next_frame(&mut self) -> (r: Result<Option<Vec<u8>>, ProtocolError>)
        ensures
            final(self).max_frame == old(self).max_frame,
            match find_delim(old(self).buf@) {
                Some(i) => r matches Ok(f) && f matches Some(frame) && frame@ == old(
                    self,
                ).buf@.subrange(0, i) && final(self).buf@ == old(self).buf@.subrange(
                    i + 1,
                    old(self).buf@.len() as int,
                ),
                None => final(self).buf@ == old(self).buf@ && (if old(self).buf@.len() > old(
                    self,
                ).max_frame {
                    r == Err::<Option<Vec<u8>>, ProtocolError>(ProtocolError::FrameTooLarge)
                } else {
                    r == Ok::<Option<Vec<u8>>, ProtocolError>(None)
                }),
            },
    {
        let ghost whole = self.buf@;
        let mut i: usize = 0;
        let mut found = false;
        while i < self.buf.len() && !found
            invariant
                i <= self.buf@.len(),
                self.buf@ == whole,
                self.max_frame == old(self).max_frame,
                forall|j: int| 0 <= j < i ==> whole[j] != DELIMITER,
                found ==> i < whole.len() && whole[i as int] == DELIMITER,
                !found ==> forall|j: int| 0 <= j < i ==> whole[j] != DELIMITER,
            decreases self.buf.len() - i + (if found {
                0int
            } else {
                1int
            }),
        {
            if self.buf[i] == DELIMITER {
                found = true;
            } else {
                i = i + 1;
            }
        }
        if !found {
            proof {
                lemma_find_delim_none(whole);
            }
            if self.buf.len() > self.max_frame {
                return Err(ProtocolError::FrameTooLarge);
            }
            return Ok(None);
        }
        proof {
            lemma_find_delim_at(whole, i as int);
        }
        let mut frame: Vec<u8> = Vec::new();
        let mut j: usize = 0;
        while j < i
            invariant
                j <= i,
                i < self.buf@.len(),
                self.buf@ == whole,
                self.max_frame == old(self).max_frame,
                frame@ == whole.subrange(0, j as int),
            decreases i - j,
        {
            let b = self.buf[j];
            frame.push(b);
            proof {
                assert(frame@ =~= whole.subrange(0, j as int + 1));
            }
            j = j + 1;
        }
        let mut restb: Vec<u8> = Vec::new();
        let mut k: usize = i + 1;
        while k < self.buf.len()
            invariant
                i < k <= self.buf@.len() || k == i + 1,
                k >= i + 1,
                k <= self.buf@.len() || k == i + 1,
                self.buf@ == whole,
                self.max_frame == old(self).max_frame,
                restb@ == whole.subrange(i + 1, k as int),
            decreases self.buf.len() - k,
        {
            let b = self.buf[k];
            restb.push(b);
            proof {
                assert(restb@ =~= whole.subrange(i + 1, k as int + 1));
            }
            k = k + 1;
        }
        proof {
            if whole.len() == i + 1 {
                assert(restb@ =~= whole.subrange(i + 1, whole.len() as int));
            }
        }
        self.buf = restb;
        Ok(Some(frame))
    }
}

/// Parses one frame's bytes: unparsable bytes are `MalformedFrame` (the rest
/// of the stream is unaffected), a parsed document goes through envelope
/// discrimination.
pub fn decode_frame(bytes: Vec<u8>) -> (r: Result<Envelope, ProtocolError>)
    ensures
        match parsed_fields(bytes@) {
            None => r == Err::<Envelope, ProtocolError>(ProtocolError::MalformedFrame),
            Some(fv) => match r {
                Ok(env) => spec_decode(fv) == Ok::<EnvelopeV, ProtocolError>(env@),
                Err(er) => spec_decode(fv) == Err::<EnvelopeV, ProtocolError>(er),
            },
        },
{
    match parse_fields(&bytes) {
        None => Err(ProtocolError::MalformedFrame),
        Some(fields) => decode(fields),
    }
}

/// Serializes one envelope and appends the delimiter: one frame, written as
/// one unit. The rendered document cannot contain the delimiter byte, so the
/// frame holds exactly one delimiter, at its end.
pub fn encode_frame(env: Envelope) -> (r: Vec<u8>)
    ensures
        r@ == rendered_fields(spec_encode(env@)) + seq![DELIMITER],
        r@.len() > 0,
        r@[r@.len() - 1] == DELIMITER,
        forall|i: int| 0 <= i < r@.len() - 1 ==> r@[i] != DELIMITER,
{
    let fields = crate::envelope::encode(env);
    let mut out = render_fields(&fields);
    out.push(DELIMITER);
    proof {
        assert(out@ =~= rendered_fields(spec_encode(env@)) + seq![DELIMITER]);
    }
    out
}

/// A live connection: the framing codec state over its raw byte stream.
pub struct ClientConnection {
    pub inner: FrameBuffer,
}

impl ClientConnection {
    pub fn new(io: FrameBuffer) -> (c: Self)
        ensures
            c.inner == io,
    {
        ClientConnection { inner: io }
    }

    pub fn into_inner(self) -> (r: FrameBuffer)
        ensures
            r == self.inner,
    {
        self.inner
    }
}

} // verus!
