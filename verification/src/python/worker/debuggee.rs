//! The debug device the Python program talks to: pauses it reports, and
//! the resume payload it reads back.
use vstd::prelude::*;

use crate::dap::types::PauseReason;
use crate::text::str_eq;

verus! {

/// Bytes of the shared buffer, control words and payload together.
pub const PYTHON_DEBUG_SAB_SIZE: u32 = 4096;

/// What `poll_read_ready` reports when no payload is pending.
pub const READ_READY_DEFAULT: usize = 8192;

/// Why the program paused, from the `reason` its pause report carries
/// (`None` when the report could not be read): `breakpoint`, or a step.
pub fn pause_reason(reason: Option<&str>) -> (r: PauseReason)
    ensures
        r == (if reason matches Some(s) && s@ == "breakpoint"@ {
            PauseReason::Breakpoint
        } else {
            PauseReason::Step
        }),
{
    match reason {
        Some(s) => if str_eq(s, "breakpoint") {
            PauseReason::Breakpoint
        } else {
            PauseReason::Step
        },
        None => PauseReason::Step,
    }
}

/// How many bytes a read of at most `max` bytes takes from offset `from`
/// of a payload of `len` bytes.
pub open spec fn chunk_len(len: nat, from: nat, max: nat) -> nat {
    if from >= len {
        0
    } else if max < len - from {
        max
    } else {
        (len - from) as nat
    }
}

/// The resume payload the main thread wrote, as the program reads it back
/// in chunks.
pub struct PendingResponse {
    pending: Option<Vec<u8>>,
    read_offset: usize,
}

impl PendingResponse {
    /// The payload not yet consumed, and how far it has been read.
    pub closed spec fn payload(self) -> Option<Seq<u8>> {
        match self.pending {
            Some(v) => Some(v@),
            None => None,
        }
    }

    /// How many bytes of the payload were read.
    pub closed spec fn offset(self) -> usize {
        self.read_offset
    }

    /// A reader holding `initial`, if the main thread had already written
    /// a payload.
    pub fn new(initial: Option<Vec<u8>>) -> (r: PendingResponse)
        ensures
            r.payload() == match initial {
                Some(v) => Some(v@),
                None => None::<Seq<u8>>,
            },
            r.offset() == 0,
    {
        PendingResponse { pending: initial, read_offset: 0 }
    }

    /// Takes a new payload, after the program reported a pause and the
    /// main thread answered.
    pub fn load(&mut self, payload: Vec<u8>)
        ensures
            final(self).payload() == Some(payload@),
            final(self).offset() == 0,
    {
        self.pending = Some(payload);
        self.read_offset = 0;
    }

    /// Reads at most `max` bytes.  With no payload, nothing; once the
    /// payload is exhausted, nothing, and the payload is dropped;
    /// otherwise the next bytes, as many as fit.
    pub fn read(&mut self, max: usize) -> (r: Vec<u8>)
        ensures
            read_step(*old(self), *final(self), max, r@),
    {
        let len = match &self.pending {
            None => {
                return Vec::new();
            },
            Some(data) => data.len(),
        };
        if self.read_offset >= len {
            self.pending = None;
            self.read_offset = 0;
            return Vec::new();
        }
        let to_read = if max < len - self.read_offset {
            max
        } else {
            len - self.read_offset
        };
        let mut out: Vec<u8> = Vec::new();
        match &self.pending {
            None => {},
            Some(data) => {
                let mut i: usize = 0;
                while i < to_read
                    invariant
                        data@.len() == len,
                        self.read_offset + to_read <= len,
                        i <= to_read,
                        out@ == data@.subrange(self.read_offset as int, self.read_offset + i),
                    decreases to_read - i,
                {
                    out.push(data[self.read_offset + i]);
                    i = i + 1;
                    assert(out@ =~= data@.subrange(self.read_offset as int, self.read_offset + i));
                }
            },
        }
        self.read_offset = self.read_offset + to_read;
        out
    }

    /// How many bytes a read could return now: what is left of the
    /// payload, or 8192 when there is none.
    pub fn ready_len(&self) -> (r: usize)
        ensures
            r == match self.payload() {
                Some(d) => if d.len() > self.offset() {
                    (d.len() - self.offset()) as usize
                } else {
                    0
                },
                None => READ_READY_DEFAULT,
            },
    {
        match &self.pending {
            Some(data) => data.len().saturating_sub(self.read_offset),
            None => READ_READY_DEFAULT,
        }
    }
}

/// What one `read` of at most `max` bytes does, from `before` to `after`,
/// returning `out`: with no payload, nothing; once the payload is
/// exhausted, nothing, and the payload is dropped; otherwise the next
/// bytes, as many as fit.
pub open spec fn read_step(before: PendingResponse, after: PendingResponse, max: usize, out: Seq<u8>) -> bool {
    match before.payload() {
        None => out.len() == 0 && after == before,
        Some(d) => if before.offset() >= d.len() {
            out.len() == 0 && after.payload() is None && after.offset() == 0
        } else {
            let n = chunk_len(d.len(), before.offset() as nat, max as nat);
            &&& out == d.subrange(before.offset() as int, before.offset() + n)
            &&& after.payload() == Some(d)
            &&& after.offset() == before.offset() + n
        },
    }
}

/// The bytes of successive reads, one after another.
pub open spec fn flatten(outs: Seq<Seq<u8>>) -> Seq<u8>
    decreases outs.len(),
{
    if outs.len() == 0 {
        Seq::empty()
    } else {
        outs[0] + flatten(outs.drop_first())
    }
}

/// The capacities of successive reads, added up.
pub open spec fn total(caps: Seq<usize>) -> int
    decreases caps.len(),
{
    if caps.len() == 0 {
        0
    } else {
        caps[0] + total(caps.drop_first())
    }
}

/// `states[i + 1]` is what the read of at most `caps[i]` bytes, which
/// returned `outs[i]`, leaves of `states[i]`.
pub open spec fn reads_from(states: Seq<PendingResponse>, caps: Seq<usize>, outs: Seq<Seq<u8>>) -> bool {
    &&& states.len() == caps.len() + 1
    &&& outs.len() == caps.len()
    &&& forall|i: int| 0 <= i < caps.len() ==> read_step(#[trigger] states[i], states[i + 1], caps[i], outs[i])
}

proof fn lemma_total_nonneg(caps: Seq<usize>)
    ensures
        total(caps) >= 0,
    decreases caps.len(),
{
    if caps.len() > 0 {
        lemma_total_nonneg(caps.drop_first());
    }
}

proof fn lemma_reads_after_drop(states: Seq<PendingResponse>, caps: Seq<usize>, outs: Seq<Seq<u8>>)
    requires
        reads_from(states, caps, outs),
        states[0].payload() is None,
    ensures
        flatten(outs) == Seq::<u8>::empty(),
    decreases caps.len(),
{
    if caps.len() > 0 {
        assert(read_step(states[0], states[1], caps[0], outs[0]));
        let s2 = states.drop_first();
        assert forall|i: int| 0 <= i < caps.drop_first().len() implies read_step(
            #[trigger] s2[i],
            s2[i + 1],
            caps.drop_first()[i],
            outs.drop_first()[i],
        ) by {
            assert(read_step(states[i + 1], states[i + 2], caps[i + 1], outs[i + 1]));
        }
        lemma_reads_after_drop(s2, caps.drop_first(), outs.drop_first());
        assert(outs[0] =~= Seq::<u8>::empty());
        assert(flatten(outs) =~= outs[0] + flatten(outs.drop_first()));
    }
}

/// Law of the debug device: reading a payload with buffers of any sizes
/// (each of at least one byte) gives back what was not read yet, whole and
/// in order, nothing lost or repeated, once the buffers add up to it;
/// reads past the end give nothing.
pub proof fn law_reads_return_payload(
    states: Seq<PendingResponse>,
    caps: Seq<usize>,
    outs: Seq<Seq<u8>>,
)
    requires
        reads_from(states, caps, outs),
        forall|i: int| 0 <= i < caps.len() ==> #[trigger] caps[i] >= 1,
        states[0].payload() is Some,
        states[0].offset() <= states[0].payload()->0.len(),
        total(caps) >= states[0].payload()->0.len() - states[0].offset(),
    ensures
        flatten(outs) == states[0].payload()->0.subrange(
            states[0].offset() as int,
            states[0].payload()->0.len() as int,
        ),
    decreases caps.len(),
{
    let d = states[0].payload()->0;
    let o = states[0].offset();
    if caps.len() == 0 {
        assert(d.subrange(o as int, d.len() as int) =~= Seq::<u8>::empty());
    } else {
        assert(read_step(states[0], states[1], caps[0], outs[0]));
        let s2 = states.drop_first();
        let c2 = caps.drop_first();
        let o2 = outs.drop_first();
        assert forall|i: int| 0 <= i < c2.len() implies read_step(#[trigger] s2[i], s2[i + 1], c2[i], o2[i]) by {
            assert(read_step(states[i + 1], states[i + 2], caps[i + 1], outs[i + 1]));
        }
        assert forall|i: int| 0 <= i < c2.len() implies #[trigger] c2[i] >= 1 by {
            assert(caps[i + 1] >= 1);
        }
        assert(flatten(outs) =~= outs[0] + flatten(o2));
        if o >= d.len() {
            lemma_reads_after_drop(s2, c2, o2);
            assert(d.subrange(o as int, d.len() as int) =~= Seq::<u8>::empty());
        } else {
            let n = chunk_len(d.len(), o as nat, caps[0] as nat);
            assert(caps[0] >= 1);
            assert(total(caps) == caps[0] + total(c2));
            assert(s2[0] == states[1]);
            assert(n == caps[0] || n == d.len() - o);
            assert(s2[0].payload() == Some(d) && s2[0].offset() == o + n);
            lemma_total_nonneg(c2);
            law_reads_return_payload(s2, c2, o2);
            assert(d.subrange(o as int, (o + n) as int) + d.subrange((o + n) as int, d.len() as int)
                =~= d.subrange(o as int, d.len() as int));
        }
    }
}

} // verus!
