use vstd::prelude::*;

verus! {

/// Most bytes handed to the transport in one write.
pub const CHUNK_LEN: usize = 32;

/// How far the sending of one message has come.
pub struct WriteView {
    pub total: nat,
    pub written: nat,
}

/// Progress of sending one message over a transport that takes at most
/// `CHUNK_LEN` bytes per write, and may take fewer than it is offered.
pub struct WriteProgress {
    total: usize,
    written: usize,
}

pub open spec fn min_nat(a: nat, b: nat) -> nat {
    if a <= b {
        a
    } else {
        b
    }
}

impl View for WriteProgress {
    type V = WriteView;

    closed spec fn view(&self) -> WriteView {
        WriteView { total: self.total as nat, written: self.written as nat }
    }
}

impl WriteProgress {
    pub closed spec fn wf(&self) -> bool {
        self.written <= self.total
    }

    /// The end, exclusive, of the next chunk to offer.
    pub open spec fn chunk_end(v: WriteView) -> nat {
        v.written + min_nat(CHUNK_LEN as nat, (v.total - v.written) as nat)
    }

    /// Nothing of a message of `total` bytes sent yet.
    pub fn new(total: usize) -> (r: WriteProgress)
        ensures
            r.wf(),
            r@ == (WriteView { total: total as nat, written: 0 }),
    {
        WriteProgress { total, written: 0 }
    }

    /// Bytes taken by the transport so far.
    pub fn written(&self) -> (r: usize)
        ensures
            r == self@.written,
    {
        self.written
    }

    /// Whether the whole message was taken.
    pub fn is_done(&self) -> (r: bool)
        requires
            self.wf(),
        ensures
            r == (self@.written == self@.total),
    {
        self.written == self.total
    }

    /// The byte range of the message to offer next: it starts where the
    /// transport stopped and holds at most `CHUNK_LEN` bytes.
    pub fn next_chunk(&self) -> (r: (usize, usize))
        requires
            self.wf(),
            self@.written < self@.total,
        ensures
            r.0 == self@.written,
            r.1 == Self::chunk_end(self@),
            r.0 < r.1 <= self@.total,
    {
        let remaining = self.total - self.written;
        if remaining > CHUNK_LEN {
            (self.written, self.written + CHUNK_LEN)
        } else {
            (self.written, self.total)
        }
    }

    /// Records that the transport took `accepted` bytes of the chunk it was
    /// offered.
    pub fn record(&mut self, accepted: usize)
        requires
            old(self).wf(),
            old(self)@.written < old(self)@.total,
            old(self)@.written + accepted <= Self::chunk_end(old(self)@),
        ensures
            final(self).wf(),
            final(self)@ == (WriteView { written: (old(self)@.written + accepted) as nat, ..old(self)@ }),
    {
        self.written = self.written + accepted;
    }
}

} // verus!
