//! The output sink: an in-memory stand-in for the terminal device.
//!
//! Bytes written to the sink are queued. A flush transmits the whole queue at
//! once, in order; only transmitted bytes can be taken out. A driver forwards
//! what it takes out to the real device; a test inspects it.

use vstd::prelude::*;

verus! {

/// A sink that keeps what is written to it in memory.
pub struct FakeOut {
    queue: Vec<u8>,
    sent: Vec<u8>,
}

impl FakeOut {
    /// The bytes written since the last flush, oldest first.
    pub closed spec fn queued(&self) -> Seq<u8> {
        self.queue@
    }

    /// The bytes transmitted and not yet taken out, oldest first.
    pub closed spec fn contents(&self) -> Seq<u8> {
        self.sent@
    }

    /// Appends `buf` to the queue and reports how many bytes were accepted:
    /// all of them. Nothing is transmitted.
    pub fn write(&mut self, buf: &[u8]) -> (r: Result<usize, std::io::Error>)
        ensures
            r == Ok::<usize, std::io::Error>(buf@.len() as usize),
            final(self).queued() == old(self).queued() + buf@,
            final(self).contents() == old(self).contents(),
    {
        self.queue.extend_from_slice(buf);
        Ok(buf.len())
    }

    /// Transmits the queue: its bytes move, in order, behind those already
    /// transmitted, and the queue is left empty.
    pub fn flush(&mut self) -> (r: Result<(), std::io::Error>)
        ensures
            r is Ok,
            final(self).queued() == Seq::<u8>::empty(),
            final(self).contents() == old(self).contents() + old(self).queued(),
    {
        self.sent.append(&mut self.queue);
        Ok(())
    }
}

/// A fresh sink: nothing queued, nothing transmitted.
pub fn out() -> (sink: FakeOut)
    ensures
        sink.queued() == Seq::<u8>::empty(),
        sink.contents() == Seq::<u8>::empty(),
{
    FakeOut { queue: Vec::new(), sent: Vec::new() }
}

/// Takes the transmitted bytes out of the sink and returns them. The queue is
/// left as it is: what was not flushed is not handed out.
pub fn take_out_contents(sink: &mut FakeOut) -> (taken: Vec<u8>)
    ensures
        taken@ == old(sink).contents(),
        final(sink).contents() == Seq::<u8>::empty(),
        final(sink).queued() == old(sink).queued(),
{
    let mut taken: Vec<u8> = Vec::new();
    taken.append(&mut sink.sent);
    taken
}

} // verus!
