//! The byte-oriented sink capability, and two concrete sinks: one that
//! accepts everything and one whose replies follow a prescribed script.

use vstd::prelude::*;
use vstd::slice::slice_to_vec;

use crate::error::IoError;

verus! {

/// The reply a sink gives to the next write, read off the front of its plan:
/// `None` means the write is accepted, `Some(e)` means it is refused with the
/// structured error `e`. A sink whose plan is exhausted accepts everything.
pub open spec fn plan_head(plan: Seq<Option<IoError>>) -> Option<IoError> {
    if plan.len() > 0 {
        plan[0]
    } else {
        None
    }
}

/// The plan that remains after one write has consumed its reply.
pub open spec fn plan_tail(plan: Seq<Option<IoError>>) -> Seq<Option<IoError>> {
    if plan.len() > 0 {
        plan.drop_first()
    } else {
        plan
    }
}

/// A destination that accepts whole byte chunks and may refuse one with a
/// structured error.
///
/// A sink's behaviour is predictable from two pieces of abstract state:
/// `content()` is everything it has accepted so far, and `plan()` lists the
/// replies it will give to upcoming writes, in order (see [`plan_head`]).
/// Each write consumes one reply; an accepted write appends exactly its bytes
/// to the content, while the content after a refused write is left open, so a
/// refusal may discard or keep any part of the chunk.
pub trait ByteSink: Sized {
    /// The bytes the sink has accepted so far, in order.
    spec fn content(&self) -> Seq<u8>;

    /// The replies the sink will give to upcoming writes, in order; writes
    /// past the end of the plan succeed.
    spec fn plan(&self) -> Seq<Option<IoError>>;

    /// Writes all of `data`, or refuses it with a structured error.
    fn write_all(&mut self, data: &[u8]) -> (r: Result<(), IoError>)
        ensures
            final(self).plan() == plan_tail(old(self).plan()),
            match plan_head(old(self).plan()) {
                None => r == Ok::<(), IoError>(())
                    && final(self).content() == old(self).content() + data@,
                Some(e) => r == Err::<(), IoError>(e),
            },
    ;
}

/// A sink backed by a growable byte buffer; it accepts every write.
pub struct VecSink {
    data: Vec<u8>,
}

impl VecSink {
    /// An empty sink.
    pub fn new() -> (r: VecSink)
        ensures
            r.content() == Seq::<u8>::empty(),
    {
        VecSink { data: Vec::new() }
    }

    /// The accepted bytes, in order.
    pub fn bytes(&self) -> (r: &Vec<u8>)
        ensures
            r@ == self.content(),
    {
        &self.data
    }

    /// Consumes the sink and hands out the accepted bytes.
    pub fn into_bytes(self) -> (r: Vec<u8>)
        ensures
            r@ == self.content(),
    {
        self.data
    }
}

impl ByteSink for VecSink {
    closed spec fn content(&self) -> Seq<u8> {
        self.data@
    }

    /// A buffer-backed sink never refuses a write.
    open spec fn plan(&self) -> Seq<Option<IoError>> {
        Seq::empty()
    }

    fn write_all(&mut self, data: &[u8]) -> (r: Result<(), IoError>) {
        let mut tail = slice_to_vec(data);
        self.data.append(&mut tail);
        Ok(())
    }
}

/// A sink that answers writes according to a prescribed script: entry `i` of
/// the script is the reply to the `i`-th write, and writes past the end of
/// the script are accepted. It exercises every failure path of the bridge
/// without any real device behind it.
pub struct ScriptedSink {
    data: Vec<u8>,
    script: Vec<Option<IoError>>,
}

impl ScriptedSink {
    /// An empty sink that will reply as `script` prescribes.
    pub fn new(script: Vec<Option<IoError>>) -> (r: ScriptedSink)
        ensures
            r.content() == Seq::<u8>::empty(),
            r.plan() == script@,
    {
        ScriptedSink { data: Vec::new(), script }
    }

    /// The accepted bytes, in order.
    pub fn bytes(&self) -> (r: &Vec<u8>)
        ensures
            r@ == self.content(),
    {
        &self.data
    }
}

impl ByteSink for ScriptedSink {
    closed spec fn content(&self) -> Seq<u8> {
        self.data@
    }

    closed spec fn plan(&self) -> Seq<Option<IoError>> {
        self.script@
    }

    fn write_all(&mut self, data: &[u8]) -> (r: Result<(), IoError>) {
        if self.script.len() > 0 {
            let reply = self.script.remove(0);
            match reply {
                None => {
                    let mut tail = slice_to_vec(data);
                    self.data.append(&mut tail);
                    Ok(())
                },
                Some(e) => Err(e),
            }
        } else {
            let mut tail = slice_to_vec(data);
            self.data.append(&mut tail);
            Ok(())
        }
    }
}

} // verus!
