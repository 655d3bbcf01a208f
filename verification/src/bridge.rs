//! The adapter that lets text-writing callbacks drive a byte sink, and the
//! driver that owns the sink for one callback invocation.

use vstd::prelude::*;
use vstd::pervasive::unreached;
use vstd::utf8::encode_utf8;

use crate::error::IoError;
use crate::error::SignalError;
use crate::sink::plan_head;
use crate::sink::plan_tail;
use crate::sink::ByteSink;

verus! {

/// The adapter: it offers the text contract's single operation,
/// [`Writer::write_str`], on top of an owned byte sink, and keeps the sink's
/// structured error in a private slot that only later failures overwrite.
pub struct Writer<W: ByteSink> {
    writer: W,
    last_error: Option<IoError>,
}

impl<W: ByteSink> Writer<W> {
    /// The byte sink the adapter owns.
    pub closed spec fn sink(&self) -> W {
        self.writer
    }

    /// The bytes the owned sink has accepted so far.
    pub open spec fn content(&self) -> Seq<u8> {
        self.sink().content()
    }

    /// The structured error recorded by the most recent refused write, if
    /// any write has been refused.
    pub closed spec fn recorded_error(&self) -> Option<IoError> {
        self.last_error
    }

    /// The adapter as [`write`] hands it to the callback: the given sink and
    /// an empty error slot.
    pub closed spec fn wrapping(sink: W) -> Writer<W> {
        Writer { writer: sink, last_error: None }
    }

    /// Writes one string chunk, as its raw bytes, to the owned sink. An
    /// accepted chunk leaves the error slot alone; a refused chunk stores the
    /// sink's structured error there, overwriting any earlier one, and
    /// reports only the payload-free [`SignalError`].
    pub fn write_str(&mut self, s: &str) -> (r: Result<(), SignalError>)
        ensures
            final(self).sink().plan() == plan_tail(old(self).sink().plan()),
            match plan_head(old(self).sink().plan()) {
                None => r == Ok::<(), SignalError>(())
                    && final(self).content() == old(self).content() + encode_utf8(s@)
                    && final(self).recorded_error() == old(self).recorded_error(),
                Some(e) => r == Err::<(), SignalError>(SignalError)
                    && final(self).recorded_error() == Some(e),
            },
    {
        match self.writer.write_all(s.as_bytes()) {
            Ok(()) => Ok(()),
            Err(e) => {
                self.last_error = Some(e);
                Err(SignalError)
            },
        }
    }
}

/// The driver: it wraps `writer` in a fresh [`Writer`], hands that adapter to
/// `f`, and once `f` returns reconciles the two failure channels. A recorded
/// sink error wins over whatever `f` returned; otherwise `f`'s success value
/// is passed through. The sink comes back alongside the result, its content
/// ready to be read.
///
/// A callback that returns the failure signal although no write was refused
/// breaks the contract of the text channel: the signal carries no payload, so
/// there is nothing truthful to return. The precondition rules such callbacks
/// out, and an unverified caller that breaks it is stopped by a fatal abort
/// rather than given a fabricated result.
pub fn write<R, W, F>(writer: W, f: F) -> (r: (W, Result<R, IoError>)) where
    W: ByteSink,
    F: FnOnce(Writer<W>) -> (Writer<W>, Result<R, SignalError>),

    requires
        call_requires(f, (Writer::wrapping(writer),)),
        forall|out: (Writer<W>, Result<R, SignalError>)|
            #[trigger] call_ensures(f, (Writer::wrapping(writer),), out)
                ==> !(out.1 is Err && out.0.recorded_error() is None),
    ensures
        exists|out: (Writer<W>, Result<R, SignalError>)|
            {
                &&& #[trigger] call_ensures(f, (Writer::wrapping(writer),), out)
                &&& r.0 == out.0.sink()
                &&& match out.0.recorded_error() {
                    Some(e) => r.1 == Err::<R, IoError>(e),
                    None => out.1 matches Ok(v) && r.1 == Ok::<R, IoError>(v),
                }
            },
{
    let adapter = Writer { writer, last_error: None };
    let (adapter, result) = f(adapter);
    let Writer { writer: sink, last_error } = adapter;
    match last_error {
        Some(e) => (sink, Err(e)),
        None => match result {
            Ok(v) => (sink, Ok(v)),
            Err(_) => unreached(),
        },
    }
}

/// The adapter a driver call starts from owns exactly the sink it was given
/// and has nothing in its error slot.
pub broadcast proof fn lemma_wrapping<W: ByteSink>(sink: W)
    ensures
        (#[trigger] Writer::wrapping(sink)).sink() == sink,
        Writer::wrapping(sink).recorded_error() is None,
{
}

/// A driver call whose callback issues no writes and returns success with
/// `value` passes the value through unchanged and leaves the sink exactly as
/// it was handed in.
pub fn write_value<R, W: ByteSink>(sink: W, value: R) -> (r: (W, Result<R, IoError>))
    ensures
        r.0 == sink,
        r.1 == Ok::<R, IoError>(value),
{
    let pass_through = |w: Writer<W>| -> (out: (Writer<W>, Result<R, SignalError>))
        ensures
            out.0 == w && (out.1 matches Ok(v) && v == value),
        {
            (w, Ok(value))
        };
    write(sink, pass_through)
}

/// A driver call whose callback writes `first` and then `second`, whatever
/// became of the first write. The contract spells out all four ways the
/// sink's next two replies can fall: when both chunks are accepted the call
/// succeeds and the content grows by exactly their bytes in order; when
/// exactly one write is refused that write's structured error comes back,
/// even if the other write succeeded after it; and when both are refused the
/// later error wins.
pub fn write_pair<W: ByteSink>(sink: W, first: &str, second: &str) -> (r: (
    W,
    Result<(), IoError>,
))
    ensures
        ({
            let p = sink.plan();
            match (plan_head(p), plan_head(plan_tail(p))) {
                (None, None) => {
                    &&& r.1 == Ok::<(), IoError>(())
                    &&& r.0.content() == sink.content() + encode_utf8(first@) + encode_utf8(
                        second@,
                    )
                    &&& r.0.plan() == plan_tail(plan_tail(p))
                },
                (None, Some(e2)) => r.1 == Err::<(), IoError>(e2),
                (Some(e1), None) => r.1 == Err::<(), IoError>(e1),
                (Some(e1), Some(e2)) => r.1 == Err::<(), IoError>(e2),
            }
        }),
{
    let both = |mut w: Writer<W>| -> (out: (Writer<W>, Result<(), SignalError>))
        requires
            w.recorded_error() is None,
        ensures
            ({
                let p = w.sink().plan();
                match (plan_head(p), plan_head(plan_tail(p))) {
                    (None, None) => {
                        &&& out.1 == Ok::<(), SignalError>(())
                        &&& out.0.recorded_error() is None
                        &&& out.0.content() == w.content() + encode_utf8(first@) + encode_utf8(
                            second@,
                        )
                        &&& out.0.sink().plan() == plan_tail(plan_tail(p))
                    },
                    (None, Some(e2)) => out.1 is Err && out.0.recorded_error() == Some(e2),
                    (Some(e1), None) => out.1 is Err && out.0.recorded_error() == Some(e1),
                    (Some(e1), Some(e2)) => out.1 is Err && out.0.recorded_error() == Some(e2),
                }
            }),
        {
            let r1 = w.write_str(first);
            let r2 = w.write_str(second);
            if r1.is_err() || r2.is_err() {
                (w, Err(SignalError))
            } else {
                (w, Ok(()))
            }
        };
    write(sink, both)
}

/// Whether each of the first `n` replies in `plan` accepts its write.
pub open spec fn accepts_prefix(plan: Seq<Option<IoError>>, n: int) -> bool {
    forall|i: int| 0 <= i < n && i < plan.len() ==> plan[i] is None
}

/// The plan left after `n` writes have consumed their replies.
pub open spec fn plan_skip(plan: Seq<Option<IoError>>, n: int) -> Seq<Option<IoError>> {
    if n <= plan.len() {
        plan.skip(n)
    } else {
        Seq::empty()
    }
}

/// The bytes of `chunks`, each encoded, laid end to end in order.
pub open spec fn concat_encoded(chunks: Seq<Seq<char>>) -> Seq<u8>
    decreases chunks.len(),
{
    if chunks.len() == 0 {
        Seq::empty()
    } else {
        concat_encoded(chunks.drop_last()) + encode_utf8(chunks.last())
    }
}

/// Consuming one reply from a plan that already had `i` replies consumed
/// leaves the plan with `i + 1` replies consumed, and the reply consumed is
/// entry `i` where the plan reaches that far.
proof fn lemma_plan_skip_step(p: Seq<Option<IoError>>, i: int)
    requires
        0 <= i,
    ensures
        plan_tail(plan_skip(p, i)) == plan_skip(p, i + 1),
        plan_head(plan_skip(p, i)) == (if i < p.len() {
            p[i]
        } else {
            None::<IoError>
        }),
{
    if i < p.len() {
        assert(plan_tail(plan_skip(p, i)) =~= plan_skip(p, i + 1));
    } else {
        assert(plan_skip(p, i) =~= Seq::<Option<IoError>>::empty());
        assert(plan_skip(p, i + 1) =~= Seq::<Option<IoError>>::empty());
    }
}

/// A driver call whose callback writes every element of `chunks` in order,
/// stopping at the first refused write. When the sink accepts all of them the
/// call succeeds and the content grows by exactly the chunks' bytes laid end
/// to end; when the sink refuses one, the first refusal's structured error is
/// what the call returns.
pub fn write_chunks<W: ByteSink>(sink: W, chunks: &Vec<String>) -> (r: (W, Result<(), IoError>))
    ensures
        accepts_prefix(sink.plan(), chunks@.len() as int) ==> {
            &&& r.1 == Ok::<(), IoError>(())
            &&& r.0.content() == sink.content() + concat_encoded(chunks.deep_view())
            &&& r.0.plan() == plan_skip(sink.plan(), chunks@.len() as int)
        },
        forall|k: int|
            (0 <= k < chunks@.len() && accepts_prefix(sink.plan(), k) && k < sink.plan().len())
                ==> (#[trigger] sink.plan()[k] matches Some(e) ==> r.1 == Err::<(), IoError>(e)),
{
    let run_all = |mut w: Writer<W>| -> (out: (Writer<W>, Result<(), SignalError>))
        requires
            w.recorded_error() is None,
        ensures
            accepts_prefix(w.sink().plan(), chunks@.len() as int) ==> {
                &&& out.1 == Ok::<(), SignalError>(())
                &&& out.0.recorded_error() is None
                &&& out.0.content() == w.content() + concat_encoded(chunks.deep_view())
                &&& out.0.sink().plan() == plan_skip(w.sink().plan(), chunks@.len() as int)
            },
            forall|k: int|
                (0 <= k < chunks@.len() && accepts_prefix(w.sink().plan(), k) && k
                    < w.sink().plan().len()) ==> (#[trigger] w.sink().plan()[k] matches Some(e)
                    ==> out.0.recorded_error() == Some(e)),
            out.1 is Err ==> out.0.recorded_error() is Some,
        {
            let ghost p0 = w.sink().plan();
            let ghost c0 = w.content();
            proof {
                assert(chunks.deep_view().take(0) =~= Seq::<Seq<char>>::empty());
                assert(c0 + concat_encoded(chunks.deep_view().take(0)) =~= c0);
                assert(plan_skip(p0, 0) =~= p0);
            }
            let mut i: usize = 0;
            let mut res: Result<(), SignalError> = Ok(());
            while i < chunks.len() && res.is_ok()
                invariant
                    i as int <= chunks@.len(),
                    res is Ok ==> {
                        &&& accepts_prefix(p0, i as int)
                        &&& w.recorded_error() is None
                        &&& w.sink().plan() == plan_skip(p0, i as int)
                        &&& w.content() == c0 + concat_encoded(
                            chunks.deep_view().take(i as int),
                        )
                    },
                    res is Err ==> {
                        &&& (i as int) < chunks@.len()
                        &&& accepts_prefix(p0, i as int)
                        &&& (i as int) < p0.len()
                        &&& p0[i as int] is Some
                        &&& w.recorded_error() == p0[i as int]
                    },
                decreases chunks@.len() - i as int + (if res is Ok {
                    1int
                } else {
                    0int
                }),
            {
                proof {
                    lemma_plan_skip_step(p0, i as int);
                }
                match w.write_str(chunks[i].as_str()) {
                    Ok(()) => {
                        proof {
                            let views = chunks.deep_view();
                            assert(views.take(i as int + 1).drop_last() =~= views.take(i as int));
                            assert(w.content() =~= c0 + concat_encoded(views.take(i as int + 1)));
                        }
                        i += 1;
                    },
                    Err(_) => {
                        res = Err(SignalError);
                    },
                }
            }
            proof {
                if res is Ok {
                    assert(chunks.deep_view().take(chunks@.len() as int) =~= chunks.deep_view());
                }
            }
            match res {
                Ok(()) => (w, Ok(())),
                Err(e) => (w, Err(e)),
            }
        };
    write(sink, run_all)
}

} // verus!
