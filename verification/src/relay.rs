//! The byte-relay model: two unidirectional pumps, one copying from the
//! pseudo-terminal controller to the TCP connection (uplink), one from the
//! TCP connection to the pseudo-terminal controller (downlink).
//!
//! Each pump repeatedly reads a chunk of at most [`CHUNK_SIZE`] bytes and
//! forwards it unchanged: no framing, no interpretation, no buffering beyond
//! the single chunk. The downlink pump stops at the first zero-length read,
//! the connection's end-of-stream signal; the uplink pump has no graceful
//! stop. The functions here decide what each pump does with one read and
//! state what a whole schedule of reads forwards; the blocking I/O around
//! them lives with the caller.

use vstd::prelude::*;
use vstd::seq_lib::lemma_flatten_concat;

verus! {

/// Largest number of bytes moved by one read in either pump.
pub const CHUNK_SIZE: usize = 1024;

/// The bytes the uplink pump forwards, given the chunks its successive reads
/// returned: every chunk, in order.
pub open spec fn uplink_output(reads: Seq<Seq<u8>>) -> Seq<u8> {
    reads.flatten()
}

/// Position of the first zero-length read, or the number of reads when every
/// read returned bytes: where the downlink pump stops.
pub open spec fn close_index(reads: Seq<Seq<u8>>) -> int
    decreases reads.len(),
{
    if reads.len() == 0 {
        0
    } else if reads[0].len() == 0 {
        0
    } else {
        1 + close_index(reads.skip(1))
    }
}

/// The bytes the downlink pump forwards: every chunk before the first
/// zero-length read, in order, and nothing after it.
pub open spec fn downlink_output(reads: Seq<Seq<u8>>) -> Seq<u8> {
    reads.take(close_index(reads)).flatten()
}

/// What the downlink pump does with one read.
pub enum DownlinkAction {
    /// Forward these bytes to the pseudo-terminal, then read again.
    Forward(Vec<u8>),
    /// The peer closed the connection: stop without error.
    Close,
}

/// Copies the first `n` bytes of `buf`: the portion of the scratch buffer
/// that one read actually filled.
fn copy_prefix(buf: &Vec<u8>, n: usize) -> (out: Vec<u8>)
    requires
        n <= buf.len(),
    ensures
        out@ == buf@.take(n as int),
{
    let mut out: Vec<u8> = Vec::new();
    let mut j: usize = 0;
    while j < n
        invariant
            j <= n <= buf.len(),
            out@ == buf@.take(j as int),
        decreases n - j,
    {
        out.push(buf[j]);
        assert(out@ =~= buf@.take(j + 1));
        j += 1;
    }
    out
}

/// One uplink step: a read put `n` bytes at the front of `buf`, and exactly
/// those bytes are forwarded to the connection.
pub fn uplink_step(buf: &Vec<u8>, n: usize) -> (chunk: Vec<u8>)
    requires
        n <= buf.len(),
    ensures
        chunk@ == buf@.take(n as int),
{
    copy_prefix(buf, n)
}

/// One downlink step: a zero-length read means the peer closed the
/// connection and the pump stops; otherwise exactly the `n` bytes read are
/// forwarded to the pseudo-terminal.
pub fn downlink_step(buf: &Vec<u8>, n: usize) -> (action: DownlinkAction)
    requires
        n <= buf.len(),
    ensures
        match action {
            DownlinkAction::Close => n == 0,
            DownlinkAction::Forward(chunk) => n > 0 && chunk@ == buf@.take(n as int),
        },
{
    if n == 0 {
        DownlinkAction::Close
    } else {
        DownlinkAction::Forward(copy_prefix(buf, n))
    }
}

/// The uplink pump over a whole schedule of reads: its output is the
/// concatenation of every chunk, in order — no byte lost, duplicated or
/// reordered.
pub fn pump_uplink(reads: &Vec<Vec<u8>>) -> (out: Vec<u8>)
    ensures
        out@ == uplink_output(reads.deep_view()),
{
    let ghost dv = reads.deep_view();
    let mut out: Vec<u8> = Vec::new();
    let mut t: usize = 0;
    while t < reads.len()
        invariant
            t <= reads.len(),
            dv == reads.deep_view(),
            dv.len() == reads@.len(),
            out@ == dv.take(t as int).flatten(),
        decreases reads.len() - t,
    {
        let mut chunk = uplink_step(&reads[t], reads[t].len());
        proof {
            assert(chunk@ =~= dv[t as int]);
        }
        out.append(&mut chunk);
        proof {
            dv.take(t as int).lemma_flatten_push(dv[t as int]);
            assert(dv.take(t + 1) =~= dv.take(t as int).push(dv[t as int]));
        }
        t += 1;
    }
    proof {
        assert(dv.take(t as int) =~= dv);
    }
    out
}

/// The downlink pump over a whole schedule of reads: its output is the
/// concatenation of every chunk before the first zero-length read, in order,
/// and nothing read after the close signal is forwarded.
pub fn pump_downlink(reads: &Vec<Vec<u8>>) -> (out: Vec<u8>)
    ensures
        out@ == downlink_output(reads.deep_view()),
{
    let ghost dv = reads.deep_view();
    let mut out: Vec<u8> = Vec::new();
    let mut t: usize = 0;
    while t < reads.len()
        invariant
            t <= reads.len(),
            dv == reads.deep_view(),
            dv.len() == reads@.len(),
            forall|j: int| 0 <= j < t ==> #[trigger] dv[j].len() > 0,
            out@ == dv.take(t as int).flatten(),
        decreases reads.len() - t,
    {
        match downlink_step(&reads[t], reads[t].len()) {
            DownlinkAction::Close => {
                proof {
                    assert(dv[t as int].len() == 0) by {
                        assert(dv[t as int] =~= reads@[t as int]@);
                    }
                    lemma_downlink_stops_at_close(dv, t as int);
                }
                return out;
            },
            DownlinkAction::Forward(chunk) => {
                let mut chunk = chunk;
                proof {
                    assert(chunk@ =~= dv[t as int]);
                    assert(dv[t as int].len() > 0) by {
                        assert(dv[t as int] =~= reads@[t as int]@);
                    }
                }
                out.append(&mut chunk);
                proof {
                    dv.take(t as int).lemma_flatten_push(dv[t as int]);
                    assert(dv.take(t + 1) =~= dv.take(t as int).push(dv[t as int]));
                }
                t += 1;
            },
        }
    }
    proof {
        lemma_downlink_forwards_all(dv);
        assert(dv.take(t as int) =~= dv);
    }
    out
}

/// Law: when no read is zero-length — the peer never closes — the downlink
/// pump forwards the whole stream: every byte, once, in order.
pub proof fn lemma_downlink_forwards_all(reads: Seq<Seq<u8>>)
    requires
        forall|j: int| 0 <= j < reads.len() ==> #[trigger] reads[j].len() > 0,
    ensures
        close_index(reads) == reads.len(),
        downlink_output(reads) == reads.flatten(),
    decreases reads.len(),
{
    if reads.len() > 0 {
        assert(forall|j: int| 0 <= j < reads.skip(1).len() ==> #[trigger] reads.skip(1)[j].len()
            > 0) by {
            assert(forall|j: int| 0 <= j < reads.skip(1).len() ==> reads.skip(1)[j] == reads[j
                + 1]);
        }
        lemma_downlink_forwards_all(reads.skip(1));
    }
    assert(reads.take(close_index(reads)) =~= reads);
}

/// Law: the first zero-length read stops the downlink pump. Exactly the
/// chunks before it are forwarded; no byte read after the close signal
/// reaches the pseudo-terminal.
pub proof fn lemma_downlink_stops_at_close(reads: Seq<Seq<u8>>, i: int)
    requires
        0 <= i < reads.len(),
        reads[i].len() == 0,
        forall|j: int| 0 <= j < i ==> #[trigger] reads[j].len() > 0,
    ensures
        close_index(reads) == i,
        downlink_output(reads) == reads.take(i).flatten(),
    decreases reads.len(),
{
    if i > 0 {
        assert(reads.skip(1)[i - 1].len() == 0);
        assert(forall|j: int| 0 <= j < i - 1 ==> #[trigger] reads.skip(1)[j].len() > 0) by {
            assert(forall|j: int| 0 <= j < i - 1 ==> reads.skip(1)[j] == reads[j + 1]);
        }
        lemma_downlink_stops_at_close(reads.skip(1), i - 1);
    }
}

/// A byte stream cut into chunks of at most `k` bytes, in order. This is the
/// schedule of reads a pump sees when a peer writes the stream and every
/// read drains what is available, up to the chunk size.
pub open spec fn chunks_of(b: Seq<u8>, k: int) -> Seq<Seq<u8>>
    decreases b.len(),
{
    if k <= 0 || b.len() == 0 {
        Seq::empty()
    } else if b.len() <= k {
        seq![b]
    } else {
        seq![b.take(k)] + chunks_of(b.skip(k), k)
    }
}

/// Cutting a stream into chunks loses nothing: the chunks concatenate back
/// to the stream, and none of them is empty.
pub proof fn lemma_chunks_of_props(b: Seq<u8>, k: int)
    requires
        k > 0,
    ensures
        chunks_of(b, k).flatten() == b,
        forall|i: int| 0 <= i < chunks_of(b, k).len() ==> #[trigger] chunks_of(b, k)[i].len()
            > 0,
    decreases b.len(),
{
    if b.len() == 0 {
        assert(chunks_of(b, k).flatten() =~= b);
    } else if b.len() <= k {
        chunks_of(b, k).lemma_flatten_one_element();
        assert(chunks_of(b, k).flatten() =~= b);
    } else {
        lemma_chunks_of_props(b.skip(k), k);
        lemma_flatten_concat(seq![b.take(k)], chunks_of(b.skip(k), k));
        seq![b.take(k)].lemma_flatten_one_element();
        assert(chunks_of(b, k).flatten() =~= b.take(k) + b.skip(k));
        assert(b.take(k) + b.skip(k) =~= b);
        assert(forall|i: int|
            0 <= i < chunks_of(b, k).len() ==> #[trigger] chunks_of(b, k)[i].len() > 0) by {
            assert(forall|i: int| 1 <= i < chunks_of(b, k).len() ==> chunks_of(b, k)[i]
                == chunks_of(b.skip(k), k)[i - 1]);
        }
    }
}

/// Law: the relay is a verbatim round trip in each direction. A byte stream
/// written on one side, arriving as chunks of at most `k` bytes, comes out
/// of the pump as the same bytes in the same order — through the uplink, and
/// through the downlink as long as the close signal has not been sent.
pub proof fn lemma_relay_round_trip(b: Seq<u8>, k: int)
    requires
        k > 0,
    ensures
        uplink_output(chunks_of(b, k)) == b,
        downlink_output(chunks_of(b, k)) == b,
{
    lemma_chunks_of_props(b, k);
    lemma_downlink_forwards_all(chunks_of(b, k));
}

} // verus!
