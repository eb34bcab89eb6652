//! Per-endpoint packet buffers.
//!
//! Each endpoint direction holds a FIFO of byte chunks.  The device stack
//! and the URB dispatcher push chunks; transfers leave as a contiguous
//! byte prefix of the flattened queue, splitting a chunk when a transfer
//! boundary falls inside it.

use std::collections::VecDeque;
use vstd::prelude::*;

verus! {

/// The chunk sequences held by a queue, as mathematical sequences.
pub open spec fn bufs_of(q: Seq<Vec<u8>>) -> Seq<Seq<u8>> {
    q.map_values(|v: Vec<u8>| v@)
}

/// All bytes of a chunk queue, in order.
pub open spec fn flat_bufs(bs: Seq<Seq<u8>>) -> Seq<u8>
    decreases bs.len(),
{
    if bs.len() == 0 {
        Seq::empty()
    } else {
        bs[0] + flat_bufs(bs.subrange(1, bs.len() as int))
    }
}

/// Every chunk holds at least one byte.
pub open spec fn nonempty_bufs(bs: Seq<Seq<u8>>) -> bool {
    forall|i: int| 0 <= i < bs.len() ==> #[trigger] bs[i].len() > 0
}

/// The queue left after removing its first `k` bytes: whole chunks leave
/// first, and a chunk holding the `k`-th byte is split.
pub open spec fn drain_bufs(bs: Seq<Seq<u8>>, k: int) -> Seq<Seq<u8>>
    decreases bs.len(),
{
    if k <= 0 || bs.len() == 0 {
        bs
    } else if bs[0].len() <= k {
        drain_bufs(bs.subrange(1, bs.len() as int), k - bs[0].len())
    } else {
        seq![bs[0].skip(k)] + bs.subrange(1, bs.len() as int)
    }
}

/// `p` cut into chunks of `mps` bytes; only the last chunk may be shorter.
pub open spec fn chunked(p: Seq<u8>, mps: int) -> Seq<Seq<u8>>
    decreases p.len(),
{
    if p.len() == 0 || mps < 1 {
        Seq::empty()
    } else if p.len() <= mps {
        seq![p]
    } else {
        seq![p.take(mps)] + chunked(p.skip(mps), mps)
    }
}

/// A queue of one chunk flattens to that chunk.
pub proof fn lemma_flat_singleton(x: Seq<u8>)
    ensures
        flat_bufs(seq![x]) =~= x,
{
    assert(seq![x].subrange(1, 1) =~= Seq::<Seq<u8>>::empty());
    assert(flat_bufs(Seq::<Seq<u8>>::empty()) =~= Seq::<u8>::empty());
}

/// Appending a chunk appends its bytes to the flattened queue.
pub proof fn lemma_flat_push(bs: Seq<Seq<u8>>, x: Seq<u8>)
    ensures
        flat_bufs(bs.push(x)) =~= flat_bufs(bs) + x,
    decreases bs.len(),
{
    if bs.len() == 0 {
        assert(bs.push(x) =~= seq![x]);
        lemma_flat_singleton(x);
        assert(flat_bufs(bs) + x =~= x);
    } else {
        assert(bs.push(x).subrange(1, bs.len() as int + 1) =~= bs.subrange(
            1,
            bs.len() as int,
        ).push(x));
        lemma_flat_push(bs.subrange(1, bs.len() as int), x);
    }
}

/// With no empty chunks, the queue is empty exactly when its bytes are.
pub proof fn lemma_flat_empty(bs: Seq<Seq<u8>>)
    requires
        nonempty_bufs(bs),
    ensures
        flat_bufs(bs).len() == 0 <==> bs.len() == 0,
{
    if bs.len() > 0 {
        assert(bs[0].len() > 0);
        assert(flat_bufs(bs).len() >= bs[0].len());
    }
}

/// The chunks of `p` are non-empty and no longer than `mps`.
pub proof fn lemma_chunked_wf(p: Seq<u8>, mps: int)
    ensures
        nonempty_bufs(chunked(p, mps)),
        forall|i: int|
            0 <= i < chunked(p, mps).len() ==> #[trigger] chunked(p, mps)[i].len() <= mps,
    decreases p.len(),
{
    if p.len() == 0 || mps < 1 {
    } else if p.len() <= mps {
    } else {
        lemma_chunked_wf(p.skip(mps), mps);
    }
}

/// Flattening the chunks of `p` gives back `p`.
pub proof fn lemma_chunked_flat(p: Seq<u8>, mps: int)
    requires
        mps >= 1,
    ensures
        flat_bufs(chunked(p, mps)) =~= p,
    decreases p.len(),
{
    if p.len() == 0 {
    } else if p.len() <= mps {
        assert(chunked(p, mps) =~= seq![p]);
        lemma_flat_singleton(p);
    } else {
        lemma_chunked_flat(p.skip(mps), mps);
        let cs = chunked(p, mps);
        assert(cs.subrange(1, cs.len() as int) =~= chunked(p.skip(mps), mps));
        assert(flat_bufs(cs) =~= p.take(mps) + p.skip(mps));
        assert(p.take(mps) + p.skip(mps) =~= p);
    }
}

/// Draining preserves the absence of empty chunks.
pub proof fn lemma_drain_nonempty(bs: Seq<Seq<u8>>, k: int)
    requires
        nonempty_bufs(bs),
    ensures
        nonempty_bufs(drain_bufs(bs, k)),
    decreases bs.len(),
{
    if k <= 0 || bs.len() == 0 {
    } else if bs[0].len() <= k {
        assert(nonempty_bufs(bs.subrange(1, bs.len() as int)));
        lemma_drain_nonempty(bs.subrange(1, bs.len() as int), k - bs[0].len());
    } else {
        let d = drain_bufs(bs, k);
        assert forall|i: int| 0 <= i < d.len() implies #[trigger] d[i].len() > 0 by {
            if i == 0 {
                assert(d[0] =~= bs[0].skip(k));
            } else {
                assert(d[i] =~= bs[i]);
            }
        }
    }
}

/// Draining removes exactly the leading bytes: what is left flattens to
/// the remainder, so successive transfers deliver queued bytes in order
/// and without loss.
pub proof fn lemma_drain_flat(bs: Seq<Seq<u8>>, k: int)
    requires
        0 <= k,
    ensures
        flat_bufs(drain_bufs(bs, k)) =~= if k <= flat_bufs(bs).len() {
            flat_bufs(bs).skip(k)
        } else {
            Seq::<u8>::empty()
        },
    decreases bs.len(),
{
    let rest = bs.subrange(1, bs.len() as int);
    if k <= 0 || bs.len() == 0 {
        assert(flat_bufs(bs).skip(0) =~= flat_bufs(bs));
    } else if bs[0].len() <= k {
        lemma_drain_flat(rest, k - bs[0].len());
        if k <= flat_bufs(bs).len() {
            assert(flat_bufs(bs).skip(k) =~= flat_bufs(rest).skip(k - bs[0].len()));
        }
    } else {
        let d = drain_bufs(bs, k);
        assert(d.subrange(1, d.len() as int) =~= rest);
        assert(flat_bufs(d) =~= bs[0].skip(k) + flat_bufs(rest));
        assert(flat_bufs(bs).skip(k) =~= bs[0].skip(k) + flat_bufs(rest));
    }
}

/// One direction of an endpoint: its chunk queue and transfer state.
pub struct EndpointDir {
    /// Largest chunk the endpoint transfers in one packet, 1..=1024.
    pub max_packet_size: u16,
    /// Queued chunks, oldest first.
    pub data: VecDeque<Vec<u8>>,
    /// For IN: the device stack has finished writing a response.
    pub ready_to_send: bool,
}

impl EndpointDir {
    /// The queued chunks as sequences.
    pub open spec fn bufs(&self) -> Seq<Seq<u8>> {
        bufs_of(self.data@)
    }

    /// All queued bytes, in order.
    pub open spec fn flat(&self) -> Seq<u8> {
        flat_bufs(self.bufs())
    }

    /// Packet size within its bounds; no chunk is empty.
    pub open spec fn wf(&self) -> bool {
        &&& 1 <= self.max_packet_size <= 1024
        &&& nonempty_bufs(self.bufs())
    }

    /// A fresh direction with an empty queue.
    pub fn new(max_packet_size: u16) -> (r: Self)
        requires
            1 <= max_packet_size <= 1024,
        ensures
            r.wf(),
            r.max_packet_size == max_packet_size,
            r.bufs() =~= Seq::<Seq<u8>>::empty(),
            !r.ready_to_send,
    {
        let r = EndpointDir { max_packet_size, data: VecDeque::new(), ready_to_send: false };
        assert(r.bufs() =~= Seq::<Seq<u8>>::empty());
        r
    }

    /// Removes and returns the first `limit` queued bytes (all of them if
    /// fewer are queued), splitting the chunk on the boundary.
    pub fn take_bytes(&mut self, limit: usize) -> (out: Vec<u8>)
        ensures
            out@ =~= if limit <= old(self).flat().len() {
                old(self).flat().take(limit as int)
            } else {
                old(self).flat()
            },
            final(self).bufs() =~= drain_bufs(old(self).bufs(), limit as int),
            out@ + final(self).flat() =~= old(self).flat(),
            final(self).max_packet_size == old(self).max_packet_size,
            final(self).ready_to_send == old(self).ready_to_send,
            old(self).wf() ==> final(self).wf(),
    {
        let ghost obufs = old(self).bufs();
        let mut out: Vec<u8> = Vec::new();
        loop
            invariant
                out@.len() <= limit,
                out@ + self.flat() =~= flat_bufs(obufs),
                drain_bufs(obufs, limit as int) =~= drain_bufs(
                    self.bufs(),
                    limit - out@.len(),
                ),
                self.max_packet_size == old(self).max_packet_size,
                self.ready_to_send == old(self).ready_to_send,
            ensures
                out@.len() <= limit,
                out@.len() == limit || self.bufs().len() == 0,
                out@ + self.flat() =~= flat_bufs(obufs),
                drain_bufs(obufs, limit as int) =~= self.bufs(),
                self.max_packet_size == old(self).max_packet_size,
                self.ready_to_send == old(self).ready_to_send,
            decreases self.flat().len() + self.bufs().len(),
        {
            if out.len() >= limit {
                proof {
                    assert(drain_bufs(self.bufs(), 0) =~= self.bufs());
                }
                break;
            }
            let ghost pre_bufs = self.bufs();
            let chunk = match self.data.pop_front() {
                None => {
                    proof {
                        assert(self.bufs().len() == 0);
                        assert(drain_bufs(self.bufs(), limit - out@.len()) =~= self.bufs());
                    }
                    break;
                },
                Some(chunk) => chunk,
            };
            proof {
                assert(self.bufs() =~= pre_bufs.subrange(1, pre_bufs.len() as int));
                assert(flat_bufs(pre_bufs) =~= chunk@ + flat_bufs(self.bufs()));
            }
            let bytes_left = limit - out.len();
            let take = if chunk.len() < bytes_left {
                chunk.len()
            } else {
                bytes_left
            };
            let ghost out_pre = out@;
            let mut j: usize = 0;
            while j < take
                invariant
                    j <= take <= chunk@.len(),
                    out@ =~= out_pre + chunk@.subrange(0, j as int),
                decreases take - j,
            {
                out.push(chunk[j]);
                assert(chunk@.subrange(0, j + 1 as int) =~= chunk@.subrange(0, j as int)
                    + seq![chunk@[j as int]]);
                j = j + 1;
            }
            if take < chunk.len() {
                let tail = vstd::slice::slice_to_vec(
                    vstd::slice::slice_subrange(chunk.as_slice(), take, chunk.len()),
                );
                let ghost mid_bufs = self.bufs();
                self.data.push_front(tail);
                proof {
                    assert(self.bufs() =~= seq![chunk@.skip(take as int)] + mid_bufs);
                    assert(self.bufs().subrange(1, self.bufs().len() as int) =~= mid_bufs);
                    assert(self.flat() =~= chunk@.skip(take as int) + flat_bufs(mid_bufs));
                    assert(chunk@ =~= chunk@.subrange(0, take as int) + chunk@.skip(take as int));
                    assert(out@ + self.flat() =~= flat_bufs(obufs));
                    // `take` equals the bytes still owed, so the popped chunk
                    // is split exactly there.
                    assert(take == limit - out_pre.len());
                    assert(drain_bufs(pre_bufs, limit - out_pre.len()) =~= self.bufs());
                    assert(out@.len() == limit);
                }
                break;
            }
            proof {
                assert(chunk@.subrange(0, take as int) =~= chunk@);
                assert(out@ + self.flat() =~= flat_bufs(obufs));
                assert(drain_bufs(pre_bufs, limit - out_pre.len()) =~= drain_bufs(
                    self.bufs(),
                    limit - out@.len(),
                ));
            }
        }
        proof {
            if out@.len() < limit {
                assert(self.bufs().len() == 0);
                assert(self.flat().len() == 0);
                assert(out@ =~= flat_bufs(obufs));
            } else {
                assert(flat_bufs(obufs).len() >= out@.len());
                assert(out@ =~= flat_bufs(obufs).take(out@.len() as int));
            }
            if old(self).wf() {
                lemma_drain_nonempty(obufs, limit as int);
            }
        }
        out
    }

    /// Splits `payload` into packet-size chunks and queues them in order.
    pub fn push_payload(&mut self, payload: &[u8])
        requires
            old(self).max_packet_size >= 1,
        ensures
            final(self).bufs() =~= old(self).bufs() + chunked(
                payload@,
                old(self).max_packet_size as int,
            ),
            final(self).max_packet_size == old(self).max_packet_size,
            final(self).ready_to_send == old(self).ready_to_send,
            old(self).wf() ==> final(self).wf(),
    {
        let mps = self.max_packet_size as usize;
        let ghost obufs = old(self).bufs();
        let mut i: usize = 0;
        proof {
            assert(payload@.skip(0) =~= payload@);
        }
        while i < payload.len()
            invariant
                i <= payload@.len(),
                mps == old(self).max_packet_size as int,
                mps >= 1,
                self.max_packet_size == old(self).max_packet_size,
                self.ready_to_send == old(self).ready_to_send,
                obufs + chunked(payload@, mps as int) =~= self.bufs() + chunked(
                    payload@.skip(i as int),
                    mps as int,
                ),
            decreases payload@.len() - i,
        {
            let end = if payload.len() - i < mps {
                payload.len()
            } else {
                i + mps
            };
            let chunk = vstd::slice::slice_to_vec(vstd::slice::slice_subrange(payload, i, end));
            let ghost pre_bufs = self.bufs();
            let ghost rest = payload@.skip(i as int);
            self.data.push_back(chunk);
            proof {
                assert(self.bufs() =~= pre_bufs.push(chunk@));
                if rest.len() <= mps {
                    assert(chunk@ =~= rest);
                    assert(chunked(rest, mps as int) =~= seq![rest]);
                    assert(payload@.skip(end as int).len() == 0);
                    assert(chunked(payload@.skip(end as int), mps as int)
                        =~= Seq::<Seq<u8>>::empty());
                    assert(self.bufs() + chunked(payload@.skip(end as int), mps as int)
                        =~= pre_bufs + seq![rest]);
                    assert(pre_bufs + chunked(rest, mps as int) =~= pre_bufs + seq![rest]);
                } else {
                    assert(chunk@ =~= rest.take(mps as int));
                    assert(chunked(rest, mps as int) =~= seq![rest.take(mps as int)] + chunked(
                        rest.skip(mps as int),
                        mps as int,
                    ));
                    assert(rest.skip(mps as int) =~= payload@.skip(end as int));
                    assert(self.bufs() + chunked(payload@.skip(end as int), mps as int)
                        =~= pre_bufs + chunked(rest, mps as int));
                }
            }
            i = end;
        }
        proof {
            assert(payload@.skip(payload@.len() as int).len() == 0);
            assert(chunked(payload@.skip(i as int), mps as int) =~= Seq::<Seq<u8>>::empty());
            assert(self.bufs() + Seq::<Seq<u8>>::empty() =~= self.bufs());
            assert(self.bufs() =~= obufs + chunked(payload@, mps as int));
            if old(self).wf() {
                lemma_chunked_wf(payload@, mps as int);
                let cs = chunked(payload@, mps as int);
                assert forall|ii: int|
                    0 <= ii < self.bufs().len() implies #[trigger] self.bufs()[ii].len() > 0 by {
                    if ii < obufs.len() {
                        assert(self.bufs()[ii] =~= obufs[ii]);
                    } else {
                        assert(self.bufs()[ii] =~= cs[ii - obufs.len()]);
                    }
                }
            }
        }
    }
}

/// One endpoint slot: the two optional directions and the URB state that
/// spans them.
pub struct Endpoint {
    pub ep_in: Option<EndpointDir>,
    pub ep_out: Option<EndpointDir>,
    /// The next read of endpoint 0 OUT returns an 8-byte SETUP packet.
    pub setup_flag: bool,
    /// Last sequence number accepted from the client on this endpoint.
    pub seqnum: u32,
    /// Device id of the last URB accepted on this endpoint; echoed in
    /// responses.
    pub devid: u32,
    /// Transfer length of the outstanding IN URB, if one is pending.
    pub bytes_requested: Option<u32>,
    /// An IN transfer completed since the last poll.
    pub in_complete: bool,
}

impl Endpoint {
    /// Both present directions are well-formed.
    pub open spec fn wf(&self) -> bool {
        &&& self.ep_in matches Some(d) ==> d.wf()
        &&& self.ep_out matches Some(d) ==> d.wf()
    }

    /// The slot is in use for at least one direction.
    pub open spec fn allocated(&self) -> bool {
        self.ep_in is Some || self.ep_out is Some
    }

    /// An unused endpoint slot.
    pub fn unallocated() -> (r: Self)
        ensures
            r.wf(),
            !r.allocated(),
            !r.setup_flag,
            r.seqnum == 0,
            r.devid == 0,
            r.bytes_requested is None,
            !r.in_complete,
    {
        Endpoint {
            ep_in: None,
            ep_out: None,
            setup_flag: false,
            seqnum: 0,
            devid: 0,
            bytes_requested: None,
            in_complete: false,
        }
    }
}

} // verus!

