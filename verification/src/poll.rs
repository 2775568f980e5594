//! Planning for the update poll loop.
//!
//! The loop itself lives outside the library: it fetches a batch of update
//! envelopes, dispatches one unit of work per message-type update, and
//! advances its offset. The decisions — which updates to dispatch and what
//! the next offset is — are made here.
//!
//! The offset is advanced past every update seen, one at a time in batch
//! order, whatever its type and whatever becomes of its handler; after a
//! whole batch it therefore stands one past the id of the batch's last
//! update. An empty or failed fetch leaves it unchanged.

use vstd::prelude::*;

verus! {

/// What kind of payload an update envelope carries.
#[derive(Clone, Copy, Debug, PartialEq, Eq, Structural)]
pub enum UpdateKind {
    /// A chat message: one handler is dispatched for it.
    Message,
    /// Any other event type: acknowledged and otherwise ignored.
    Other,
}

/// The part of a transport update the poll loop reads: its id and whether
/// it carries a message.
#[derive(Clone, Copy, Debug, PartialEq, Eq, Structural)]
pub struct UpdateEnvelope {
    /// The update's id in the transport's stream.
    pub id: u32,
    /// Whether the update carries a message payload.
    pub kind: UpdateKind,
}

/// The offset to poll with after acknowledging `batch`, starting from
/// `offset`: one past the last update's id, or unchanged for an empty batch.
pub open spec fn next_offset_spec(offset: Option<i64>, batch: Seq<UpdateEnvelope>) -> Option<
    i64,
> {
    if batch.len() == 0 {
        offset
    } else {
        Some((batch.last().id as i64 + 1) as i64)
    }
}

/// The offset to use for the next poll request after seeing `batch`.
pub fn next_offset(offset: Option<i64>, batch: &Vec<UpdateEnvelope>) -> (r: Option<i64>)
    ensures
        r == next_offset_spec(offset, batch@),
{
    if batch.len() == 0 {
        offset
    } else {
        Some(batch[batch.len() - 1].id as i64 + 1)
    }
}

/// The positions in `batch` holding message-type updates, in batch order:
/// exactly one unit of concurrent work is dispatched per such update.
pub fn dispatch_positions(batch: &Vec<UpdateEnvelope>) -> (r: Vec<usize>)
    ensures
        forall|j: int| 0 <= j < r@.len() ==> #[trigger] r@[j] < batch@.len(),
        forall|j: int|
            0 <= j < r@.len() ==> (#[trigger] batch@[r@[j] as int]).kind == UpdateKind::Message,
        forall|j1: int, j2: int| 0 <= j1 < j2 < r@.len() ==> r@[j1] < r@[j2],
        forall|i: int|
            0 <= i < batch@.len() && (#[trigger] batch@[i]).kind == UpdateKind::Message
                ==> r@.contains(i as usize),
{
    let mut r: Vec<usize> = Vec::new();
    let mut i: usize = 0;
    while i < batch.len()
        invariant
            i <= batch.len(),
            forall|j: int| 0 <= j < r@.len() ==> #[trigger] r@[j] < i,
            forall|j: int|
                0 <= j < r@.len() ==> (#[trigger] batch@[r@[j] as int]).kind == UpdateKind::Message,
            forall|j1: int, j2: int| 0 <= j1 < j2 < r@.len() ==> r@[j1] < r@[j2],
            forall|k: int|
                0 <= k < i && (#[trigger] batch@[k]).kind == UpdateKind::Message
                    ==> r@.contains(k as usize),
        decreases batch.len() - i,
    {
        if batch[i].kind == UpdateKind::Message {
            let ghost r0 = r@;
            r.push(i);
            proof {
                assert forall|j1: int, j2: int| 0 <= j1 < j2 < r@.len() implies r@[j1] < r@[j2] by {
                    assert(r@[j1] == r0[j1]);
                    if j2 < r@.len() - 1 {
                        assert(r@[j2] == r0[j2]);
                    } else {
                        assert(r@[j2] == i);
                    }
                }
                assert forall|k: int|
                    0 <= k < i + 1 && (#[trigger] batch@[k]).kind
                        == UpdateKind::Message implies r@.contains(k as usize) by {
                    if k < i as int {
                        let j = choose|j: int| 0 <= j < r0.len() && r0[j] == k as usize;
                        assert(r@[j] == k as usize);
                    } else {
                        assert(r@[r@.len() - 1] == i);
                    }
                }
            }
        } else {
            proof {
                assert forall|k: int|
                    0 <= k < i + 1 && (#[trigger] batch@[k]).kind
                        == UpdateKind::Message implies r@.contains(k as usize) by {
                    assert(k < i as int);
                }
            }
        }
        i = i + 1;
    }
    r
}

} // verus!
