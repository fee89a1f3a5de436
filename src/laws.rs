//! Properties of the workflow that hold of every state and every step.

use vstd::prelude::*;
use crate::lifecycle::{
    confirm_step, confirmed, delivered, delivery_wf, escrow_sum, find, ids_unique, released,
    seller_step, stamps_kept, started,
};
use crate::model::{DeliveryError, DeliveryStatus, DeliveryView};
use crate::repository::{snapshot_wf, Repository};

verus! {

/// In every reachable state the escrow ledger equals the sum of the amounts
/// of the deliveries that are Pending, InTransit, Delivered or Confirmed.
pub proof fn lemma_ledger_balanced(r: &Repository)
    requires
        r.wf(),
    ensures
        r.escrow() == escrow_sum(r.deliveries()),
{
}

/// In every reachable state each delivery's status history is non-empty,
/// never goes back in time, and ends in the delivery's current status.
pub proof fn lemma_history_ordered(r: &Repository, i: int)
    requires
        r.wf(),
        0 <= i < r.deliveries().len(),
    ensures
        r.deliveries()[i].status_history.len() > 0,
        forall|a: int, b: int|
            0 <= a <= b < r.deliveries()[i].status_history.len() ==> #[trigger] r.deliveries()[i].status_history[a].1
                <= #[trigger] r.deliveries()[i].status_history[b].1,
        r.deliveries()[i].status_history.last().0 == r.deliveries()[i].status,
{
    assert(delivery_wf(r.deliveries()[i]));
}

/// No step overwrites a status timestamp that is already set: each step
/// that an operation takes from its starting status keeps every timestamp.
pub proof fn lemma_stamps_never_overwritten(d: DeliveryView, code: Seq<char>, now: u64)
    requires
        delivery_wf(d),
    ensures
        d.status == DeliveryStatus::Pending ==> stamps_kept(d, started(d, now)),
        d.status == DeliveryStatus::InTransit ==> stamps_kept(d, delivered(d, code, now)),
        d.status == DeliveryStatus::Delivered ==> stamps_kept(d, confirmed(d, now)),
        d.status == DeliveryStatus::Confirmed ==> stamps_kept(d, released(d, now)),
{
}

/// Starting a delivery that was just started fails with `InvalidState`.
pub proof fn lemma_start_twice(ds: Seq<DeliveryView>, caller: Seq<u8>, id: Seq<char>, now: u64)
    requires
        ids_unique(ds),
        seller_step(ds, caller, id, DeliveryStatus::Pending) is Ok,
    ensures
        ({
            let i = find(ds, id)->Some_0;
            seller_step(ds.update(i, started(ds[i], now)), caller, id, DeliveryStatus::Pending)
                == Err::<(), DeliveryError>(DeliveryError::InvalidState)
        }),
{
    let i = find(ds, id)->Some_0;
    let after = ds.update(i, started(ds[i], now));
    assert(after[i].id == id);
    let j = choose|j: int| 0 <= j < after.len() && #[trigger] after[j].id == id;
    if j != i {
        assert(ds[j].id == after[j].id);
    }
}

/// A right code is accepted up to and including its expiry second, and
/// refused with `OtpExpired` one second later.
pub proof fn lemma_expiry_inclusive(
    ds: Seq<DeliveryView>,
    caller: Seq<u8>,
    id: Seq<char>,
    code: Seq<char>,
    expires_at: u64,
)
    requires
        ids_unique(ds),
        find(ds, id) matches Some(i) && ds[i].buyer == caller && ds[i].status
            == DeliveryStatus::Delivered && ds[i].otp == Some(code) && ds[i].otp_expires_at == Some(
            expires_at,
        ),
        expires_at < u64::MAX,
    ensures
        confirm_step(ds, caller, id, code, expires_at) is Ok,
        confirm_step(ds, caller, id, code, (expires_at + 1) as u64) == Err::<(), DeliveryError>(
            DeliveryError::OtpExpired,
        ),
{
}

/// What `checkpoint` captures of a reachable state is a checkpoint that
/// `restore` accepts: deliveries, receipts and ledger survive an upgrade.
pub proof fn lemma_checkpoint_restorable(r: &Repository)
    requires
        r.wf(),
    ensures
        snapshot_wf(r.deliveries(), r.nfts(), r.escrow()),
{
}

} // verus!
