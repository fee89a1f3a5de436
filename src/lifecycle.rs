//! The delivery lifecycle as mathematical functions: what each step requires,
//! what it makes of a delivery, and the escrow that deliveries hold.

use vstd::prelude::*;
use crate::model::{holds_escrow, DeliveryError, DeliveryStatus, DeliveryView};
use crate::outside::{json_string_of, principal_text_of};
use crate::text::decimal_of;

verus! {

/// The value that one delivery holds in escrow.
pub open spec fn escrow_of(d: DeliveryView) -> nat {
    if holds_escrow(d.status) {
        d.amount as nat
    } else {
        0
    }
}

/// The value that all these deliveries hold in escrow.
pub open spec fn escrow_sum(ds: Seq<DeliveryView>) -> nat
    decreases ds.len(),
{
    if ds.len() == 0 {
        0
    } else {
        escrow_sum(ds.drop_last()) + escrow_of(ds.last())
    }
}

/// The status history is non-empty, ends in the current status, and its
/// timestamps never decrease.
pub open spec fn history_wf(d: DeliveryView) -> bool {
    &&& d.status_history.len() > 0
    &&& d.status_history.last().0 == d.status
    &&& forall|i: int, j: int|
        0 <= i <= j < d.status_history.len() ==> #[trigger] d.status_history[i].1
            <= #[trigger] d.status_history[j].1
}

/// The timestamp of a status is unset until the status is entered, and a
/// delivered parcel carries a code and its expiry.
pub open spec fn stamps_wf(d: DeliveryView) -> bool {
    let s = d.status;
    &&& s == DeliveryStatus::Pending ==> d.in_transit_at.is_none()
    &&& (s == DeliveryStatus::Pending || s == DeliveryStatus::InTransit) ==> d.delivered_at.is_none()
    &&& (s == DeliveryStatus::Pending || s == DeliveryStatus::InTransit || s
        == DeliveryStatus::Delivered) ==> d.confirmed_at.is_none()
    &&& holds_escrow(s) ==> d.escrow_released_at.is_none()
    &&& s == DeliveryStatus::Delivered ==> d.otp.is_some() && d.otp_expires_at.is_some()
}

/// A delivery that the lifecycle can hold.
pub open spec fn delivery_wf(d: DeliveryView) -> bool {
    &&& d.amount > 0
    &&& d.description.len() > 0
    &&& d.seller.len() <= 29
    &&& d.buyer.len() <= 29
    &&& history_wf(d)
    &&& stamps_wf(d)
}

/// Every timestamp in the history of `d` is at most `t`.
pub open spec fn recorded_by(d: DeliveryView, t: u64) -> bool {
    forall|i: int| 0 <= i < d.status_history.len() ==> #[trigger] d.status_history[i].1 <= t
}

/// No two deliveries share an id.
pub open spec fn ids_unique(ds: Seq<DeliveryView>) -> bool {
    forall|i: int, j: int|
        0 <= i < ds.len() && 0 <= j < ds.len() && i != j ==> #[trigger] ds[i].id != #[trigger] ds[j].id
}

/// Where the delivery with this id stands, if any.
pub open spec fn find(ds: Seq<DeliveryView>, id: Seq<char>) -> Option<int> {
    if exists|i: int| 0 <= i < ds.len() && #[trigger] ds[i].id == id {
        Some(choose|i: int| 0 <= i < ds.len() && #[trigger] ds[i].id == id)
    } else {
        None
    }
}

/// Each timestamp that `a` has set is set to the same value in `b`.
pub open spec fn stamps_kept(a: DeliveryView, b: DeliveryView) -> bool {
    &&& b.created_at == a.created_at
    &&& (a.in_transit_at.is_some() ==> b.in_transit_at == a.in_transit_at)
    &&& (a.delivered_at.is_some() ==> b.delivered_at == a.delivered_at)
    &&& (a.confirmed_at.is_some() ==> b.confirmed_at == a.confirmed_at)
    &&& (a.escrow_released_at.is_some() ==> b.escrow_released_at == a.escrow_released_at)
    &&& (a.cancelled_at.is_some() ==> b.cancelled_at == a.cancelled_at)
}

/// A new delivery in Pending, created at `now`.
pub open spec fn created(
    id: Seq<char>,
    seller: Seq<u8>,
    buyer: Seq<u8>,
    amount: u64,
    description: Seq<char>,
    now: u64,
) -> DeliveryView {
    DeliveryView {
        id,
        seller,
        buyer,
        amount,
        description,
        status: DeliveryStatus::Pending,
        created_at: now,
        in_transit_at: None,
        delivered_at: None,
        confirmed_at: None,
        escrow_released_at: None,
        cancelled_at: None,
        otp: None,
        otp_expires_at: None,
        status_history: seq![(DeliveryStatus::Pending, now)],
    }
}

/// The delivery once it is in transit.
pub open spec fn started(d: DeliveryView, now: u64) -> DeliveryView {
    DeliveryView {
        status: DeliveryStatus::InTransit,
        in_transit_at: Some(now),
        status_history: d.status_history.push((DeliveryStatus::InTransit, now)),
        ..d
    }
}

/// The delivery once it is delivered, with its code valid for an hour.
pub open spec fn delivered(d: DeliveryView, code: Seq<char>, now: u64) -> DeliveryView {
    DeliveryView {
        status: DeliveryStatus::Delivered,
        delivered_at: Some(now),
        otp: Some(code),
        otp_expires_at: Some((now + 3600) as u64),
        status_history: d.status_history.push((DeliveryStatus::Delivered, now)),
        ..d
    }
}

/// The delivery once its buyer confirmed it.
pub open spec fn confirmed(d: DeliveryView, now: u64) -> DeliveryView {
    DeliveryView {
        status: DeliveryStatus::Confirmed,
        confirmed_at: Some(now),
        status_history: d.status_history.push((DeliveryStatus::Confirmed, now)),
        ..d
    }
}

/// The delivery once its escrow went to the seller.
pub open spec fn released(d: DeliveryView, now: u64) -> DeliveryView {
    DeliveryView {
        status: DeliveryStatus::EscrowReleased,
        escrow_released_at: Some(now),
        status_history: d.status_history.push((DeliveryStatus::EscrowReleased, now)),
        ..d
    }
}

/// The outcome of a step that the seller takes from status `from`.
pub open spec fn seller_step(
    ds: Seq<DeliveryView>,
    caller: Seq<u8>,
    id: Seq<char>,
    from: DeliveryStatus,
) -> Result<(), DeliveryError> {
    match find(ds, id) {
        None => Err(DeliveryError::NotFound),
        Some(i) => if ds[i].seller != caller {
            Err(DeliveryError::Unauthorized)
        } else if ds[i].status != from {
            Err(DeliveryError::InvalidState)
        } else {
            Ok(())
        },
    }
}

/// The outcome of a confirmation with `code` at `now`, before a receipt is
/// minted.
pub open spec fn confirm_step(
    ds: Seq<DeliveryView>,
    caller: Seq<u8>,
    id: Seq<char>,
    code: Seq<char>,
    now: u64,
) -> Result<(), DeliveryError> {
    match find(ds, id) {
        None => Err(DeliveryError::NotFound),
        Some(i) => if ds[i].buyer != caller {
            Err(DeliveryError::Unauthorized)
        } else if ds[i].status != DeliveryStatus::Delivered {
            Err(DeliveryError::InvalidState)
        } else if ds[i].otp != Some(code) {
            Err(DeliveryError::OtpMismatch)
        } else if ds[i].otp_expires_at matches Some(e) && now > e {
            Err(DeliveryError::OtpExpired)
        } else {
            Ok(())
        },
    }
}

/// A JSON number, or `null` when there is none.
pub open spec fn json_number_of(o: Option<u64>) -> Seq<char> {
    match o {
        Some(n) => decimal_of(n as nat),
        None => "null"@,
    }
}

/// The metadata of the receipt for `d`: a JSON object with its keys in order.
pub open spec fn metadata_of(d: DeliveryView) -> Seq<char> {
    "{\"amount\":"@ + decimal_of(d.amount as nat) + ",\"buyer\":"@ + json_string_of(
        principal_text_of(d.buyer),
    ) + ",\"confirmed_at\":"@ + json_number_of(d.confirmed_at) + ",\"delivery_id\":"@
        + json_string_of(d.id) + ",\"description\":"@ + json_string_of(d.description)
        + ",\"seller\":"@ + json_string_of(principal_text_of(d.seller)) + "}"@
}

/// Changing one delivery changes the escrow by the difference of what the
/// old and the new one hold.
pub proof fn lemma_escrow_update(ds: Seq<DeliveryView>, i: int, d: DeliveryView)
    requires
        0 <= i < ds.len(),
    ensures
        escrow_sum(ds.update(i, d)) + escrow_of(ds[i]) == escrow_sum(ds) + escrow_of(d),
    decreases ds.len(),
{
    if i == ds.len() - 1 {
        assert(ds.update(i, d).drop_last() =~= ds.drop_last());
    } else {
        lemma_escrow_update(ds.drop_last(), i, d);
        assert(ds.update(i, d).drop_last() =~= ds.drop_last().update(i, d));
    }
}

/// Adding a delivery adds what it holds to the escrow.
pub proof fn lemma_escrow_push(ds: Seq<DeliveryView>, d: DeliveryView)
    ensures
        escrow_sum(ds.push(d)) == escrow_sum(ds) + escrow_of(d),
{
    assert(ds.push(d).drop_last() =~= ds);
}

/// One delivery holds no more than all of them together.
pub proof fn lemma_escrow_part(ds: Seq<DeliveryView>, i: int)
    requires
        0 <= i < ds.len(),
    ensures
        escrow_of(ds[i]) <= escrow_sum(ds),
{
    lemma_escrow_update(ds, i, DeliveryView { status: DeliveryStatus::EscrowReleased, ..ds[i] });
}

} // verus!
