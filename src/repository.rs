//! The store of deliveries, receipts, notifications and the escrow ledger,
//! and the operations that move a delivery through its lifecycle.

use vstd::prelude::*;
use crate::lifecycle::{
    confirm_step, confirmed, created, delivered, delivery_wf, escrow_sum, find,
    ids_unique, lemma_escrow_part, lemma_escrow_push, lemma_escrow_update, metadata_of,
    recorded_by, released, seller_step, started, history_wf,
};
use crate::model::{
    ConfirmDeliveryRequest, CreateDeliveryRequest, Delivery, DeliveryError, DeliveryNFT, DeliveryNFTView, DeliveryStatus,
    DeliveryView, Identity, Notification, NotificationView,
};
use crate::outside::{fresh_notification_id, json_string};
use crate::text::{
    all_decimal, code_value, decimal_of, generate_otp, generate_unique_id, hex_of, push_decimal,
};

verus! {

/// `after` is `before` with one more message, for `who`, with this text and
/// category, sent at `at`.
pub open spec fn notified(
    before: Seq<NotificationView>,
    after: Seq<NotificationView>,
    who: Seq<u8>,
    message: Seq<char>,
    kind: Seq<char>,
    at: u64,
) -> bool {
    &&& after.len() == before.len() + 1
    &&& after.drop_last() == before
    &&& after.last().says(who, message, kind, at)
}

/// No two receipts share an id.
pub open spec fn nft_ids_unique(ns: Seq<DeliveryNFTView>) -> bool {
    forall|i: int, j: int|
        0 <= i < ns.len() && 0 <= j < ns.len() && i != j ==> #[trigger] ns[i].id != #[trigger] ns[j].id
}

/// Whether a receipt has this id.
pub open spec fn nft_id_taken(ns: Seq<DeliveryNFTView>, id: Seq<char>) -> bool {
    exists|i: int| 0 <= i < ns.len() && #[trigger] ns[i].id == id
}

/// Whether a delivery is well formed; when it is, also the latest time in
/// its history.
pub fn check_delivery(d: &Delivery) -> (r: (bool, u64))
    ensures
        r.0 == delivery_wf(d@),
        r.0 ==> recorded_by(d@, r.1),
{
    if d.amount == 0 || d.description.as_str().is_empty() || d.seller.byte_len() > 29
        || d.buyer.byte_len() > 29 || d.status_history.len() == 0 {
        return (false, 0);
    }
    if d.status_history[d.status_history.len() - 1].0 != d.status {
        return (false, 0);
    }
    let mut i: usize = 1;
    while i < d.status_history.len()
        invariant
            1 <= i <= d.status_history@.len(),
            forall|a: int, b: int| 0 <= a <= b < i ==> #[trigger] d.status_history@[a].1 <= #[trigger] d.status_history@[b].1,
        decreases d.status_history@.len() - i,
    {
        if d.status_history[i].1 < d.status_history[i - 1].1 {
            assert(d@.status_history[i - 1].1 > d@.status_history[i as int].1);
            assert(!history_wf(d@));
            return (false, 0);
        }
        proof {
            assert forall|a: int, b: int| 0 <= a <= b < i + 1 implies #[trigger] d.status_history@[a].1
                <= #[trigger] d.status_history@[b].1 by {
                if b == i && a < i {
                    assert(d.status_history@[a].1 <= d.status_history@[i - 1].1);
                }
            }
        }
        i = i + 1;
    }
    let latest = d.status_history[d.status_history.len() - 1].1;
    assert(recorded_by(d@, latest)) by {
        assert forall|k: int| 0 <= k < d.status_history@.len() implies #[trigger] d.status_history@[k].1 <= latest by {
            assert(d.status_history@[k].1 <= d.status_history@[d.status_history@.len() - 1].1);
        }
    }
    let s = d.status;
    let pending = s == DeliveryStatus::Pending;
    let in_transit = s == DeliveryStatus::InTransit;
    let delivered = s == DeliveryStatus::Delivered;
    let confirmed = s == DeliveryStatus::Confirmed;
    let ok = (!pending || d.in_transit_at.is_none())
        && (!(pending || in_transit) || d.delivered_at.is_none())
        && (!(pending || in_transit || delivered) || d.confirmed_at.is_none())
        && (!(pending || in_transit || delivered || confirmed) || d.escrow_released_at.is_none())
        && (!delivered || (d.otp.is_some() && d.otp_expires_at.is_some()));
    (ok, latest)
}

/// The fixed answer of a running service to a liveness probe.
pub fn health_check() -> (r: String)
    ensures
        r@ == "ProofParcel canister is healthy"@,
{
    String::from_str("ProofParcel canister is healthy")
}

/// The deliveries that `who` sells.
pub open spec fn sold_by(ds: Seq<DeliveryView>, who: Seq<u8>) -> Seq<DeliveryView> {
    ds.filter(|d: DeliveryView| d.seller == who)
}

/// The deliveries that `who` buys.
pub open spec fn bought_by(ds: Seq<DeliveryView>, who: Seq<u8>) -> Seq<DeliveryView> {
    ds.filter(|d: DeliveryView| d.buyer == who)
}

/// The receipts that `who` owns.
pub open spec fn owned_by(ns: Seq<DeliveryNFTView>, who: Seq<u8>) -> Seq<DeliveryNFTView> {
    ns.filter(|n: DeliveryNFTView| n.owner == who)
}

/// The notifications for `who`.
pub open spec fn notices_for(ms: Seq<NotificationView>, who: Seq<u8>) -> Seq<NotificationView> {
    ms.filter(|m: NotificationView| m.principal == who)
}

/// The metadata of the receipt for a delivery: a JSON object of its id,
/// description, amount, confirmation time and parties.
pub fn nft_metadata(delivery: &Delivery) -> (r: String)
    requires
        delivery.seller.wf(),
        delivery.buyer.wf(),
    ensures
        r@ == metadata_of(delivery@),
{
    let mut s = String::from_str("{\"amount\":");
    push_decimal(&mut s, delivery.amount);
    s.append(",\"buyer\":");
    let buyer = json_string(&delivery.buyer.to_text());
    s.append(buyer.as_str());
    s.append(",\"confirmed_at\":");
    match delivery.confirmed_at {
        Some(t) => push_decimal(&mut s, t),
        None => s.append("null"),
    }
    s.append(",\"delivery_id\":");
    let id = json_string(&delivery.id);
    s.append(id.as_str());
    s.append(",\"description\":");
    let description = json_string(&delivery.description);
    s.append(description.as_str());
    s.append(",\"seller\":");
    let seller = json_string(&delivery.seller.to_text());
    s.append(seller.as_str());
    s.append("}");
    s
}

/// A checkpoint that describes a state of the workflow: well-formed
/// deliveries with unique ids, receipts with unique ids, and a ledger equal to
/// the value that the deliveries hold.
pub open spec fn snapshot_wf(ds: Seq<DeliveryView>, ns: Seq<DeliveryNFTView>, escrow: u64) -> bool {
    &&& forall|i: int| 0 <= i < ds.len() ==> delivery_wf(#[trigger] ds[i])
    &&& ids_unique(ds)
    &&& escrow == escrow_sum(ds)
    &&& nft_ids_unique(ns)
}

/// The escrow of a prefix is at most the escrow of the whole sequence.
proof fn lemma_escrow_prefix(ds: Seq<DeliveryView>, n: int)
    requires
        0 <= n <= ds.len(),
    ensures
        escrow_sum(ds.subrange(0, n)) <= escrow_sum(ds),
    decreases ds.len() - n,
{
    if n < ds.len() {
        lemma_escrow_prefix(ds, n + 1);
        assert(ds.subrange(0, n + 1).drop_last() =~= ds.subrange(0, n));
    } else {
        assert(ds.subrange(0, n) =~= ds);
    }
}

/// The authoritative state of the workflow.
pub struct Repository {
    deliveries: Vec<Delivery>,
    nfts: Vec<DeliveryNFT>,
    escrow_balance: u64,
    notifications: Vec<Notification>,
    clock: u64,
}

impl Repository {
    /// The deliveries, in order of creation.
    pub closed spec fn deliveries(&self) -> Seq<DeliveryView> {
        self.deliveries@.map_values(|d: Delivery| d@)
    }

    /// The receipts, in order of minting.
    pub closed spec fn nfts(&self) -> Seq<DeliveryNFTView> {
        self.nfts@.map_values(|n: DeliveryNFT| n@)
    }

    /// The escrow ledger.
    pub closed spec fn escrow(&self) -> u64 {
        self.escrow_balance
    }

    /// Every notification, in order of sending.
    pub closed spec fn notifications(&self) -> Seq<NotificationView> {
        self.notifications@.map_values(|n: Notification| n@)
    }

    /// The latest time that an operation was given.
    pub closed spec fn clock(&self) -> u64 {
        self.clock
    }

    /// The state invariant: each delivery is well formed and recorded no
    /// later than the clock, ids are unique, and the ledger equals the value
    /// that deliveries hold.
    pub open spec fn wf(&self) -> bool {
        &&& forall|i: int|
            0 <= i < self.deliveries().len() ==> delivery_wf(#[trigger] self.deliveries()[i])
                && recorded_by(self.deliveries()[i], self.clock())
        &&& ids_unique(self.deliveries())
        &&& self.escrow() == escrow_sum(self.deliveries())
        &&& nft_ids_unique(self.nfts())
    }

    /// An empty store.
    pub fn new() -> (r: Repository)
        ensures
            r.wf(),
            r.deliveries() == Seq::<DeliveryView>::empty(),
            r.nfts() == Seq::<DeliveryNFTView>::empty(),
            r.notifications() == Seq::<NotificationView>::empty(),
            r.escrow() == 0,
            r.clock() == 0,
    {
        let r = Repository {
            deliveries: Vec::new(),
            nfts: Vec::new(),
            escrow_balance: 0,
            notifications: Vec::new(),
            clock: 0,
        };
        assert(r.deliveries() =~= Seq::<DeliveryView>::empty());
        assert(r.nfts() =~= Seq::<DeliveryNFTView>::empty());
        assert(r.notifications() =~= Seq::<NotificationView>::empty());
        r
    }

    /// The latest time that an operation was given; later operations must
    /// not be given an earlier one.
    pub fn last_time(&self) -> (r: u64)
        ensures
            r == self.clock(),
    {
        self.clock
    }

    fn find_index(&self, id: &String) -> (r: Option<usize>)
        requires
            ids_unique(self.deliveries()),
        ensures
            match r {
                Some(i) => i < self.deliveries().len() && find(self.deliveries(), id@) == Some(
                    i as int,
                ),
                None => find(self.deliveries(), id@) is None,
            },
    {
        let ghost ds = self.deliveries();
        let mut i: usize = 0;
        while i < self.deliveries.len()
            invariant
                i <= self.deliveries@.len(),
                ds == self.deliveries(),
                ids_unique(ds),
                forall|k: int| 0 <= k < i ==> #[trigger] ds[k].id != id@,
            decreases self.deliveries@.len() - i,
        {
            if self.deliveries[i].id == *id {
                proof {
                    assert(ds[i as int].id == id@);
                    let j = choose|j: int| 0 <= j < ds.len() && #[trigger] ds[j].id == id@;
                    assert(ds[j].id == ds[i as int].id);
                }
                return Some(i);
            }
            i = i + 1;
        }
        None
    }

    fn add_notification(&mut self, principal: &Identity, message: String, notif_type: &str, now: u64)
        ensures
            final(self).deliveries() == old(self).deliveries(),
            final(self).nfts() == old(self).nfts(),
            final(self).escrow() == old(self).escrow(),
            final(self).clock() == old(self).clock(),
            notified(
                old(self).notifications(),
                final(self).notifications(),
                principal@,
                message@,
                notif_type@,
                now,
            ),
    {
        let notification = Notification {
            id: fresh_notification_id(),
            principal: principal.duplicate(),
            message,
            notif_type: notif_type.to_string(),
            timestamp: now,
            read: false,
        };
        let ghost v = notification@;
        self.notifications.push(notification);
        assert(self.notifications() =~= old(self).notifications().push(v));
        assert(self.notifications().drop_last() =~= old(self).notifications());
    }

    /// Opens a delivery from the caller, as seller, to the buyer of the
    /// request, with an id made from `id_bytes`; its amount goes into escrow.
    pub fn create_delivery(
        &mut self,
        caller: &Identity,
        request: CreateDeliveryRequest,
        id_bytes: &Vec<u8>,
        now: u64,
    ) -> (r: Result<String, DeliveryError>)
        requires
            old(self).wf(),
            caller.wf(),
            request.buyer.wf(),
            now >= old(self).clock(),
            old(self).escrow() + request.amount <= u64::MAX,
        ensures
            final(self).wf(),
            final(self).clock() == now,
            final(self).nfts() == old(self).nfts(),
            final(self).notifications() == old(self).notifications(),
            request.amount == 0 ==> r == Err::<String, DeliveryError>(DeliveryError::InvalidAmount),
            request.amount > 0 && request.description@.len() == 0 ==> r == Err::<
                String,
                DeliveryError,
            >(DeliveryError::InvalidDescription),
            request.amount > 0 && request.description@.len() > 0 && find(
                old(self).deliveries(),
                hex_of(id_bytes@),
            ) is Some ==> r == Err::<String, DeliveryError>(DeliveryError::IdCollision),
            request.amount > 0 && request.description@.len() > 0 && find(
                old(self).deliveries(),
                hex_of(id_bytes@),
            ) is None ==> (r matches Ok(id) && id@ == hex_of(id_bytes@)),
            r is Ok ==> final(self).deliveries() == old(self).deliveries().push(
                created(
                    hex_of(id_bytes@),
                    caller@,
                    request.buyer@,
                    request.amount,
                    request.description@,
                    now,
                ),
            ) && final(self).escrow() == old(self).escrow() + request.amount,
            r is Err ==> final(self).deliveries() == old(self).deliveries() && final(self).escrow()
                == old(self).escrow(),
    {
        let ghost ds = self.deliveries();
        self.clock = now;
        if request.amount == 0 {
            return Err(DeliveryError::InvalidAmount);
        }
        if request.description.as_str().is_empty() {
            return Err(DeliveryError::InvalidDescription);
        }
        let delivery_id = generate_unique_id(id_bytes);
        if self.find_index(&delivery_id).is_some() {
            return Err(DeliveryError::IdCollision);
        }
        let mut history: Vec<(DeliveryStatus, u64)> = Vec::new();
        history.push((DeliveryStatus::Pending, now));
        let delivery = Delivery {
            id: delivery_id.clone(),
            seller: caller.duplicate(),
            buyer: request.buyer.duplicate(),
            amount: request.amount,
            description: request.description,
            status: DeliveryStatus::Pending,
            created_at: now,
            in_transit_at: None,
            delivered_at: None,
            confirmed_at: None,
            escrow_released_at: None,
            cancelled_at: None,
            otp: None,
            otp_expires_at: None,
            status_history: history,
        };
        let ghost d = delivery@;
        assert(d.status_history =~= seq![(DeliveryStatus::Pending, now)]);
        self.deliveries.push(delivery);
        self.escrow_balance = self.escrow_balance + request.amount;
        proof {
            assert(self.deliveries() =~= ds.push(d));
            lemma_escrow_push(ds, d);
            assert(delivery_wf(d));
            assert(recorded_by(d, now));
            assert forall|i: int| 0 <= i < ds.len() implies #[trigger] ds[i].id != d.id by {
                if ds[i].id == d.id {
                    assert(find(ds, d.id) is Some);
                }
            }
        }
        Ok(delivery_id)
    }

    /// The seller marks a pending delivery as in transit; the buyer is told.
    pub fn start_delivery(&mut self, caller: &Identity, delivery_id: String, now: u64) -> (r: Result<
        (),
        DeliveryError,
    >)
        requires
            old(self).wf(),
            now >= old(self).clock(),
        ensures
            final(self).wf(),
            final(self).clock() == now,
            final(self).nfts() == old(self).nfts(),
            final(self).escrow() == old(self).escrow(),
            r == seller_step(old(self).deliveries(), caller@, delivery_id@, DeliveryStatus::Pending),
            r is Ok ==> {
                let i = find(old(self).deliveries(), delivery_id@)->Some_0;
                let d = old(self).deliveries()[i];
                &&& final(self).deliveries() == old(self).deliveries().update(i, started(d, now))
                &&& notified(
                    old(self).notifications(),
                    final(self).notifications(),
                    d.buyer,
                    "Your delivery "@ + delivery_id@ + " is now in transit!"@,
                    "info"@,
                    now,
                )
            },
            r is Err ==> final(self).deliveries() == old(self).deliveries() && final(self).notifications()
                == old(self).notifications(),
    {
        let ghost ds = self.deliveries();
        self.clock = now;
        let i = match self.find_index(&delivery_id) {
            None => {
                return Err(DeliveryError::NotFound);
            },
            Some(i) => i,
        };
        if !self.deliveries[i].seller.same(caller) {
            return Err(DeliveryError::Unauthorized);
        }
        if self.deliveries[i].status != DeliveryStatus::Pending {
            return Err(DeliveryError::InvalidState);
        }
        let ghost nd = started(ds[i as int], now);
        self.deliveries[i].status = DeliveryStatus::InTransit;
        self.deliveries[i].in_transit_at = Some(now);
        self.deliveries[i].status_history.push((DeliveryStatus::InTransit, now));
        proof {
            assert(self.deliveries@[i as int]@ == nd);
            assert(self.deliveries() =~= ds.update(i as int, nd));
            lemma_escrow_update(ds, i as int, nd);
            self.lemma_step_keeps_wf(ds, i as int, nd, now);
        }
        let buyer = self.deliveries[i].buyer.duplicate();
        let mut message = String::from_str("Your delivery ");
        message.append(delivery_id.as_str());
        message.append(" is now in transit!");
        self.add_notification(&buyer, message, "info", now);
        Ok(())
    }

    /// The seller hands over a delivery in transit: a code is made from
    /// `rand_bytes`, valid for an hour, and the buyer is told.
    pub fn generate_delivery_otp(
        &mut self,
        caller: &Identity,
        delivery_id: String,
        rand_bytes: &Vec<u8>,
        now: u64,
    ) -> (r: Result<String, DeliveryError>)
        requires
            old(self).wf(),
            now >= old(self).clock(),
            now <= u64::MAX - 3600,
            rand_bytes@.len() >= 4,
        ensures
            final(self).wf(),
            final(self).clock() == now,
            final(self).nfts() == old(self).nfts(),
            final(self).escrow() == old(self).escrow(),
            seller_step(old(self).deliveries(), caller@, delivery_id@, DeliveryStatus::InTransit) matches Err(e)
                ==> r == Err::<String, DeliveryError>(e),
            seller_step(old(self).deliveries(), caller@, delivery_id@, DeliveryStatus::InTransit) is Ok
                ==> (r matches Ok(code) && code@ == decimal_of(code_value(rand_bytes@))),
            r matches Ok(code) ==> code@.len() == 6 && all_decimal(code@),
            r is Ok ==> {
                let i = find(old(self).deliveries(), delivery_id@)->Some_0;
                let d = old(self).deliveries()[i];
                let code = decimal_of(code_value(rand_bytes@));
                &&& final(self).deliveries() == old(self).deliveries().update(i, delivered(d, code, now))
                &&& notified(
                    old(self).notifications(),
                    final(self).notifications(),
                    d.buyer,
                    "Your delivery "@ + delivery_id@ + " is now delivered! OTP generated."@,
                    "info"@,
                    now,
                )
            },
            r is Err ==> final(self).deliveries() == old(self).deliveries() && final(self).notifications()
                == old(self).notifications(),
    {
        let ghost ds = self.deliveries();
        self.clock = now;
        let otp = generate_otp(rand_bytes);
        let i = match self.find_index(&delivery_id) {
            None => {
                return Err(DeliveryError::NotFound);
            },
            Some(i) => i,
        };
        if !self.deliveries[i].seller.same(caller) {
            return Err(DeliveryError::Unauthorized);
        }
        if self.deliveries[i].status != DeliveryStatus::InTransit {
            return Err(DeliveryError::InvalidState);
        }
        let ghost nd = delivered(ds[i as int], otp@, now);
        self.deliveries[i].otp = Some(otp.clone());
        self.deliveries[i].otp_expires_at = Some(now + 3600);
        self.deliveries[i].status = DeliveryStatus::Delivered;
        self.deliveries[i].delivered_at = Some(now);
        self.deliveries[i].status_history.push((DeliveryStatus::Delivered, now));
        proof {
            assert(self.deliveries@[i as int]@ == nd);
            assert(self.deliveries() =~= ds.update(i as int, nd));
            lemma_escrow_update(ds, i as int, nd);
            self.lemma_step_keeps_wf(ds, i as int, nd, now);
        }
        let buyer = self.deliveries[i].buyer.duplicate();
        let mut message = String::from_str("Your delivery ");
        message.append(delivery_id.as_str());
        message.append(" is now delivered! OTP generated.");
        self.add_notification(&buyer, message, "info", now);
        Ok(otp)
    }

    /// The seller takes the escrow of a confirmed delivery; the ledger drops
    /// by its amount and the seller is told.
    pub fn release_escrow(&mut self, caller: &Identity, delivery_id: String, now: u64) -> (r: Result<
        (),
        DeliveryError,
    >)
        requires
            old(self).wf(),
            now >= old(self).clock(),
        ensures
            final(self).wf(),
            final(self).clock() == now,
            final(self).nfts() == old(self).nfts(),
            r == seller_step(old(self).deliveries(), caller@, delivery_id@, DeliveryStatus::Confirmed),
            r is Ok ==> {
                let i = find(old(self).deliveries(), delivery_id@)->Some_0;
                let d = old(self).deliveries()[i];
                &&& final(self).deliveries() == old(self).deliveries().update(i, released(d, now))
                &&& final(self).escrow() == old(self).escrow() - d.amount
                &&& notified(
                    old(self).notifications(),
                    final(self).notifications(),
                    d.seller,
                    "Escrow released for delivery "@ + delivery_id@ + "!"@,
                    "success"@,
                    now,
                )
            },
            r is Err ==> final(self).deliveries() == old(self).deliveries() && final(self).escrow()
                == old(self).escrow() && final(self).notifications() == old(self).notifications(),
    {
        let ghost ds = self.deliveries();
        self.clock = now;
        let i = match self.find_index(&delivery_id) {
            None => {
                return Err(DeliveryError::NotFound);
            },
            Some(i) => i,
        };
        if !self.deliveries[i].seller.same(caller) {
            return Err(DeliveryError::Unauthorized);
        }
        if self.deliveries[i].status != DeliveryStatus::Confirmed {
            return Err(DeliveryError::InvalidState);
        }
        let ghost nd = released(ds[i as int], now);
        proof {
            lemma_escrow_part(ds, i as int);
        }
        let amount = self.deliveries[i].amount;
        self.deliveries[i].status = DeliveryStatus::EscrowReleased;
        self.deliveries[i].escrow_released_at = Some(now);
        self.deliveries[i].status_history.push((DeliveryStatus::EscrowReleased, now));
        self.escrow_balance = self.escrow_balance - amount;
        proof {
            assert(self.deliveries@[i as int]@ == nd);
            assert(self.deliveries() =~= ds.update(i as int, nd));
            lemma_escrow_update(ds, i as int, nd);
            self.lemma_step_keeps_wf(ds, i as int, nd, now);
        }
        let seller = self.deliveries[i].seller.duplicate();
        let mut message = String::from_str("Escrow released for delivery ");
        message.append(delivery_id.as_str());
        message.append("!");
        self.add_notification(&seller, message, "success", now);
        Ok(())
    }

    fn nft_id_in_use(&self, id: &String) -> (r: bool)
        ensures
            r == nft_id_taken(self.nfts(), id@),
    {
        let ghost ns = self.nfts();
        let mut i: usize = 0;
        while i < self.nfts.len()
            invariant
                i <= self.nfts@.len(),
                ns == self.nfts(),
                forall|k: int| 0 <= k < i ==> #[trigger] ns[k].id != id@,
            decreases self.nfts@.len() - i,
        {
            if self.nfts[i].id == *id {
                assert(ns[i as int].id == id@);
                return true;
            }
            i = i + 1;
        }
        false
    }

    /// Mints the receipt for delivery `i`, owned by its buyer, and tells the
    /// buyer.
    fn mint_delivery_nft(&mut self, i: usize, nft_id: String, now: u64)
        requires
            i < old(self).deliveries().len(),
            delivery_wf(old(self).deliveries()[i as int]),
        ensures
            final(self).deliveries() == old(self).deliveries(),
            final(self).escrow() == old(self).escrow(),
            final(self).clock() == old(self).clock(),
            final(self).nfts() == old(self).nfts().push(
                (DeliveryNFTView {
                    id: nft_id@,
                    delivery_id: old(self).deliveries()[i as int].id,
                    owner: old(self).deliveries()[i as int].buyer,
                    metadata: metadata_of(old(self).deliveries()[i as int]),
                    minted_at: now,
                }),
            ),
            notified(
                old(self).notifications(),
                final(self).notifications(),
                old(self).deliveries()[i as int].buyer,
                "NFT minted for delivery "@ + old(self).deliveries()[i as int].id + "!"@,
                "success"@,
                now,
            ),
    {
        let ghost ns = self.nfts();
        let metadata = nft_metadata(&self.deliveries[i]);
        let nft = DeliveryNFT {
            id: nft_id,
            delivery_id: self.deliveries[i].id.clone(),
            owner: self.deliveries[i].buyer.duplicate(),
            metadata,
            minted_at: now,
        };
        let ghost v = nft@;
        self.nfts.push(nft);
        assert(self.nfts() =~= ns.push(v));
        let buyer = self.deliveries[i].buyer.duplicate();
        let mut message = String::from_str("NFT minted for delivery ");
        message.append(self.deliveries[i].id.as_str());
        message.append("!");
        self.add_notification(&buyer, message, "success", now);
    }

    /// The buyer confirms receipt with the code that was issued: the delivery
    /// becomes Confirmed, both parties are told, and a receipt with an id made
    /// from `nft_id_bytes` is minted for the buyer. Returns the receipt's id.
    pub fn confirm_delivery(
        &mut self,
        caller: &Identity,
        request: ConfirmDeliveryRequest,
        nft_id_bytes: &Vec<u8>,
        now: u64,
    ) -> (r: Result<String, DeliveryError>)
        requires
            old(self).wf(),
            now >= old(self).clock(),
        ensures
            final(self).wf(),
            final(self).clock() == now,
            final(self).escrow() == old(self).escrow(),
            confirm_step(old(self).deliveries(), caller@, request.delivery_id@, request.otp@, now) matches Err(e)
                ==> r == Err::<String, DeliveryError>(e),
            confirm_step(old(self).deliveries(), caller@, request.delivery_id@, request.otp@, now) is Ok
                && nft_id_taken(old(self).nfts(), hex_of(nft_id_bytes@)) ==> r == Err::<
                String,
                DeliveryError,
            >(DeliveryError::IdCollision),
            confirm_step(old(self).deliveries(), caller@, request.delivery_id@, request.otp@, now) is Ok
                && !nft_id_taken(old(self).nfts(), hex_of(nft_id_bytes@)) ==> (r matches Ok(id) && id@
                == hex_of(nft_id_bytes@)),
            r is Ok ==> {
                let i = find(old(self).deliveries(), request.delivery_id@)->Some_0;
                let d = old(self).deliveries()[i];
                let n = old(self).notifications().len() as int;
                let id = request.delivery_id@;
                &&& final(self).deliveries() == old(self).deliveries().update(i, confirmed(d, now))
                &&& final(self).nfts() == old(self).nfts().push(
                    (DeliveryNFTView {
                        id: hex_of(nft_id_bytes@),
                        delivery_id: d.id,
                        owner: d.buyer,
                        metadata: metadata_of(confirmed(d, now)),
                        minted_at: now,
                    }),
                )
                &&& final(self).notifications().len() == n + 3
                &&& final(self).notifications().subrange(0, n) == old(self).notifications()
                &&& final(self).notifications()[n].says(
                    d.seller,
                    "Delivery "@ + id + " has been confirmed by the buyer!"@,
                    "success"@,
                    now,
                )
                &&& final(self).notifications()[n + 1].says(
                    d.buyer,
                    "You have confirmed delivery "@ + id + "!"@,
                    "success"@,
                    now,
                )
                &&& final(self).notifications()[n + 2].says(
                    d.buyer,
                    "NFT minted for delivery "@ + id + "!"@,
                    "success"@,
                    now,
                )
            },
            r is Err ==> final(self).deliveries() == old(self).deliveries() && final(self).nfts()
                == old(self).nfts() && final(self).notifications() == old(self).notifications(),
    {
        let ghost ds = self.deliveries();
        let ghost ns = self.nfts();
        let ghost ms = self.notifications();
        self.clock = now;
        let i = match self.find_index(&request.delivery_id) {
            None => {
                return Err(DeliveryError::NotFound);
            },
            Some(i) => i,
        };
        if !self.deliveries[i].buyer.same(caller) {
            return Err(DeliveryError::Unauthorized);
        }
        if self.deliveries[i].status != DeliveryStatus::Delivered {
            return Err(DeliveryError::InvalidState);
        }
        match &self.deliveries[i].otp {
            Some(stored) => {
                if !(*stored == request.otp) {
                    return Err(DeliveryError::OtpMismatch);
                }
            },
            None => {
                // A delivered parcel always carries a code.
                return Err(DeliveryError::InvalidState);
            },
        }
        match self.deliveries[i].otp_expires_at {
            Some(expires_at) => {
                if now > expires_at {
                    return Err(DeliveryError::OtpExpired);
                }
            },
            None => {},
        }
        let nft_id = generate_unique_id(nft_id_bytes);
        if self.nft_id_in_use(&nft_id) {
            return Err(DeliveryError::IdCollision);
        }
        let ghost nd = confirmed(ds[i as int], now);
        self.deliveries[i].status = DeliveryStatus::Confirmed;
        self.deliveries[i].confirmed_at = Some(now);
        self.deliveries[i].status_history.push((DeliveryStatus::Confirmed, now));
        proof {
            assert(self.deliveries@[i as int]@ == nd);
            assert(self.deliveries() =~= ds.update(i as int, nd));
            lemma_escrow_update(ds, i as int, nd);
            self.lemma_step_keeps_wf(ds, i as int, nd, now);
        }
        let seller = self.deliveries[i].seller.duplicate();
        let buyer = self.deliveries[i].buyer.duplicate();
        let mut to_seller = String::from_str("Delivery ");
        to_seller.append(request.delivery_id.as_str());
        to_seller.append(" has been confirmed by the buyer!");
        self.add_notification(&seller, to_seller, "success", now);
        let mut to_buyer = String::from_str("You have confirmed delivery ");
        to_buyer.append(request.delivery_id.as_str());
        to_buyer.append("!");
        self.add_notification(&buyer, to_buyer, "success", now);
        let ghost ms2 = self.notifications();
        self.mint_delivery_nft(i, nft_id.clone(), now);
        proof {
            let n = ms.len() as int;
            let fin = self.notifications();
            assert(fin.drop_last() == ms2);
            assert(ms2.drop_last().drop_last() == ms);
            assert(fin[n] == ms2[n]);
            assert(fin[n + 1] == ms2[n + 1]);
            assert(fin.subrange(0, n) =~= ms);
            assert forall|a: int, b: int|
                0 <= a < self.nfts().len() && 0 <= b < self.nfts().len() && a != b implies #[trigger] self.nfts()[a].id
                != #[trigger] self.nfts()[b].id by {
                if a < ns.len() && b < ns.len() {
                    assert(self.nfts()[a] == ns[a]);
                    assert(self.nfts()[b] == ns[b]);
                } else if a < ns.len() {
                    assert(self.nfts()[a] == ns[a]);
                } else {
                    assert(self.nfts()[b] == ns[b]);
                }
            }
        }
        Ok(nft_id)
    }

    /// The delivery with this id, if any.
    pub fn get_delivery(&self, delivery_id: String) -> (r: Option<Delivery>)
        requires
            self.wf(),
        ensures
            match find(self.deliveries(), delivery_id@) {
                None => r is None,
                Some(i) => r matches Some(d) && d@ == self.deliveries()[i],
            },
    {
        match self.find_index(&delivery_id) {
            None => None,
            Some(i) => Some(self.deliveries[i].duplicate()),
        }
    }

    /// The deliveries that `seller` sells, in order of creation.
    pub fn get_deliveries_by_seller(&self, seller: &Identity) -> (r: Vec<Delivery>)
        ensures
            r@.map_values(|d: Delivery| d@) == sold_by(self.deliveries(), seller@),
    {
        let ghost ds = self.deliveries();
        let mut r: Vec<Delivery> = Vec::new();
        let mut i: usize = 0;
        while i < self.deliveries.len()
            invariant
                i <= self.deliveries@.len(),
                ds == self.deliveries(),
                r@.map_values(|d: Delivery| d@) == sold_by(ds.subrange(0, i as int), seller@),
            decreases self.deliveries@.len() - i,
        {
            let ghost before = r@;
            if self.deliveries[i].seller.same(seller) {
                r.push(self.deliveries[i].duplicate());
                assert(r@.map_values(|d: Delivery| d@) =~= before.map_values(|d: Delivery| d@).push(ds[i as int]));
            }
            proof {
                reveal(Seq::filter);
                let whole = ds.subrange(0, i + 1);
                assert(whole.drop_last() =~= ds.subrange(0, i as int));
                assert(whole.last() == ds[i as int]);
                assert(sold_by(whole, seller@) == if ds[i as int].seller == seller@ {
                    sold_by(ds.subrange(0, i as int), seller@).push(ds[i as int])
                } else {
                    sold_by(ds.subrange(0, i as int), seller@)
                });
            }
            i = i + 1;
        }
        assert(ds.subrange(0, i as int) =~= ds);
        r
    }

    /// The deliveries that `buyer` buys, in order of creation.
    pub fn get_deliveries_by_buyer(&self, buyer: &Identity) -> (r: Vec<Delivery>)
        ensures
            r@.map_values(|d: Delivery| d@) == bought_by(self.deliveries(), buyer@),
    {
        let ghost ds = self.deliveries();
        let mut r: Vec<Delivery> = Vec::new();
        let mut i: usize = 0;
        while i < self.deliveries.len()
            invariant
                i <= self.deliveries@.len(),
                ds == self.deliveries(),
                r@.map_values(|d: Delivery| d@) == bought_by(ds.subrange(0, i as int), buyer@),
            decreases self.deliveries@.len() - i,
        {
            let ghost before = r@;
            if self.deliveries[i].buyer.same(buyer) {
                r.push(self.deliveries[i].duplicate());
                assert(r@.map_values(|d: Delivery| d@) =~= before.map_values(|d: Delivery| d@).push(ds[i as int]));
            }
            proof {
                reveal(Seq::filter);
                let whole = ds.subrange(0, i + 1);
                assert(whole.drop_last() =~= ds.subrange(0, i as int));
                assert(whole.last() == ds[i as int]);
                assert(bought_by(whole, buyer@) == if ds[i as int].buyer == buyer@ {
                    bought_by(ds.subrange(0, i as int), buyer@).push(ds[i as int])
                } else {
                    bought_by(ds.subrange(0, i as int), buyer@)
                });
            }
            i = i + 1;
        }
        assert(ds.subrange(0, i as int) =~= ds);
        r
    }

    /// Every delivery, in order of creation.
    pub fn get_all_deliveries(&self) -> (r: Vec<Delivery>)
        ensures
            r@.map_values(|d: Delivery| d@) == self.deliveries(),
    {
        let ghost ds = self.deliveries();
        let mut r: Vec<Delivery> = Vec::new();
        let mut i: usize = 0;
        while i < self.deliveries.len()
            invariant
                i <= self.deliveries@.len(),
                ds == self.deliveries(),
                r@.map_values(|d: Delivery| d@) == ds.subrange(0, i as int),
            decreases self.deliveries@.len() - i,
        {
            let ghost before = r@;
            r.push(self.deliveries[i].duplicate());
            assert(r@.map_values(|d: Delivery| d@) =~= before.map_values(|d: Delivery| d@).push(ds[i as int]));
            assert(ds.subrange(0, i + 1) =~= ds.subrange(0, i as int).push(ds[i as int]));
            i = i + 1;
        }
        assert(ds.subrange(0, i as int) =~= ds);
        r
    }

    /// The receipt with this id, if any.
    pub fn get_delivery_nft(&self, nft_id: String) -> (r: Option<DeliveryNFT>)
        requires
            self.wf(),
        ensures
            !nft_id_taken(self.nfts(), nft_id@) ==> r is None,
            nft_id_taken(self.nfts(), nft_id@) ==> (r matches Some(n) && n@.id == nft_id@
                && self.nfts().contains(n@)),
    {
        let ghost ns = self.nfts();
        let mut i: usize = 0;
        while i < self.nfts.len()
            invariant
                i <= self.nfts@.len(),
                ns == self.nfts(),
                forall|k: int| 0 <= k < i ==> #[trigger] ns[k].id != nft_id@,
            decreases self.nfts@.len() - i,
        {
            if self.nfts[i].id == nft_id {
                let n = self.nfts[i].duplicate();
                assert(ns[i as int] == n@);
                assert(ns[i as int].id == nft_id@);
                return Some(n);
            }
            i = i + 1;
        }
        None
    }

    /// The receipts that `owner` owns, in order of minting.
    pub fn get_nfts_by_owner(&self, owner: &Identity) -> (r: Vec<DeliveryNFT>)
        ensures
            r@.map_values(|n: DeliveryNFT| n@) == owned_by(self.nfts(), owner@),
    {
        let ghost ns = self.nfts();
        let mut r: Vec<DeliveryNFT> = Vec::new();
        let mut i: usize = 0;
        while i < self.nfts.len()
            invariant
                i <= self.nfts@.len(),
                ns == self.nfts(),
                r@.map_values(|n: DeliveryNFT| n@) == owned_by(ns.subrange(0, i as int), owner@),
            decreases self.nfts@.len() - i,
        {
            let ghost before = r@;
            if self.nfts[i].owner.same(owner) {
                r.push(self.nfts[i].duplicate());
                assert(r@.map_values(|n: DeliveryNFT| n@) =~= before.map_values(|n: DeliveryNFT| n@).push(ns[i as int]));
            }
            proof {
                reveal(Seq::filter);
                let whole = ns.subrange(0, i + 1);
                assert(whole.drop_last() =~= ns.subrange(0, i as int));
                assert(whole.last() == ns[i as int]);
                assert(owned_by(whole, owner@) == if ns[i as int].owner == owner@ {
                    owned_by(ns.subrange(0, i as int), owner@).push(ns[i as int])
                } else {
                    owned_by(ns.subrange(0, i as int), owner@)
                });
            }
            i = i + 1;
        }
        assert(ns.subrange(0, i as int) =~= ns);
        r
    }

    /// The escrow ledger: the value that deliveries still hold.
    pub fn get_escrow_balance(&self) -> (r: u64)
        ensures
            r == self.escrow(),
    {
        self.escrow_balance
    }

    /// The notifications for `principal`, in order of sending.
    pub fn get_notifications(&self, principal: &Identity) -> (r: Vec<Notification>)
        ensures
            r@.map_values(|m: Notification| m@) == notices_for(self.notifications(), principal@),
    {
        let ghost ms = self.notifications();
        let mut r: Vec<Notification> = Vec::new();
        let mut i: usize = 0;
        while i < self.notifications.len()
            invariant
                i <= self.notifications@.len(),
                ms == self.notifications(),
                r@.map_values(|m: Notification| m@) == notices_for(ms.subrange(0, i as int), principal@),
            decreases self.notifications@.len() - i,
        {
            let ghost before = r@;
            if self.notifications[i].principal.same(principal) {
                r.push(self.notifications[i].duplicate());
                assert(r@.map_values(|m: Notification| m@) =~= before.map_values(|m: Notification| m@).push(ms[i as int]));
            }
            proof {
                reveal(Seq::filter);
                let whole = ms.subrange(0, i + 1);
                assert(whole.drop_last() =~= ms.subrange(0, i as int));
                assert(whole.last() == ms[i as int]);
                assert(notices_for(whole, principal@) == if ms[i as int].principal == principal@ {
                    notices_for(ms.subrange(0, i as int), principal@).push(ms[i as int])
                } else {
                    notices_for(ms.subrange(0, i as int), principal@)
                });
            }
            i = i + 1;
        }
        assert(ms.subrange(0, i as int) =~= ms);
        r
    }

    /// What a checkpoint holds: the deliveries, the receipts and the escrow
    /// ledger. Notifications are not part of it.
    pub fn checkpoint(&self) -> (r: (Vec<Delivery>, Vec<DeliveryNFT>, u64))
        ensures
            r.0@.map_values(|d: Delivery| d@) == self.deliveries(),
            r.1@.map_values(|n: DeliveryNFT| n@) == self.nfts(),
            r.2 == self.escrow(),
    {
        let deliveries = self.get_all_deliveries();
        let ghost ns = self.nfts();
        let mut nfts: Vec<DeliveryNFT> = Vec::new();
        let mut i: usize = 0;
        while i < self.nfts.len()
            invariant
                i <= self.nfts@.len(),
                ns == self.nfts(),
                nfts@.map_values(|n: DeliveryNFT| n@) == ns.subrange(0, i as int),
            decreases self.nfts@.len() - i,
        {
            let ghost before = nfts@;
            nfts.push(self.nfts[i].duplicate());
            assert(nfts@.map_values(|n: DeliveryNFT| n@) =~= before.map_values(|n: DeliveryNFT| n@).push(ns[i as int]));
            assert(ns.subrange(0, i + 1) =~= ns.subrange(0, i as int).push(ns[i as int]));
            i = i + 1;
        }
        assert(ns.subrange(0, i as int) =~= ns);
        (deliveries, nfts, self.escrow_balance)
    }

    /// The state that a checkpoint describes, with no notifications; `None`
    /// when the checkpoint breaks the state invariant.
    pub fn restore(deliveries: Vec<Delivery>, nfts: Vec<DeliveryNFT>, escrow: u64) -> (r: Option<Repository>)
        ensures
            r is Some <==> snapshot_wf(
                deliveries@.map_values(|d: Delivery| d@),
                nfts@.map_values(|n: DeliveryNFT| n@),
                escrow,
            ),
            r matches Some(repo) ==> {
                &&& repo.wf()
                &&& repo.deliveries() == deliveries@.map_values(|d: Delivery| d@)
                &&& repo.nfts() == nfts@.map_values(|n: DeliveryNFT| n@)
                &&& repo.escrow() == escrow
                &&& repo.notifications() == Seq::<NotificationView>::empty()
            },
    {
        let ghost ds = deliveries@.map_values(|d: Delivery| d@);
        let ghost ns = nfts@.map_values(|n: DeliveryNFT| n@);
        let mut clock: u64 = 0;
        let mut sum: u64 = 0;
        let mut i: usize = 0;
        while i < deliveries.len()
            invariant
                i <= deliveries@.len(),
                ds == deliveries@.map_values(|d: Delivery| d@),
                forall|k: int| 0 <= k < i ==> delivery_wf(#[trigger] ds[k]) && recorded_by(ds[k], clock),
                forall|a: int, b: int| 0 <= a < i && 0 <= b < i && a != b ==> #[trigger] ds[a].id != #[trigger] ds[b].id,
                sum == escrow_sum(ds.subrange(0, i as int)),
            decreases deliveries@.len() - i,
        {
            let (ok, latest) = check_delivery(&deliveries[i]);
            if !ok {
                assert(!delivery_wf(ds[i as int]));
                return None;
            }
            let mut j: usize = 0;
            while j < i
                invariant
                    j <= i < deliveries@.len(),
                    ds == deliveries@.map_values(|d: Delivery| d@),
                    forall|k: int| 0 <= k < j ==> #[trigger] ds[k].id != ds[i as int].id,
                decreases i - j,
            {
                if deliveries[j].id == deliveries[i].id {
                    assert(ds[j as int].id == ds[i as int].id);
                    assert(!ids_unique(ds));
                    return None;
                }
                j = j + 1;
            }
            let ghost old_clock = clock;
            if latest > clock {
                clock = latest;
            }
            proof {
                assert forall|k: int| 0 <= k <= i implies recorded_by(#[trigger] ds[k], clock) by {
                    if k < i {
                        assert(recorded_by(ds[k], old_clock));
                        assert forall|m: int| 0 <= m < ds[k].status_history.len() implies #[trigger] ds[k].status_history[m].1 <= clock by {
                            assert(ds[k].status_history[m].1 <= old_clock);
                        }
                    } else {
                        assert forall|m: int| 0 <= m < ds[k].status_history.len() implies #[trigger] ds[k].status_history[m].1 <= clock by {
                            assert(ds[k].status_history[m].1 <= latest);
                        }
                    }
                }
                assert(ds.subrange(0, i + 1).drop_last() =~= ds.subrange(0, i as int));
            }
            let held: u64 = if deliveries[i].status == DeliveryStatus::Pending || deliveries[i].status
                == DeliveryStatus::InTransit || deliveries[i].status == DeliveryStatus::Delivered
                || deliveries[i].status == DeliveryStatus::Confirmed {
                deliveries[i].amount
            } else {
                0
            };
            if held > u64::MAX - sum {
                proof {
                    lemma_escrow_prefix(ds, i as int + 1);
                }
                return None;
            }
            sum = sum + held;
            i = i + 1;
        }
        assert(ds.subrange(0, i as int) =~= ds);
        if sum != escrow {
            return None;
        }
        let mut a: usize = 0;
        while a < nfts.len()
            invariant
                a <= nfts@.len(),
                ns == nfts@.map_values(|n: DeliveryNFT| n@),
                forall|x: int, y: int| 0 <= x < a && 0 <= y < a && x != y ==> #[trigger] ns[x].id != #[trigger] ns[y].id,
            decreases nfts@.len() - a,
        {
            let mut b: usize = 0;
            while b < a
                invariant
                    b <= a < nfts@.len(),
                    ns == nfts@.map_values(|n: DeliveryNFT| n@),
                    forall|k: int| 0 <= k < b ==> #[trigger] ns[k].id != ns[a as int].id,
                decreases a - b,
            {
                if nfts[b].id == nfts[a].id {
                    assert(ns[b as int].id == ns[a as int].id);
                    return None;
                }
                b = b + 1;
            }
            a = a + 1;
        }
        let repo = Repository { deliveries, nfts, escrow_balance: escrow, notifications: Vec::new(), clock };
        assert(repo.deliveries() == ds);
        assert(repo.nfts() == ns);
        assert(repo.notifications() =~= Seq::<NotificationView>::empty());
        Some(repo)
    }

    /// Replacing delivery `i` of a well-formed `ds` by a well-formed `nd` that
    /// keeps its id and appends one entry at `now` keeps the invariant.
    proof fn lemma_step_keeps_wf(&self, ds: Seq<DeliveryView>, i: int, nd: DeliveryView, now: u64)
        requires
            0 <= i < ds.len(),
            self.deliveries() == ds.update(i, nd),
            self.clock() == now,
            forall|k: int|
                0 <= k < ds.len() ==> delivery_wf(#[trigger] ds[k]) && recorded_by(ds[k], now),
            ids_unique(ds),
            nd.id == ds[i].id,
            nd.status_history == ds[i].status_history.push((nd.status, now)),
            delivery_wf(nd),
            self.escrow() == escrow_sum(self.deliveries()),
            nft_ids_unique(self.nfts()),
        ensures
            self.wf(),
    {
        let nds = self.deliveries();
        assert forall|k: int| 0 <= k < nds.len() implies delivery_wf(#[trigger] nds[k])
            && recorded_by(nds[k], now) by {
            if k == i {
                assert forall|m: int| 0 <= m < nd.status_history.len() implies #[trigger] nd.status_history[m].1
                    <= now by {
                    if m < ds[i].status_history.len() {
                        assert(nd.status_history[m] == ds[i].status_history[m]);
                    }
                }
            }
        }
        assert forall|a: int, b: int|
            0 <= a < nds.len() && 0 <= b < nds.len() && a != b implies #[trigger] nds[a].id
            != #[trigger] nds[b].id by {
            assert(nds[a].id == ds[a].id);
            assert(nds[b].id == ds[b].id);
        }
    }
}

} // verus!
