//! Records of the delivery workflow and their mathematical views.

use vstd::prelude::*;
use crate::outside::{principal_text, principal_text_of};

verus! {

/// Where a delivery stands in its lifecycle.
#[derive(Clone, Copy, Debug, PartialEq, Eq, Structural)]
pub enum DeliveryStatus {
    Pending,
    InTransit,
    Delivered,
    Confirmed,
    EscrowReleased,
    Cancelled,
}

/// Whether value of a delivery in this status is still held in escrow.
pub open spec fn holds_escrow(s: DeliveryStatus) -> bool {
    s == DeliveryStatus::Pending || s == DeliveryStatus::InTransit || s
        == DeliveryStatus::Delivered || s == DeliveryStatus::Confirmed
}

/// The opaque identity of a party: up to 29 bytes.
#[derive(Clone, Debug, PartialEq, Eq)]
pub struct Identity {
    bytes: Vec<u8>,
}

impl View for Identity {
    type V = Seq<u8>;

    closed spec fn view(&self) -> Seq<u8> {
        self.bytes@
    }
}

/// The longest identity, in bytes.
pub const MAX_IDENTITY_LEN: usize = 29;

impl Identity {
    /// An identity holds at most 29 bytes.
    pub open spec fn wf(&self) -> bool {
        self@.len() <= 29
    }

    /// The identity with these bytes, or `None` when there are more than 29.
    pub fn from_bytes(bytes: Vec<u8>) -> (r: Option<Identity>)
        ensures
            r.is_some() == (bytes@.len() <= 29),
            r matches Some(id) ==> id@ == bytes@ && id.wf(),
    {
        if bytes.len() <= MAX_IDENTITY_LEN {
            Some(Identity { bytes })
        } else {
            None
        }
    }

    /// The identity of a caller that did not authenticate: the single byte 4.
    pub fn anonymous() -> (r: Identity)
        ensures
            r@ == seq![4u8],
            r.wf(),
    {
        let mut bytes: Vec<u8> = Vec::new();
        bytes.push(4);
        assert(bytes@ =~= seq![4u8]);
        Identity { bytes }
    }

    /// A copy of the bytes.
    pub fn to_bytes(&self) -> (r: Vec<u8>)
        ensures
            r@ == self@,
    {
        let mut r: Vec<u8> = Vec::new();
        let mut i: usize = 0;
        while i < self.bytes.len()
            invariant
                i <= self.bytes@.len(),
                r@ == self.bytes@.subrange(0, i as int),
            decreases self.bytes@.len() - i,
        {
            r.push(self.bytes[i]);
            i = i + 1;
            assert(r@ =~= self.bytes@.subrange(0, i as int));
        }
        assert(r@ =~= self.bytes@);
        r
    }

    /// The number of bytes.
    pub fn byte_len(&self) -> (r: usize)
        ensures
            r == self@.len(),
    {
        self.bytes.len()
    }

    /// An equal identity.
    pub fn duplicate(&self) -> (r: Identity)
        ensures
            r@ == self@,
    {
        Identity { bytes: self.to_bytes() }
    }

    /// Whether the two identities are the same.
    pub fn same(&self, other: &Identity) -> (r: bool)
        ensures
            r == (self@ == other@),
    {
        if self.bytes.len() != other.bytes.len() {
            return false;
        }
        let mut i: usize = 0;
        while i < self.bytes.len()
            invariant
                i <= self.bytes@.len(),
                self.bytes@.len() == other.bytes@.len(),
                forall|k: int| 0 <= k < i ==> self.bytes@[k] == other.bytes@[k],
            decreases self.bytes@.len() - i,
        {
            if self.bytes[i] != other.bytes[i] {
                return false;
            }
            i = i + 1;
        }
        assert(self.bytes@ =~= other.bytes@);
        true
    }

    /// The textual form of the identity.
    pub fn to_text(&self) -> (r: String)
        requires
            self.wf(),
        ensures
            r@ == principal_text_of(self@),
    {
        principal_text(&self.bytes)
    }
}

/// A delivery between a seller and a buyer, with the value it holds in escrow.
#[derive(Clone, Debug)]
pub struct Delivery {
    pub id: String,
    pub seller: Identity,
    pub buyer: Identity,
    pub amount: u64,
    pub description: String,
    pub status: DeliveryStatus,
    pub created_at: u64,
    pub in_transit_at: Option<u64>,
    pub delivered_at: Option<u64>,
    pub confirmed_at: Option<u64>,
    pub escrow_released_at: Option<u64>,
    pub cancelled_at: Option<u64>,
    pub otp: Option<String>,
    pub otp_expires_at: Option<u64>,
    pub status_history: Vec<(DeliveryStatus, u64)>,
}

/// A delivery as mathematical values.
pub struct DeliveryView {
    pub id: Seq<char>,
    pub seller: Seq<u8>,
    pub buyer: Seq<u8>,
    pub amount: u64,
    pub description: Seq<char>,
    pub status: DeliveryStatus,
    pub created_at: u64,
    pub in_transit_at: Option<u64>,
    pub delivered_at: Option<u64>,
    pub confirmed_at: Option<u64>,
    pub escrow_released_at: Option<u64>,
    pub cancelled_at: Option<u64>,
    pub otp: Option<Seq<char>>,
    pub otp_expires_at: Option<u64>,
    pub status_history: Seq<(DeliveryStatus, u64)>,
}

/// The text of an optional string.
pub open spec fn opt_text(o: Option<String>) -> Option<Seq<char>> {
    match o {
        Some(s) => Some(s@),
        None => None,
    }
}

impl View for Delivery {
    type V = DeliveryView;

    open spec fn view(&self) -> DeliveryView {
        DeliveryView {
            id: self.id@,
            seller: self.seller@,
            buyer: self.buyer@,
            amount: self.amount,
            description: self.description@,
            status: self.status,
            created_at: self.created_at,
            in_transit_at: self.in_transit_at,
            delivered_at: self.delivered_at,
            confirmed_at: self.confirmed_at,
            escrow_released_at: self.escrow_released_at,
            cancelled_at: self.cancelled_at,
            otp: opt_text(self.otp),
            otp_expires_at: self.otp_expires_at,
            status_history: self.status_history@,
        }
    }
}

/// A copy of an optional string.
pub fn copy_text(o: &Option<String>) -> (r: Option<String>)
    ensures
        opt_text(r) == opt_text(*o),
{
    match o {
        Some(s) => Some(s.clone()),
        None => None,
    }
}

impl Delivery {
    /// Both parties are valid identities.
    pub open spec fn parties_wf(&self) -> bool {
        self.seller.wf() && self.buyer.wf()
    }

    /// An equal delivery.
    pub fn duplicate(&self) -> (r: Delivery)
        ensures
            r@ == self@,
            r.seller.wf() == self.seller.wf(),
            r.buyer.wf() == self.buyer.wf(),
    {
        let mut history: Vec<(DeliveryStatus, u64)> = Vec::new();
        let mut i: usize = 0;
        while i < self.status_history.len()
            invariant
                i <= self.status_history@.len(),
                history@ == self.status_history@.subrange(0, i as int),
            decreases self.status_history@.len() - i,
        {
            history.push(self.status_history[i]);
            i = i + 1;
            assert(history@ =~= self.status_history@.subrange(0, i as int));
        }
        assert(history@ =~= self.status_history@);
        Delivery {
            id: self.id.clone(),
            seller: self.seller.duplicate(),
            buyer: self.buyer.duplicate(),
            amount: self.amount,
            description: self.description.clone(),
            status: self.status,
            created_at: self.created_at,
            in_transit_at: self.in_transit_at,
            delivered_at: self.delivered_at,
            confirmed_at: self.confirmed_at,
            escrow_released_at: self.escrow_released_at,
            cancelled_at: self.cancelled_at,
            otp: copy_text(&self.otp),
            otp_expires_at: self.otp_expires_at,
            status_history: history,
        }
    }
}

/// A receipt minted for a confirmed delivery, owned by its buyer.
#[derive(Clone, Debug)]
pub struct DeliveryNFT {
    pub id: String,
    pub delivery_id: String,
    pub owner: Identity,
    pub metadata: String,
    pub minted_at: u64,
}

/// A receipt as mathematical values.
pub struct DeliveryNFTView {
    pub id: Seq<char>,
    pub delivery_id: Seq<char>,
    pub owner: Seq<u8>,
    pub metadata: Seq<char>,
    pub minted_at: u64,
}

impl View for DeliveryNFT {
    type V = DeliveryNFTView;

    open spec fn view(&self) -> DeliveryNFTView {
        DeliveryNFTView {
            id: self.id@,
            delivery_id: self.delivery_id@,
            owner: self.owner@,
            metadata: self.metadata@,
            minted_at: self.minted_at,
        }
    }
}

impl DeliveryNFT {
    /// An equal receipt.
    pub fn duplicate(&self) -> (r: DeliveryNFT)
        ensures
            r@ == self@,
    {
        DeliveryNFT {
            id: self.id.clone(),
            delivery_id: self.delivery_id.clone(),
            owner: self.owner.duplicate(),
            metadata: self.metadata.clone(),
            minted_at: self.minted_at,
        }
    }
}

/// A message for one party about one of its deliveries.
#[derive(Clone, Debug)]
pub struct Notification {
    pub id: String,
    pub principal: Identity,
    pub message: String,
    pub notif_type: String,
    pub timestamp: u64,
    pub read: bool,
}

/// A notification as mathematical values.
pub struct NotificationView {
    pub id: Seq<char>,
    pub principal: Seq<u8>,
    pub message: Seq<char>,
    pub notif_type: Seq<char>,
    pub timestamp: u64,
    pub read: bool,
}

impl NotificationView {
    /// Whether this is an unread message for `who` with this text and
    /// category, sent at `at`.
    pub open spec fn says(&self, who: Seq<u8>, message: Seq<char>, kind: Seq<char>, at: u64) -> bool {
        self.principal == who && self.message == message && self.notif_type == kind
            && self.timestamp == at && !self.read
    }
}

impl View for Notification {
    type V = NotificationView;

    open spec fn view(&self) -> NotificationView {
        NotificationView {
            id: self.id@,
            principal: self.principal@,
            message: self.message@,
            notif_type: self.notif_type@,
            timestamp: self.timestamp,
            read: self.read,
        }
    }
}

impl Notification {
    /// An equal message.
    pub fn duplicate(&self) -> (r: Notification)
        ensures
            r@ == self@,
    {
        Notification {
            id: self.id.clone(),
            principal: self.principal.duplicate(),
            message: self.message.clone(),
            notif_type: self.notif_type.clone(),
            timestamp: self.timestamp,
            read: self.read,
        }
    }
}

/// What a seller supplies to open a delivery.
#[derive(Clone, Debug)]
pub struct CreateDeliveryRequest {
    pub buyer: Identity,
    pub amount: u64,
    pub description: String,
}

/// What a buyer supplies to confirm receipt.
#[derive(Clone, Debug)]
pub struct ConfirmDeliveryRequest {
    pub delivery_id: String,
    pub otp: String,
}

/// Why an operation was refused.
#[derive(Clone, Copy, Debug, PartialEq, Eq, Structural)]
pub enum DeliveryError {
    /// No delivery has that id.
    NotFound,
    /// The caller is not the party that this step belongs to.
    Unauthorized,
    /// The delivery is not in the status that this step starts from.
    InvalidState,
    /// The amount is zero.
    InvalidAmount,
    /// The description is empty.
    InvalidDescription,
    /// The code differs from the one issued.
    OtpMismatch,
    /// The code was supplied after its expiry.
    OtpExpired,
    /// The random source gave an identifier that is already in use.
    IdCollision,
}

} // verus!
