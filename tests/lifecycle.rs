use proofparcel::model::{
    ConfirmDeliveryRequest, CreateDeliveryRequest, Delivery, DeliveryError, DeliveryStatus,
    Identity,
};
use proofparcel::repository::{health_check, nft_metadata, Repository};
use proofparcel::text::{generate_otp, generate_unique_id};

fn seller() -> Identity {
    Identity::from_bytes(vec![1, 2, 3]).unwrap()
}

fn buyer() -> Identity {
    Identity::from_bytes(vec![9, 8, 7, 6]).unwrap()
}

fn widget(repo: &mut Repository, now: u64) -> String {
    let request = CreateDeliveryRequest { buyer: buyer(), amount: 1000, description: "widget".to_string() };
    repo.create_delivery(&seller(), request, &vec![0xd1], now).unwrap()
}

fn confirm(id: &str, otp: &str) -> ConfirmDeliveryRequest {
    ConfirmDeliveryRequest { delivery_id: id.to_string(), otp: otp.to_string() }
}

fn status_of(repo: &Repository, id: &str) -> DeliveryStatus {
    repo.get_delivery(id.to_string()).unwrap().status
}

#[test]
fn test_create_delivery() {
    let request = CreateDeliveryRequest {
        buyer: Identity::anonymous(),
        amount: 100000000,
        description: "Test delivery".to_string(),
    };
    assert_eq!(request.amount, 100000000);
    assert_eq!(request.description, "Test delivery");
    let mut repo = Repository::new();
    let id = repo.create_delivery(&seller(), request, &vec![0x0f, 0xa0], 5).unwrap();
    assert_eq!(id, "0fa0");
    let d = repo.get_delivery(id).unwrap();
    assert_eq!(d.amount, 100000000);
    assert_eq!(d.description, "Test delivery");
    assert_eq!(d.buyer.to_bytes(), vec![4]);
    assert_eq!(d.status_history, vec![(DeliveryStatus::Pending, 5)]);
    assert_eq!(repo.get_escrow_balance(), 100000000);
}

#[test]
fn test_generate_otp() {
    let otp1 = generate_otp(&vec![0x12, 0x34, 0x56, 0x78, 0x9a]);
    let otp2 = generate_otp(&vec![0xfe, 0xdc, 0xba, 0x98]);
    assert_eq!(otp1.len(), 6);
    assert_eq!(otp2.len(), 6);
    assert_ne!(otp1, otp2);
    assert!(otp1.chars().all(|c| c.is_digit(10)));
    assert!(otp2.chars().all(|c| c.is_digit(10)));
}

#[test]
fn test_delivery_status_transitions() {
    let d = Delivery {
        id: "test-001".to_string(),
        seller: Identity::anonymous(),
        buyer: Identity::anonymous(),
        amount: 100000000,
        description: "Test".to_string(),
        status: DeliveryStatus::Pending,
        created_at: 100,
        in_transit_at: None,
        delivered_at: None,
        confirmed_at: None,
        escrow_released_at: None,
        cancelled_at: None,
        otp: None,
        otp_expires_at: None,
        status_history: vec![(DeliveryStatus::Pending, 100)],
    };
    let mut repo = Repository::restore(vec![d], vec![], 100000000).unwrap();
    let party = Identity::anonymous();

    repo.start_delivery(&party, "test-001".to_string(), 200).unwrap();
    let d = repo.get_delivery("test-001".to_string()).unwrap();
    assert_eq!(d.status, DeliveryStatus::InTransit);
    assert_eq!(d.in_transit_at, Some(200));
    assert_eq!(d.status_history.last().unwrap().0, DeliveryStatus::InTransit);
    assert_eq!(d.status_history.last().unwrap().1, 200);

    let code = repo.generate_delivery_otp(&party, "test-001".to_string(), &vec![0, 0, 0, 0], 300).unwrap();
    assert_eq!(code, "100000");
    let d = repo.get_delivery("test-001".to_string()).unwrap();
    assert_eq!(d.status, DeliveryStatus::Delivered);
    assert_eq!(d.delivered_at, Some(300));
    assert_eq!(d.otp_expires_at, Some(3900));
    assert_eq!(d.status_history.last().unwrap().0, DeliveryStatus::Delivered);
    assert_eq!(d.status_history.last().unwrap().1, 300);

    repo.confirm_delivery(&party, confirm("test-001", "100000"), &vec![0xee], 400).unwrap();
    let d = repo.get_delivery("test-001".to_string()).unwrap();
    assert_eq!(d.status, DeliveryStatus::Confirmed);
    assert_eq!(d.confirmed_at, Some(400));
    assert_eq!(d.status_history.last().unwrap().0, DeliveryStatus::Confirmed);
    assert_eq!(d.status_history.last().unwrap().1, 400);

    repo.release_escrow(&party, "test-001".to_string(), 500).unwrap();
    let d = repo.get_delivery("test-001".to_string()).unwrap();
    assert_eq!(d.status, DeliveryStatus::EscrowReleased);
    assert_eq!(d.escrow_released_at, Some(500));
    assert_eq!(d.status_history.last().unwrap().0, DeliveryStatus::EscrowReleased);
    assert_eq!(d.status_history.last().unwrap().1, 500);
    assert_eq!(d.in_transit_at, Some(200));
    assert_eq!(d.delivered_at, Some(300));
    assert_eq!(d.confirmed_at, Some(400));
    assert_eq!(repo.get_escrow_balance(), 0);
}

#[test]
fn full_scenario_widget() {
    let mut repo = Repository::new();
    let d1 = widget(&mut repo, 10);
    assert_eq!(d1, "d1");
    assert_eq!(repo.get_escrow_balance(), 1000);

    repo.start_delivery(&seller(), d1.clone(), 20).unwrap();
    assert_eq!(status_of(&repo, &d1), DeliveryStatus::InTransit);
    assert_eq!(repo.start_delivery(&buyer(), d1.clone(), 21), Err(DeliveryError::Unauthorized));

    let c1 = repo.generate_delivery_otp(&seller(), d1.clone(), &vec![0, 0, 0, 7], 30).unwrap();
    assert_eq!(c1, "100007");
    assert_eq!(status_of(&repo, &d1), DeliveryStatus::Delivered);

    assert_eq!(
        repo.confirm_delivery(&buyer(), confirm(&d1, "000000"), &vec![0xaa], 40),
        Err(DeliveryError::OtpMismatch)
    );
    assert_eq!(status_of(&repo, &d1), DeliveryStatus::Delivered);
    assert_eq!(repo.get_escrow_balance(), 1000);

    let nft = repo.confirm_delivery(&buyer(), confirm(&d1, &c1), &vec![0xaa, 0xbb], 41).unwrap();
    assert_eq!(nft, "aabb");
    let owned = repo.get_nfts_by_owner(&buyer());
    assert_eq!(owned.len(), 1);
    assert_eq!(owned[0].id, nft);
    assert_eq!(owned[0].delivery_id, d1);
    assert_eq!(owned[0].minted_at, 41);
    assert!(repo.get_nfts_by_owner(&seller()).is_empty());
    assert_eq!(repo.get_delivery_nft(nft.clone()).unwrap().id, nft);
    assert!(repo.get_delivery_nft("ffff".to_string()).is_none());
    assert_eq!(repo.get_escrow_balance(), 1000);

    repo.release_escrow(&seller(), d1.clone(), 50).unwrap();
    assert_eq!(repo.get_escrow_balance(), 0);
    assert_eq!(status_of(&repo, &d1), DeliveryStatus::EscrowReleased);
}

#[test]
fn start_twice_fails_second_time() {
    let mut repo = Repository::new();
    let d1 = widget(&mut repo, 1);
    assert_eq!(repo.start_delivery(&seller(), d1.clone(), 2), Ok(()));
    assert_eq!(repo.start_delivery(&seller(), d1.clone(), 3), Err(DeliveryError::InvalidState));
    let d = repo.get_delivery(d1).unwrap();
    assert_eq!(d.in_transit_at, Some(2));
    assert_eq!(d.status_history.len(), 2);
}

#[test]
fn confirm_at_expiry_succeeds() {
    let mut repo = Repository::new();
    let d1 = widget(&mut repo, 1);
    repo.start_delivery(&seller(), d1.clone(), 2).unwrap();
    let code = repo.generate_delivery_otp(&seller(), d1.clone(), &vec![0, 0, 0, 1], 100).unwrap();
    assert_eq!(repo.get_delivery(d1.clone()).unwrap().otp_expires_at, Some(3700));
    assert!(repo.confirm_delivery(&buyer(), confirm(&d1, &code), &vec![1], 3700).is_ok());
    assert_eq!(status_of(&repo, &d1), DeliveryStatus::Confirmed);
}

#[test]
fn confirm_one_second_late_expires() {
    let mut repo = Repository::new();
    let d1 = widget(&mut repo, 1);
    repo.start_delivery(&seller(), d1.clone(), 2).unwrap();
    let code = repo.generate_delivery_otp(&seller(), d1.clone(), &vec![0, 0, 0, 1], 100).unwrap();
    assert_eq!(
        repo.confirm_delivery(&buyer(), confirm(&d1, &code), &vec![1], 3701),
        Err(DeliveryError::OtpExpired)
    );
    assert_eq!(status_of(&repo, &d1), DeliveryStatus::Delivered);
    assert!(repo.get_nfts_by_owner(&buyer()).is_empty());
}

#[test]
fn create_rejects_bad_input() {
    let mut repo = Repository::new();
    let zero = CreateDeliveryRequest { buyer: buyer(), amount: 0, description: "x".to_string() };
    assert_eq!(repo.create_delivery(&seller(), zero, &vec![1], 1), Err(DeliveryError::InvalidAmount));
    let empty = CreateDeliveryRequest { buyer: buyer(), amount: 5, description: String::new() };
    assert_eq!(repo.create_delivery(&seller(), empty, &vec![1], 1), Err(DeliveryError::InvalidDescription));
    assert_eq!(repo.get_escrow_balance(), 0);
    assert!(repo.get_all_deliveries().is_empty());
}

#[test]
fn create_refuses_an_id_in_use() {
    let mut repo = Repository::new();
    widget(&mut repo, 1);
    let again = CreateDeliveryRequest { buyer: buyer(), amount: 7, description: "y".to_string() };
    assert_eq!(repo.create_delivery(&seller(), again, &vec![0xd1], 2), Err(DeliveryError::IdCollision));
    assert_eq!(repo.get_escrow_balance(), 1000);
    assert_eq!(repo.get_all_deliveries().len(), 1);
}

#[test]
fn unknown_delivery_is_not_found() {
    let mut repo = Repository::new();
    assert_eq!(repo.start_delivery(&seller(), "nope".to_string(), 1), Err(DeliveryError::NotFound));
    assert_eq!(
        repo.generate_delivery_otp(&seller(), "nope".to_string(), &vec![0, 0, 0, 0], 1),
        Err(DeliveryError::NotFound)
    );
    assert_eq!(
        repo.confirm_delivery(&buyer(), confirm("nope", "123456"), &vec![1], 1),
        Err(DeliveryError::NotFound)
    );
    assert_eq!(repo.release_escrow(&seller(), "nope".to_string(), 1), Err(DeliveryError::NotFound));
    assert!(repo.get_delivery("nope".to_string()).is_none());
}

#[test]
fn steps_check_party_and_status() {
    let mut repo = Repository::new();
    let d1 = widget(&mut repo, 1);
    assert_eq!(
        repo.generate_delivery_otp(&seller(), d1.clone(), &vec![0, 0, 0, 0], 2),
        Err(DeliveryError::InvalidState)
    );
    assert_eq!(repo.release_escrow(&seller(), d1.clone(), 2), Err(DeliveryError::InvalidState));
    assert_eq!(
        repo.confirm_delivery(&buyer(), confirm(&d1, "100000"), &vec![1], 2),
        Err(DeliveryError::InvalidState)
    );
    repo.start_delivery(&seller(), d1.clone(), 3).unwrap();
    assert_eq!(
        repo.generate_delivery_otp(&buyer(), d1.clone(), &vec![0, 0, 0, 0], 4),
        Err(DeliveryError::Unauthorized)
    );
    let code = repo.generate_delivery_otp(&seller(), d1.clone(), &vec![0, 0, 0, 0], 5).unwrap();
    assert_eq!(
        repo.confirm_delivery(&seller(), confirm(&d1, &code), &vec![1], 6),
        Err(DeliveryError::Unauthorized)
    );
    repo.confirm_delivery(&buyer(), confirm(&d1, &code), &vec![1], 7).unwrap();
    assert_eq!(repo.release_escrow(&buyer(), d1.clone(), 8), Err(DeliveryError::Unauthorized));
    assert_eq!(repo.get_escrow_balance(), 1000);
}

#[test]
fn confirm_refuses_a_receipt_id_in_use() {
    let mut repo = Repository::new();
    for (byte, now) in [(0x01u8, 10u64), (0x02u8, 20u64)] {
        let request = CreateDeliveryRequest { buyer: buyer(), amount: 3, description: "box".to_string() };
        let id = repo.create_delivery(&seller(), request, &vec![byte], now).unwrap();
        repo.start_delivery(&seller(), id.clone(), now + 1).unwrap();
        let code = repo.generate_delivery_otp(&seller(), id.clone(), &vec![0, 0, 0, 0], now + 2).unwrap();
        let r = repo.confirm_delivery(&buyer(), confirm(&id, &code), &vec![0x77], now + 3);
        if byte == 0x01 {
            assert_eq!(r, Ok("77".to_string()));
        } else {
            assert_eq!(r, Err(DeliveryError::IdCollision));
            assert_eq!(status_of(&repo, &id), DeliveryStatus::Delivered);
        }
    }
    assert_eq!(repo.get_escrow_balance(), 6);
}

#[test]
fn ledger_tracks_open_deliveries() {
    let mut repo = Repository::new();
    let mut ids = Vec::new();
    for (k, amount) in [(1u8, 10u64), (2, 20), (3, 30)] {
        let request = CreateDeliveryRequest { buyer: buyer(), amount, description: "p".to_string() };
        ids.push(repo.create_delivery(&seller(), request, &vec![k], 1).unwrap());
    }
    assert_eq!(repo.get_escrow_balance(), 60);
    let id = ids[1].clone();
    repo.start_delivery(&seller(), id.clone(), 2).unwrap();
    let code = repo.generate_delivery_otp(&seller(), id.clone(), &vec![9, 9, 9, 9], 3).unwrap();
    repo.confirm_delivery(&buyer(), confirm(&id, &code), &vec![5], 4).unwrap();
    assert_eq!(repo.get_escrow_balance(), 60);
    repo.release_escrow(&seller(), id, 5).unwrap();
    assert_eq!(repo.get_escrow_balance(), 40);
}

#[test]
fn queries_filter_by_party() {
    let mut repo = Repository::new();
    let other = Identity::from_bytes(vec![42]).unwrap();
    widget(&mut repo, 1);
    let request = CreateDeliveryRequest { buyer: seller(), amount: 4, description: "q".to_string() };
    repo.create_delivery(&other, request, &vec![0x02], 2).unwrap();
    assert_eq!(repo.get_all_deliveries().len(), 2);
    let sold = repo.get_deliveries_by_seller(&seller());
    assert_eq!(sold.len(), 1);
    assert_eq!(sold[0].id, "d1");
    let bought = repo.get_deliveries_by_buyer(&seller());
    assert_eq!(bought.len(), 1);
    assert_eq!(bought[0].id, "02");
    assert!(repo.get_deliveries_by_buyer(&other).is_empty());
}

#[test]
fn notifications_follow_each_step() {
    let mut repo = Repository::new();
    let d1 = widget(&mut repo, 1);
    assert!(repo.get_notifications(&buyer()).is_empty());
    repo.start_delivery(&seller(), d1.clone(), 2).unwrap();
    let code = repo.generate_delivery_otp(&seller(), d1.clone(), &vec![1, 2, 3, 4], 3).unwrap();
    repo.confirm_delivery(&buyer(), confirm(&d1, &code), &vec![0xab], 4).unwrap();
    repo.release_escrow(&seller(), d1.clone(), 5).unwrap();
    let to_buyer: Vec<(String, String, u64)> = repo
        .get_notifications(&buyer())
        .iter()
        .map(|n| (n.message.clone(), n.notif_type.clone(), n.timestamp))
        .collect();
    assert_eq!(
        to_buyer,
        vec![
            ("Your delivery d1 is now in transit!".to_string(), "info".to_string(), 2),
            ("Your delivery d1 is now delivered! OTP generated.".to_string(), "info".to_string(), 3),
            ("You have confirmed delivery d1!".to_string(), "success".to_string(), 4),
            ("NFT minted for delivery d1!".to_string(), "success".to_string(), 4),
        ]
    );
    let to_seller = repo.get_notifications(&seller());
    assert_eq!(to_seller.len(), 2);
    assert_eq!(to_seller[0].message, "Delivery d1 has been confirmed by the buyer!");
    assert_eq!(to_seller[1].message, "Escrow released for delivery d1!");
    assert!(to_seller.iter().all(|n| !n.read && n.id.len() == 36));
    assert_ne!(to_seller[0].id, to_seller[1].id);
}

#[test]
fn otp_codes_follow_the_reduction() {
    assert_eq!(generate_otp(&vec![0, 0, 0, 0]), "100000");
    assert_eq!(generate_otp(&vec![0xff, 0xff, 0xff, 0xff]), "267295");
    assert_eq!(generate_otp(&vec![0, 0x0d, 0xbb, 0xa0, 0x55]), "100000");
    assert_eq!(generate_otp(&vec![0, 0x0d, 0xbb, 0x9f]), "999999");
}

#[test]
fn unique_ids_are_hex() {
    assert_eq!(generate_unique_id(&vec![]), "");
    assert_eq!(generate_unique_id(&vec![0x00, 0x0f, 0xa5, 0xff]), "000fa5ff");
}

#[test]
fn receipt_metadata_is_json() {
    let mut repo = Repository::new();
    let request = CreateDeliveryRequest { buyer: buyer(), amount: 1000, description: "a \"quoted\" widget".to_string() };
    let d1 = repo.create_delivery(&seller(), request, &vec![0xd1], 1).unwrap();
    let before = nft_metadata(&repo.get_delivery(d1.clone()).unwrap());
    let seller_text = candid::Principal::from_slice(&[1, 2, 3]).to_text();
    let buyer_text = candid::Principal::from_slice(&[9, 8, 7, 6]).to_text();
    assert_eq!(
        before,
        format!(
            "{{\"amount\":1000,\"buyer\":\"{}\",\"confirmed_at\":null,\"delivery_id\":\"d1\",\"description\":\"a \\\"quoted\\\" widget\",\"seller\":\"{}\"}}",
            buyer_text, seller_text
        )
    );
    repo.start_delivery(&seller(), d1.clone(), 2).unwrap();
    let code = repo.generate_delivery_otp(&seller(), d1.clone(), &vec![0, 0, 0, 0], 1234000).unwrap();
    let nft = repo.confirm_delivery(&buyer(), confirm(&d1, &code), &vec![0x10], 1234567).unwrap();
    let metadata = repo.get_delivery_nft(nft).unwrap().metadata;
    let parsed: serde_json::Value = serde_json::from_str(&metadata).unwrap();
    assert_eq!(parsed["confirmed_at"].as_u64(), Some(1234567));
    assert_eq!(parsed["amount"].as_u64(), Some(1000));
    assert_eq!(parsed["description"].as_str(), Some("a \"quoted\" widget"));
    assert_eq!(parsed["seller"].as_str(), Some(seller_text.as_str()));
    assert_eq!(parsed["buyer"].as_str(), Some(buyer_text.as_str()));
}

#[test]
fn identity_text_and_limits() {
    assert!(Identity::from_bytes(vec![0; 29]).is_some());
    assert!(Identity::from_bytes(vec![0; 30]).is_none());
    assert_eq!(Identity::anonymous().to_text(), "2vxsx-fae");
    assert!(seller().same(&seller()));
    assert!(!seller().same(&buyer()));
}

#[test]
fn checkpoint_round_trip() {
    let mut repo = Repository::new();
    let d1 = widget(&mut repo, 1);
    repo.start_delivery(&seller(), d1.clone(), 2).unwrap();
    let code = repo.generate_delivery_otp(&seller(), d1.clone(), &vec![0, 0, 0, 0], 3).unwrap();
    repo.confirm_delivery(&buyer(), confirm(&d1, &code), &vec![0x33], 4).unwrap();
    let (deliveries, nfts, escrow) = repo.checkpoint();
    let restored = Repository::restore(deliveries, nfts, escrow).unwrap();
    assert_eq!(restored.get_escrow_balance(), 1000);
    assert_eq!(restored.last_time(), 4);
    assert_eq!(restored.get_delivery(d1.clone()).unwrap().status, DeliveryStatus::Confirmed);
    assert_eq!(restored.get_nfts_by_owner(&buyer()).len(), 1);
    assert!(restored.get_notifications(&buyer()).is_empty());
}

#[test]
fn restore_refuses_broken_state() {
    let mut repo = Repository::new();
    widget(&mut repo, 1);
    let (deliveries, nfts, _) = repo.checkpoint();
    assert!(Repository::restore(deliveries.clone(), nfts.clone(), 999).is_none());
    let mut twice = deliveries.clone();
    twice.push(deliveries[0].clone());
    assert!(Repository::restore(twice, nfts.clone(), 2000).is_none());
    let mut unordered = deliveries.clone();
    unordered[0].status_history = vec![(DeliveryStatus::Pending, 5), (DeliveryStatus::Pending, 4)];
    assert!(Repository::restore(unordered, nfts, 1000).is_none());
}

#[test]
fn health_check_answers() {
    assert_eq!(health_check(), "ProofParcel canister is healthy");
}
