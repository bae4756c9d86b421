use token_dealer::account::{derive_domain_account, try_recover_domain, DomainTag, ParaId, RelayAccount};
use token_dealer::ledger::Ledger;
use token_dealer::mock::{ExtBuilder, MessageBrokerMock, Test};
use token_dealer::remark::{decode_remark, encode_remark, encoded_to_remark};
use token_dealer::upward_messages::UpwardMessage;
use token_dealer::{DownwardMessage, Event, Origin, TransferError, XCMPMessage};

fn relay() -> [u8; 32] {
    RelayAccount::default().into_account()
}

#[test]
fn relay_account_layout() {
    let mut expected = [0u8; 32];
    expected[..5].copy_from_slice(b"Relay");
    assert_eq!(relay(), expected);
}

#[test]
fn para_account_layout() {
    let mut expected = [0u8; 32];
    expected[..4].copy_from_slice(b"para");
    expected[4] = 200;
    assert_eq!(ParaId::from(200).into_account(), expected);
    let mut big = [0u8; 32];
    big[..4].copy_from_slice(b"para");
    big[4..8].copy_from_slice(&0x0403_0201u32.to_le_bytes());
    assert_eq!(ParaId(0x0403_0201).into_account(), big);
}

#[test]
fn derive_then_recover_round_trips() {
    for t in [
        DomainTag::Relay,
        DomainTag::Parachain(0),
        DomainTag::Parachain(200),
        DomainTag::Parachain(u32::MAX),
    ] {
        assert_eq!(try_recover_domain(&derive_domain_account(t)), Some(t));
    }
    assert!(RelayAccount::try_from_account(&relay()).is_some());
    assert_eq!(ParaId::try_from_account(&ParaId(7).into_account()), Some(ParaId(7)));
}

#[test]
fn other_accounts_recover_to_nothing() {
    assert_eq!(try_recover_domain(&[0u8; 32]), None);
    let mut tail = relay();
    tail[31] = 1;
    assert_eq!(try_recover_domain(&tail), None);
    assert!(RelayAccount::try_from_account(&tail).is_none());
    let mut para_tail = ParaId(200).into_account();
    para_tail[8] = 1;
    assert_eq!(try_recover_domain(&para_tail), None);
    assert_eq!(ParaId::try_from_account(&relay()), None);
}

#[test]
fn derivation_is_deterministic() {
    assert_eq!(relay(), RelayAccount::default().into_account());
    assert_eq!(ParaId(200).into_account(), ParaId(200).into_account());
    assert_ne!(ParaId(200).into_account(), ParaId(201).into_account());
}

#[test]
fn native_transfer_to_relay_scenario() {
    let from = [0u8; 32];
    let to = [1u8; 32];
    let mut ext = ExtBuilder::default().free_balance(vec![(from, 10000)]).build();
    assert_eq!(ext.transfer_tokens_to_relay_chain(Origin::signed(from), to, 1000, None), Ok(()));
    assert_eq!(ext.ledger.free_balance(&relay()), 1000);
    assert_eq!(ext.ledger.free_balance(&from), 9000);
    let n = ext
        .events
        .iter()
        .filter(|e| matches!(e, Event::TransferredTokensToRelayChain(..)))
        .count();
    assert_eq!(n, 1);
    assert_eq!(ext.events.len(), 1);
    assert_eq!(ext.upward_messages, vec![UpwardMessage { dest: to, amount: 1000 }]);
}

#[test]
fn transfer_to_relay_keeps_total_supply() {
    let a = [3u8; 32];
    let b = [4u8; 32];
    let mut ext = ExtBuilder::default().free_balance(vec![(a, 5000), (b, 700)]).build();
    let total = |m: &token_dealer::Module| {
        m.ledger.free_balance(&a) + m.ledger.free_balance(&b) + m.ledger.free_balance(&relay())
    };
    let before = total(&ext);
    assert_eq!(ext.make_transfer_to_relay_chain(&None, &a, &b, 1234), Ok(()));
    assert_eq!(total(&ext), before);
    assert_eq!(ext.ledger.free_balance(&a), 5000 - 1234);
    assert_eq!(ext.ledger.free_balance(&relay()), 1234);
}

#[test]
fn inbound_relay_all_zero_remark_scenario() {
    let dest = [9u8; 32];
    let mut ext = ExtBuilder::default().free_balance(vec![(relay(), 10000)]).build();
    ext.handle_downward_message(&DownwardMessage::TransferInto(dest, 9000, [0u8; 32]));
    assert_eq!(ext.ledger.free_balance(&dest), 9000);
    assert_eq!(ext.ledger.free_balance(&relay()), 1000);
    assert_eq!(
        ext.events,
        vec![Event::TransferredTokensFromRelayChain(dest, 9000, None, Ok(()))]
    );
}

#[test]
fn malformed_remark_is_reported_and_moves_nothing() {
    let dest = [9u8; 32];
    let mut ext = ExtBuilder::default().free_balance(vec![(relay(), 10000)]).build();
    for (at, byte) in [(0usize, 2u8), (0, 7), (0, 255), (1, 1), (31, 1)] {
        let mut remark = [0u8; 32];
        remark[at] = byte;
        ext.handle_downward_message(&DownwardMessage::TransferInto(dest, 9000, remark));
        assert_eq!(ext.ledger.free_balance(&dest), 0);
        assert_eq!(ext.ledger.free_balance(&relay()), 10000);
        assert_eq!(
            ext.events.last(),
            Some(&Event::TransferredTokensFromRelayChain(
                dest,
                9000,
                None,
                Err(TransferError::MalformedRemark)
            ))
        );
    }
    assert_eq!(ext.events.len(), 5);
}

#[test]
fn inbound_failure_is_reported_not_raised() {
    let dest = [9u8; 32];
    let mut ext = ExtBuilder::default().free_balance(vec![(relay(), 500)]).build();
    ext.handle_downward_message(&DownwardMessage::TransferInto(dest, 9000, [0u8; 32]));
    assert_eq!(
        ext.events,
        vec![Event::TransferredTokensFromRelayChain(
            dest,
            9000,
            None,
            Err(TransferError::InsufficientBalance)
        )]
    );
    assert_eq!(ext.ledger.free_balance(&relay()), 500);
}

#[test]
fn unknown_downward_message_is_ignored() {
    let mut ext = ExtBuilder::default().free_balance(vec![(relay(), 10000)]).build();
    ext.handle_downward_message(&DownwardMessage::Opaque(vec![1, 2, 3]));
    assert!(ext.events.is_empty());
    assert_eq!(ext.ledger.free_balance(&relay()), 10000);
}

#[test]
fn peer_asset_transfer_scenario() {
    let from = [5u8; 32];
    let dest = [6u8; 32];
    let mut ext = ExtBuilder::default().build();
    assert_eq!(ext.ledger.issue(&from, 10000), Ok(0));
    assert_eq!(ext.ledger.issue(&from, 10000), Ok(1));
    assert_eq!(
        ext.transfer_assets_to_parachain_chain(Origin::signed(from), 200, dest, 9000, Some(1)),
        Ok(())
    );
    let mut custodial = [0u8; 32];
    custodial[..4].copy_from_slice(b"para");
    custodial[4..8].copy_from_slice(&200u32.to_le_bytes());
    assert_eq!(ext.ledger.asset_balance(1, &custodial), 9000);
    assert_eq!(ext.ledger.asset_balance(1, &from), 1000);
    assert_eq!(ext.ledger.asset_balance(0, &from), 10000);
    assert_eq!(
        ext.xcmp_messages,
        vec![(ParaId(200), XCMPMessage::TransferToken(dest, 9000, Some(1)))]
    );
}

#[test]
fn whole_balance_native_would_kill_asset_succeeds() {
    let from = [0u8; 32];
    let mut ext = ExtBuilder::default().free_balance(vec![(from, 10000)]).build();
    assert_eq!(
        ext.make_transfer_to_relay_chain(&None, &from, &[1u8; 32], 10000),
        Err(TransferError::WouldKillAccount)
    );
    assert_eq!(ext.ledger.free_balance(&from), 10000);
    assert!(ext.upward_messages.is_empty());
    assert_eq!(ext.ledger.issue(&from, 10000), Ok(0));
    assert_eq!(ext.make_transfer_to_relay_chain(&Some(0), &from, &[1u8; 32], 10000), Ok(()));
    assert_eq!(ext.ledger.asset_balance(0, &from), 0);
    assert_eq!(ext.ledger.asset_balance(0, &relay()), 10000);
}

#[test]
fn unsigned_callers_are_refused() {
    let from = [0u8; 32];
    let mut ext = ExtBuilder::default().free_balance(vec![(from, 10000)]).build();
    assert_eq!(
        ext.transfer_tokens_to_relay_chain(Origin::Root, [1u8; 32], 10, None),
        Err(TransferError::BadOrigin)
    );
    assert_eq!(
        ext.transfer_assets_to_parachain_chain(Origin::Unsigned, 200, [1u8; 32], 10, None),
        Err(TransferError::BadOrigin)
    );
    assert!(ext.events.is_empty());
    assert_eq!(ext.ledger.free_balance(&from), 10000);
}

#[test]
fn ledger_errors() {
    let a = [1u8; 32];
    let b = [2u8; 32];
    let mut l = Ledger::new(Test::existential_deposit());
    l.set_free_balance(&a, 1000);
    assert_eq!(l.transfer(None, &a, &b, 2000), Err(TransferError::InsufficientBalance));
    assert_eq!(l.transfer(None, &a, &b, 950), Err(TransferError::WouldKillAccount));
    assert_eq!(l.transfer(None, &a, &b, 900), Ok(()));
    assert_eq!(l.transfer(None, &a, &a, 5000), Err(TransferError::InsufficientBalance));
    assert_eq!(l.transfer(None, &a, &a, 0), Ok(()));
    assert_eq!(l.transfer(None, &a, &b, 0), Ok(()));
    assert_eq!(l.transfer(Some(0), &a, &b, 1), Err(TransferError::UnknownAsset));
    assert_eq!(l.issue(&a, 10), Ok(0));
    assert_eq!(l.transfer(Some(0), &a, &b, 11), Err(TransferError::InsufficientBalance));
    assert_eq!(l.free_balance(&a), 100);
    assert_eq!(l.free_balance(&b), 900);
    let c = [3u8; 32];
    l.set_free_balance(&c, u128::MAX);
    assert_eq!(l.transfer(None, &b, &c, 500), Err(TransferError::Overflow));
    assert_eq!(l.existential_deposit(), 100);
}

#[test]
fn zero_asset_transfer_succeeds_and_moves_nothing() {
    let a = [1u8; 32];
    let mut ext = ExtBuilder::default().build();
    assert_eq!(ext.ledger.issue(&a, 10), Ok(0));
    assert_eq!(ext.make_transfer_to_relay_chain(&Some(0), &a, &[2u8; 32], 0), Ok(()));
    assert_eq!(ext.ledger.asset_balance(0, &a), 10);
    assert_eq!(ext.ledger.asset_balance(0, &relay()), 0);
    assert_eq!(ext.upward_messages.len(), 1);
}

#[test]
fn native_source_below_deposit_is_refused() {
    let a = [1u8; 32];
    let mut ext = ExtBuilder::default().free_balance(vec![(a, 50)]).build();
    assert_eq!(
        ext.make_transfer_to_relay_chain(&None, &a, &[2u8; 32], 50),
        Err(TransferError::WouldKillAccount)
    );
    assert_eq!(
        ext.make_transfer_to_relay_chain(&None, &a, &[2u8; 32], 0),
        Err(TransferError::WouldKillAccount)
    );
    assert_eq!(ext.ledger.free_balance(&a), 50);
    assert!(ext.upward_messages.is_empty());
}

#[test]
fn small_native_credit_to_empty_account_succeeds() {
    let a = [1u8; 32];
    let mut ext = ExtBuilder::default().free_balance(vec![(a, 1000)]).build();
    assert_eq!(ext.make_transfer_to_relay_chain(&None, &a, &[2u8; 32], 50), Ok(()));
    assert_eq!(ext.ledger.free_balance(&relay()), 50);
    assert_eq!(ext.ledger.free_balance(&a), 950);
}

#[test]
fn genesis_total_is_sum_of_listed_balances() {
    let (a, b) = ([1u8; 32], [2u8; 32]);
    let ext = ExtBuilder::default().free_balance(vec![(a, 500), (b, 800)]).build();
    assert_eq!(ext.ledger.free_balance(&a) + ext.ledger.free_balance(&b), 1300);
}

#[test]
fn remark_codec() {
    assert_eq!(decode_remark(&[0u8; 32]), Ok(None));
    let mut r = [0u8; 32];
    r[0] = 1;
    r[1] = 5;
    assert_eq!(decode_remark(&r), Ok(Some(5)));
    r[7] = 9;
    assert_eq!(decode_remark(&r), Err(TransferError::MalformedRemark));
    r[7] = 0;
    r[0] = 3;
    assert_eq!(decode_remark(&r), Err(TransferError::MalformedRemark));
    let mut trailing = [0u8; 32];
    trailing[1] = 1;
    assert_eq!(decode_remark(&trailing), Err(TransferError::MalformedRemark));
    let enc = encode_remark(Some(258));
    assert_eq!(&enc[..5], &[1, 2, 1, 0, 0]);
    assert!(enc[5..].iter().all(|b| *b == 0));
    assert_eq!(decode_remark(&enc), Ok(Some(258)));
    assert_eq!(encode_remark(None), [0u8; 32]);
    let v: Vec<u8> = (0..32).collect();
    assert_eq!(encoded_to_remark(v.clone()).to_vec(), v);
}

#[test]
fn inbound_peer_native_transfer() {
    let dest = [8u8; 32];
    let src = ParaId(300);
    let mut ext = ExtBuilder::default().free_balance(vec![(src.into_account(), 10000)]).build();
    ext.handle_xcmp_message(src, &XCMPMessage::TransferToken(dest, 9950, None));
    assert_eq!(
        ext.events,
        vec![Event::TransferredTokensViaXCMP(src, dest, 9950, None, Err(TransferError::WouldKillAccount))]
    );
    assert_eq!(ext.ledger.free_balance(&dest), 0);
}

#[test]
fn broker_takes_queued_messages() {
    let from = [0u8; 32];
    let mut ext = ExtBuilder::default().free_balance(vec![(from, 10000)]).build();
    assert_eq!(ext.make_transfer_to_relay_chain(&None, &from, &[1u8; 32], 100), Ok(()));
    assert_eq!(
        ext.make_transfer_to_parachain(&from, &None, ParaId(9), &[2u8; 32], &Some(4), 200),
        Ok(())
    );
    let mut broker = MessageBrokerMock::new();
    broker.deliver(&mut ext);
    assert_eq!(broker.upward, vec![UpwardMessage::transfer([1u8; 32], 100)]);
    assert_eq!(broker.xcmp, vec![(ParaId(9), XCMPMessage::TransferToken([2u8; 32], 200, Some(4)))]);
    assert!(ext.upward_messages.is_empty() && ext.xcmp_messages.is_empty());
}

#[test]
fn genesis_last_entry_wins() {
    let a = [1u8; 32];
    let ext = ExtBuilder::default().free_balance(vec![(a, 500), (a, 800)]).build();
    assert_eq!(ext.ledger.free_balance(&a), 800);
}

#[test]
fn disjoint_transfers_commute() {
    let (a, b, c, d) = ([1u8; 32], [2u8; 32], [3u8; 32], [4u8; 32]);
    let start = || {
        let mut l = Ledger::new(100);
        l.set_free_balance(&a, 1000);
        l.set_free_balance(&c, 2000);
        l
    };
    let mut one = start();
    assert_eq!(one.transfer(None, &a, &b, 300), Ok(()));
    assert_eq!(one.transfer(None, &c, &d, 500), Ok(()));
    let mut two = start();
    assert_eq!(two.transfer(None, &c, &d, 500), Ok(()));
    assert_eq!(two.transfer(None, &a, &b, 300), Ok(()));
    for w in [a, b, c, d] {
        assert_eq!(one.free_balance(&w), two.free_balance(&w));
    }
    assert_eq!(one.free_balance(&d), 500);
}
