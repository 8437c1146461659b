use smart_send::amount::Amount;
use smart_send::data::{Address, Error, Payment, TokenIdentifier, Transfer};
use smart_send::distribution::DistributionModule;
use smart_send::{OpenSmartSend, SmartSendModule};

fn addr(n: u64) -> Address {
    Address(n, 0, 0, 0)
}

fn token(s: &str) -> TokenIdentifier {
    TokenIdentifier::from_bytes(s.as_bytes())
}

fn pay(t: &str, nonce: u64, amount: u64) -> Payment {
    Payment::new(token(t), nonce, Amount::from_u64(amount))
}

fn send(to: u64, t: &str, nonce: u64, amount: u64) -> Transfer {
    Transfer::new(addr(to), pay(t, nonce, amount))
}

#[test]
fn distribution_refunds_the_rest_to_the_caller() {
    let caller = addr(9);
    let payment = pay("TKN-123456", 0, 100);
    let reqs = vec![(addr(1), Amount::from_u64(30)), (addr(2), Amount::from_u64(50))];
    let out = DistributionModule::distribute_egld_or_esdt(caller, &payment, &reqs);
    assert_eq!(
        out,
        vec![send(1, "TKN-123456", 0, 30), send(2, "TKN-123456", 0, 50), send(9, "TKN-123456", 0, 20)]
    );
}

#[test]
fn distribution_conserves_the_payment() {
    // The amounts sent out add up to what was paid.
    let payment = pay("EGLD", 0, 1_000);
    let reqs = vec![
        (addr(1), Amount::from_u64(1)),
        (addr(2), Amount::from_u64(10)),
        (addr(3), Amount::from_u64(100)),
    ];
    let out = DistributionModule::distribute_egld_or_esdt(addr(7), &payment, &reqs);
    let mut total = Amount::zero();
    for t in &out {
        total = total.add(&t.payment_token.amount);
    }
    assert_eq!(total, Amount::from_u64(1_000));
    assert_eq!(out.len(), 4);
}

#[test]
fn distribution_exact_payment_sends_no_refund() {
    let payment = pay("EGLD", 0, 80);
    let reqs = vec![(addr(1), Amount::from_u64(30)), (addr(2), Amount::from_u64(50))];
    let out = DistributionModule::distribute_egld_or_esdt(addr(9), &payment, &reqs);
    assert_eq!(out, vec![send(1, "EGLD", 0, 30), send(2, "EGLD", 0, 50)]);
}

#[test]
fn distribution_overdrawn_requests_send_no_refund() {
    // Requests beyond the payment are passed on as they are; nothing is refunded.
    let payment = pay("EGLD", 0, 10);
    let reqs = vec![(addr(1), Amount::from_u64(30))];
    let out = DistributionModule::distribute_egld_or_esdt(addr(9), &payment, &reqs);
    assert_eq!(out, vec![send(1, "EGLD", 0, 30)]);
}

#[test]
fn distribution_without_requests_refunds_everything() {
    let payment = pay("META-abcdef", 7, 5);
    let out = DistributionModule::distribute_egld_or_esdt(addr(9), &payment, &vec![]);
    assert_eq!(out, vec![send(9, "META-abcdef", 7, 5)]);
}

#[test]
fn nft_distribution_sends_one_of_each() {
    let payments = vec![pay("NFT-aaaaaa", 1, 1), pay("NFT-aaaaaa", 2, 1)];
    let reqs = vec![(addr(1), token("NFT-aaaaaa"), 1u64), (addr(2), token("NFT-aaaaaa"), 2u64)];
    let out = DistributionModule::distribute_nfts(&payments, &reqs).unwrap();
    assert_eq!(out, vec![send(1, "NFT-aaaaaa", 1, 1), send(2, "NFT-aaaaaa", 2, 1)]);
}

#[test]
fn nft_distribution_count_mismatch() {
    let payments = vec![pay("NFT-aaaaaa", 1, 1)];
    let reqs = vec![(addr(1), token("NFT-aaaaaa"), 1u64), (addr(2), token("NFT-aaaaaa"), 2u64)];
    assert_eq!(DistributionModule::distribute_nfts(&payments, &reqs), Err(Error::NftCountMismatch));
}

#[test]
fn open_smart_send_module_endpoints() {
    let payment = pay("SFT-bbbbbb", 3, 10);
    let reqs = vec![(addr(1), Amount::from_u64(4))];
    assert_eq!(
        OpenSmartSend::sft_distribution(addr(5), &payment, &reqs),
        vec![send(1, "SFT-bbbbbb", 3, 4), send(5, "SFT-bbbbbb", 3, 6)]
    );
    assert_eq!(
        OpenSmartSend::token_distribution(addr(5), &payment, &reqs),
        vec![send(1, "SFT-bbbbbb", 3, 4), send(5, "SFT-bbbbbb", 3, 6)]
    );
    assert_eq!(
        OpenSmartSend::nft_distribution(&vec![], &vec![(addr(1), token("NFT-aaaaaa"), 1u64)]),
        Err(Error::NftCountMismatch)
    );
}

#[test]
fn token_identifier_comparison() {
    assert!(token("WEGLD-bd4d79").same(&token("WEGLD-bd4d79")));
    assert!(!token("WEGLD-bd4d79").same(&token("WEGLD-bd4d7")));
    assert_eq!(TokenIdentifier::egld().as_bytes(), b"EGLD");
}
