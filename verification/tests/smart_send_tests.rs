use smart_send::amount::Amount;
use smart_send::data::{Address, Error, Payment, TokenIdentifier, Transfer};
use smart_send::smart_send::transfer::TransferModule;
use smart_send::smart_send_v2::users::UsersModule;
use smart_send::{SmartSend, SmartSendContract};

fn addr(n: u64) -> Address {
    Address(n, 0, 0, 0)
}

fn pay(t: &str, nonce: u64, amount: u64) -> Payment {
    Payment::new(TokenIdentifier::from_bytes(t.as_bytes()), nonce, Amount::from_u64(amount))
}

fn send(to: u64, t: &str, nonce: u64, amount: u64) -> Transfer {
    Transfer::new(addr(to), pay(t, nonce, amount))
}

const OWNER: u64 = 100;

#[test]
fn only_owner_manages_users() {
    let mut c = SmartSend::init();
    assert_eq!(c.add_user(addr(OWNER), addr(1), addr(2)), Err(Error::NotOwner));
    assert_eq!(c.get_allowed_users(), &[] as &[Address]);
    assert_eq!(c.add_user(addr(OWNER), addr(OWNER), addr(2)), Ok(()));
    assert_eq!(c.remove_user(addr(OWNER), addr(2), addr(2)), Err(Error::NotOwner));
    assert_eq!(c.get_allowed_users(), &[addr(2)]);
}

#[test]
fn allowed_users_keep_insertion_order_and_swap_on_removal() {
    let mut c = SmartSend::init();
    for u in 1..=4 {
        c.add_user(addr(OWNER), addr(OWNER), addr(u)).unwrap();
    }
    // Adding twice changes nothing.
    c.add_user(addr(OWNER), addr(OWNER), addr(2)).unwrap();
    assert_eq!(c.get_allowed_users(), &[addr(1), addr(2), addr(3), addr(4)]);
    c.remove_user(addr(OWNER), addr(OWNER), addr(2)).unwrap();
    assert_eq!(c.get_allowed_users(), &[addr(1), addr(4), addr(3)]);
    // Removing an absent user changes nothing.
    c.remove_user(addr(OWNER), addr(OWNER), addr(9)).unwrap();
    assert_eq!(c.get_allowed_users(), &[addr(1), addr(4), addr(3)]);
}

#[test]
fn permission_follows_add_and_remove() {
    let mut c = SmartSend::init();
    let payment = pay("EGLD", 0, 10);
    let reqs = vec![(addr(1), Amount::from_u64(10))];
    assert_eq!(c.token_distribution(addr(OWNER), addr(5), &payment, &reqs), Err(Error::CallerNotAllowed));
    // The owner is always allowed.
    assert!(c.token_distribution(addr(OWNER), addr(OWNER), &payment, &reqs).is_ok());
    c.add_user(addr(OWNER), addr(OWNER), addr(5)).unwrap();
    assert_eq!(c.token_distribution(addr(OWNER), addr(5), &payment, &reqs), Ok(vec![send(1, "EGLD", 0, 10)]));
    c.remove_user(addr(OWNER), addr(OWNER), addr(5)).unwrap();
    assert_eq!(c.token_distribution(addr(OWNER), addr(5), &payment, &reqs), Err(Error::CallerNotAllowed));
}

#[test]
fn smart_send_contract_nft_and_sft() {
    let mut c = SmartSend::init();
    c.add_user(addr(OWNER), addr(OWNER), addr(5)).unwrap();
    let nft = TokenIdentifier::from_bytes(b"NFT-aaaaaa");
    let payments = vec![pay("NFT-aaaaaa", 1, 1)];
    assert_eq!(
        c.nft_distribution(addr(OWNER), addr(5), &payments, &vec![(addr(1), nft.clone(), 1u64)]),
        Ok(vec![send(1, "NFT-aaaaaa", 1, 1)])
    );
    assert_eq!(
        c.nft_distribution(addr(OWNER), addr(5), &payments, &vec![]),
        Err(Error::NftCountMismatch)
    );
    assert_eq!(
        c.nft_distribution(addr(OWNER), addr(6), &payments, &vec![]),
        Err(Error::CallerNotAllowed)
    );
    let sft = pay("SFT-bbbbbb", 3, 10);
    assert_eq!(
        c.sft_distribution(addr(OWNER), addr(5), &sft, &vec![(addr(1), Amount::from_u64(3))]),
        Ok(vec![send(1, "SFT-bbbbbb", 3, 3), send(5, "SFT-bbbbbb", 3, 7)])
    );
    c.upgrade();
    assert_eq!(c.get_allowed_users(), &[addr(5)]);
}

#[test]
fn transfer_module_checks_users() {
    let mut users = UsersModule::new();
    let payment = pay("EGLD", 0, 10);
    let reqs = vec![(addr(1), Amount::from_u64(4))];
    assert_eq!(TransferModule::smart_send(&users, addr(OWNER), addr(5), &payment, &reqs), Err(Error::CallerNotAllowed));
    users.add_user(addr(OWNER), addr(OWNER), addr(5)).unwrap();
    assert_eq!(
        TransferModule::smart_send(&users, addr(OWNER), addr(5), &payment, &reqs),
        Ok(vec![send(1, "EGLD", 0, 4), send(5, "EGLD", 0, 6)])
    );
    assert_eq!(
        TransferModule::smart_nft_send(&users, addr(OWNER), addr(5), &vec![pay("NFT-aaaaaa", 1, 1)], &vec![]),
        Err(Error::NftCountMismatch)
    );
    assert_eq!(users.require_user_is_allowed(addr(OWNER), addr(OWNER)), Ok(()));
}
