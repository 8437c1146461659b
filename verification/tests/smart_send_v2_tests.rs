use smart_send::amount::Amount;
use smart_send::data::{Action, Address, Error, Payment, TokenIdentifier, Transfer};
use smart_send::smart_send_v2::transfer::TransferModule;
use smart_send::smart_send_v2::SmartSendV2;

fn addr(n: u64) -> Address {
    Address(n, 0, 0, 0)
}

fn pay(t: &str, nonce: u64, amount: u64) -> Payment {
    Payment::new(TokenIdentifier::from_bytes(t.as_bytes()), nonce, Amount::from_u64(amount))
}

fn send(to: u64, t: &str, nonce: u64, amount: u64) -> Transfer {
    Transfer::new(addr(to), pay(t, nonce, amount))
}

const OWNER: u64 = 100;
const CALLER: u64 = 5;
const EXECUTOR: u64 = 7;
const WEGLD: &str = "WEGLD-bd4d79";
const TOKEN: &str = "TKN-123456";

fn contract() -> SmartSendV2 {
    let mut c = SmartSendV2::init(TokenIdentifier::from_bytes(WEGLD.as_bytes()), addr(50));
    c.users.add_user(addr(OWNER), addr(OWNER), addr(CALLER)).unwrap();
    c
}

fn requests(amounts: &[u64]) -> Vec<(Address, Amount)> {
    amounts.iter().enumerate().map(|(i, a)| (addr(1000 + i as u64), Amount::from_u64(*a))).collect()
}

fn save(c: &mut SmartSendV2, wegld: u64, paid: u64, amounts: &[u64], fresh: u64) -> Result<Vec<Action>, Error> {
    let payments = vec![pay(WEGLD, 0, wegld), pay(TOKEN, 0, paid)];
    c.transfers.smart_save(
        &c.users,
        &c.storage,
        addr(OWNER),
        addr(CALLER),
        addr(EXECUTOR),
        &payments,
        &requests(amounts),
        fresh,
    )
}

#[test]
fn smart_save_stores_transfers_and_pays_executor() {
    let mut c = contract();
    let actions = save(&mut c, 3, 100, &[30, 50], 42).unwrap();
    assert_eq!(
        actions,
        vec![
            Action::Send(send(CALLER, TOKEN, 0, 20)),
            Action::UnwrapEgld { wegld_contract: addr(50), payment: pay(WEGLD, 0, 3) },
            Action::Send(send(EXECUTOR, "EGLD", 0, 3)),
        ]
    );
    assert_eq!(c.transfers.get_executor_transfers(&addr(EXECUTOR)), 42);
    assert_eq!(c.transfers.get_initiator_transfers(&addr(CALLER)), vec![addr(EXECUTOR)]);
    assert_eq!(
        c.transfers.get_tokens_transfers(42),
        vec![send(1000, TOKEN, 0, 30), send(1001, TOKEN, 0, 50)]
    );
}

#[test]
fn smart_save_again_appends_under_the_same_id() {
    let mut c = contract();
    save(&mut c, 1, 30, &[30], 42).unwrap();
    // The second fresh id is not used: the executor is known.
    let actions = save(&mut c, 1, 10, &[10], 43).unwrap();
    assert_eq!(actions.len(), 2);
    assert_eq!(c.transfers.get_executor_transfers(&addr(EXECUTOR)), 42);
    assert_eq!(
        c.transfers.get_tokens_transfers(42),
        vec![send(1000, TOKEN, 0, 30), send(1000, TOKEN, 0, 10)]
    );
    assert_eq!(c.transfers.get_tokens_transfers(43), vec![]);
}

#[test]
fn smart_save_errors() {
    let mut c = contract();
    // Caller not allowed.
    let payments = vec![pay(WEGLD, 0, 1), pay(TOKEN, 0, 10)];
    assert_eq!(
        c.transfers.smart_save(&c.users, &c.storage, addr(OWNER), addr(6), addr(EXECUTOR), &payments, &requests(&[1]), 1),
        Err(Error::CallerNotAllowed)
    );
    // Wrong number of payments.
    let one = vec![pay(WEGLD, 0, 1)];
    assert_eq!(
        c.transfers.smart_save(&c.users, &c.storage, addr(OWNER), addr(CALLER), addr(EXECUTOR), &one, &requests(&[1]), 1),
        Err(Error::InvalidPaymentCount)
    );
    // First payment not wrapped EGLD.
    let swapped = vec![pay(TOKEN, 0, 10), pay(WEGLD, 0, 1)];
    assert_eq!(
        c.transfers.smart_save(&c.users, &c.storage, addr(OWNER), addr(CALLER), addr(EXECUTOR), &swapped, &requests(&[1]), 1),
        Err(Error::FirstPaymentNotWegld(TokenIdentifier::from_bytes(WEGLD.as_bytes())))
    );
    // Requests exceed the payment.
    assert_eq!(save(&mut c, 1, 10, &[6, 5], 1), Err(Error::PaymentTooSmall));
    // Nothing was stored.
    assert_eq!(c.transfers.get_executor_transfers(&addr(EXECUTOR)), 0);
    assert_eq!(c.transfers.get_initiator_transfers(&addr(CALLER)), vec![]);
    assert_eq!(c.transfers.get_tokens_transfers(1), vec![]);
}

#[test]
fn store_transfers_accounts_for_the_whole_payment() {
    let payment = pay(TOKEN, 0, 100);
    let (list, refund) = TransferModule::store_transfers(addr(CALLER), &payment, &requests(&[25, 25, 40])).unwrap();
    let mut total = Amount::zero();
    for t in &list {
        total = total.add(&t.payment_token.amount);
    }
    assert_eq!(refund, vec![Action::Send(send(CALLER, TOKEN, 0, 10))]);
    assert_eq!(total.add(&Amount::from_u64(10)), Amount::from_u64(100));
    let (_, no_refund) = TransferModule::store_transfers(addr(CALLER), &payment, &requests(&[100])).unwrap();
    assert_eq!(no_refund, vec![]);
    assert_eq!(
        TransferModule::store_transfers(addr(CALLER), &payment, &requests(&[100, 1])),
        Err(Error::PaymentTooSmall)
    );
}

#[test]
fn smart_execute_takes_first_then_last() {
    let mut c = contract();
    save(&mut c, 1, 100, &[1, 2, 3, 4, 5], 42).unwrap();
    let actions = c.transfers.smart_execute(addr(EXECUTOR), None).unwrap();
    assert_eq!(
        actions,
        vec![
            Action::Send(send(1000, TOKEN, 0, 1)),
            Action::Send(send(1004, TOKEN, 0, 5)),
            Action::Send(send(1003, TOKEN, 0, 4)),
            Action::Send(send(1002, TOKEN, 0, 3)),
            Action::Send(send(1001, TOKEN, 0, 2)),
        ]
    );
    assert_eq!(c.transfers.get_tokens_transfers(42), vec![]);
    assert_eq!(c.transfers.smart_execute(addr(EXECUTOR), None), Err(Error::NoTransfersFound(42)));
}

#[test]
fn smart_execute_runs_in_batches_of_one_hundred() {
    let mut c = contract();
    let amounts: Vec<u64> = (1..=150).collect();
    save(&mut c, 1, 150 * 151 / 2, &amounts, 42).unwrap();
    // Anyone may execute a given id.
    let first = c.transfers.smart_execute(addr(999), Some(42)).unwrap();
    assert_eq!(first.len(), 100);
    assert_eq!(first[0], Action::Send(send(1000, TOKEN, 0, 1)));
    assert_eq!(first[1], Action::Send(send(1149, TOKEN, 0, 150)));
    let left = c.transfers.get_tokens_transfers(42);
    assert_eq!(left.len(), 50);
    assert_eq!(left[0], send(1050, TOKEN, 0, 51));
    assert_eq!(left[1], send(1001, TOKEN, 0, 2));
    // Together, the two batches carry out every transfer exactly once.
    let second = c.transfers.smart_execute(addr(EXECUTOR), None).unwrap();
    assert_eq!(second.len(), 50);
    let mut seen: Vec<u64> = first
        .iter()
        .chain(second.iter())
        .map(|a| match a {
            Action::Send(t) => t.receiver.0,
            _ => panic!("only sends"),
        })
        .collect();
    seen.sort();
    assert_eq!(seen, (1000..1150).collect::<Vec<u64>>());
}

#[test]
fn smart_execute_unknown_id() {
    let mut c = contract();
    assert_eq!(c.transfers.smart_execute(addr(EXECUTOR), Some(3)), Err(Error::NoTransfersFound(3)));
    assert_eq!(c.transfers.smart_execute(addr(EXECUTOR), None), Err(Error::NoTransfersFound(0)));
}

#[test]
fn smart_finish_requires_all_executed() {
    let mut c = contract();
    save(&mut c, 1, 3, &[1, 2], 42).unwrap();
    assert_eq!(c.transfers.smart_finish(addr(CALLER), addr(EXECUTOR)), Err(Error::TransfersLeft(2)));
    c.transfers.smart_execute(addr(EXECUTOR), None).unwrap();
    assert_eq!(c.transfers.smart_finish(addr(CALLER), addr(EXECUTOR)), Ok(()));
    assert_eq!(c.transfers.get_executor_transfers(&addr(EXECUTOR)), 0);
    assert_eq!(c.transfers.get_initiator_transfers(&addr(CALLER)), vec![]);
    // A new save gets the fresh id again.
    save(&mut c, 1, 1, &[1], 77).unwrap();
    assert_eq!(c.transfers.get_executor_transfers(&addr(EXECUTOR)), 77);
}

#[test]
fn smart_send_v2_distributions() {
    let c = contract();
    let payment = pay("EGLD", 0, 10);
    assert_eq!(
        TransferModule::smart_send(&c.users, addr(OWNER), addr(CALLER), &payment, &requests(&[4])),
        Ok(vec![send(1000, "EGLD", 0, 4), send(CALLER, "EGLD", 0, 6)])
    );
    assert_eq!(
        TransferModule::smart_send(&c.users, addr(OWNER), addr(8), &payment, &requests(&[4])),
        Err(Error::CallerNotAllowed)
    );
    assert_eq!(
        TransferModule::smart_nft_send(
            &c.users,
            addr(OWNER),
            addr(CALLER),
            &vec![pay("NFT-aaaaaa", 1, 1)],
            &vec![(addr(1), TokenIdentifier::from_bytes(b"NFT-aaaaaa"), 1u64)]
        ),
        Ok(vec![send(1, "NFT-aaaaaa", 1, 1)])
    );
}

#[test]
fn users_module_add_remove() {
    let mut c = contract();
    assert_eq!(c.users.allowed_users(), &[addr(CALLER)]);
    assert_eq!(c.users.remove_user(addr(OWNER), addr(CALLER), addr(CALLER)), Err(Error::NotOwner));
    c.users.remove_user(addr(OWNER), addr(OWNER), addr(CALLER)).unwrap();
    assert_eq!(c.users.require_user_is_allowed(addr(OWNER), addr(CALLER)), Err(Error::CallerNotAllowed));
    c.upgrade();
    assert_eq!(c.users.allowed_users(), &[] as &[Address]);
}

#[test]
fn successive_executions_drain_the_list() {
    let mut c = contract();
    let amounts: Vec<u64> = (1..=250).collect();
    save(&mut c, 1, 250 * 251 / 2, &amounts, 42).unwrap();
    let mut paid: Vec<u64> = Vec::new();
    let mut sizes = Vec::new();
    for _ in 0..3 {
        let actions = c.transfers.smart_execute(addr(EXECUTOR), Some(42)).unwrap();
        sizes.push(actions.len());
        for a in actions {
            match a {
                Action::Send(t) => paid.push(t.receiver.0),
                _ => panic!("only sends"),
            }
        }
    }
    assert_eq!(sizes, vec![100, 100, 50]);
    assert_eq!(c.transfers.smart_execute(addr(EXECUTOR), Some(42)), Err(Error::NoTransfersFound(42)));
    paid.sort();
    assert_eq!(paid, (1000..1250).collect::<Vec<u64>>());
}
