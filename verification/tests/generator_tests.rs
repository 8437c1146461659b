use smart_send::amount::Amount;
use smart_send::data::{Action, Address, DeployRequest, Error, Payment, Transfer};
use smart_send::remarkable_tools::base;
use smart_send::remarkable_tools::transfer::TransferModule;
use smart_send::remarkable_tools::RemarkableToolsSmartSend;

fn addr(n: u64) -> Address {
    Address(n, 0, 0, 0)
}

const OWNER: u64 = 100;
const SOURCE: u64 = 60;

#[test]
fn generate_checks_price_and_source() {
    let mut c = RemarkableToolsSmartSend::init(addr(SOURCE));
    assert_eq!(c.generator.generate(&Amount::zero()), Ok(DeployRequest::plain(addr(SOURCE), None)));
    assert_eq!(c.generator.generate(&Amount::from_u64(1)), Err(Error::InvalidEgldPayment));
    assert_eq!(c.generator.set_contract_price(addr(OWNER), addr(1), Amount::from_u64(5)), Err(Error::NotOwner));
    c.generator.set_contract_price(addr(OWNER), addr(OWNER), Amount::from_u64(5)).unwrap();
    assert_eq!(c.generator.storage.get_generation_price(), Amount::from_u64(5));
    assert_eq!(c.generator.generate(&Amount::from_u64(4)), Err(Error::InvalidEgldPayment));
    assert_eq!(c.generator.generate(&Amount::from_u64(5)), Ok(DeployRequest::plain(addr(SOURCE), None)));
    assert_eq!(c.generator.set_source_contract(addr(OWNER), addr(1), addr(61)), Err(Error::NotOwner));
    c.generator.set_source_contract(addr(OWNER), addr(OWNER), addr(61)).unwrap();
    assert_eq!(c.generator.storage.get_source_contract(), Some(addr(61)));
}

#[test]
fn generate_then_claim_once() {
    let mut c = RemarkableToolsSmartSend::init(addr(SOURCE));
    let actions = c.generator.finish_generate(addr(OWNER), addr(3), addr(70), Amount::from_u64(9));
    assert_eq!(actions, vec![Action::Send(Transfer::new(addr(OWNER), Payment::egld(Amount::from_u64(9))))]);
    assert_eq!(c.generator.storage.get_unclaimed_contracts(&addr(3)), vec![addr(70)]);
    // Someone else cannot claim it.
    assert_eq!(c.generator.claim_ownership(addr(4), addr(70)), Err(Error::NothingToClaim));
    assert_eq!(
        c.generator.claim_ownership(addr(3), addr(70)),
        Ok(Action::ChangeOwner { contract: addr(70), new_owner: addr(3) })
    );
    assert_eq!(c.generator.storage.get_unclaimed_contracts(&addr(3)), vec![]);
    assert_eq!(c.generator.claim_ownership(addr(3), addr(70)), Err(Error::NothingToClaim));
    c.upgrade();
}

#[test]
fn base_contract_starts_without_source() {
    let mut c = base::RemarkableToolsSmartSend::init();
    assert_eq!(c.generate(&Amount::zero(), 1000), Err(Error::SourceContractUnset));
    assert_eq!(c.generate(&Amount::from_u64(1), 1000), Err(Error::InvalidEgldPayment));
    c.set_source_contract(addr(OWNER), addr(OWNER), addr(SOURCE)).unwrap();
    c.set_contract_price(addr(OWNER), addr(OWNER), Amount::from_u64(2)).unwrap();
    assert_eq!(c.generate(&Amount::from_u64(2), 1001), Ok(DeployRequest::plain(addr(SOURCE), Some(500))));
    c.finish_generate(addr(OWNER), addr(3), addr(71), Amount::from_u64(2));
    c.finish_generate(addr(OWNER), addr(3), addr(72), Amount::from_u64(2));
    assert_eq!(c.generator.storage.get_unclaimed_contracts(&addr(3)), vec![addr(71), addr(72)]);
    assert_eq!(
        c.claim_ownership(addr(3), addr(71)),
        Ok(Action::ChangeOwner { contract: addr(71), new_owner: addr(3) })
    );
    assert_eq!(c.generator.storage.get_unclaimed_contracts(&addr(3)), vec![addr(72)]);
    c.upgrade();
}

#[test]
fn generator_transfer_module() {
    let payment = Payment::egld(Amount::from_u64(10));
    let out = TransferModule::token_distribution(addr(1), &payment, &vec![(addr(2), Amount::from_u64(10))]);
    assert_eq!(out, vec![Transfer::new(addr(2), Payment::egld(Amount::from_u64(10)))]);
    let out = TransferModule::sft_distribution(addr(1), &payment, &vec![]);
    assert_eq!(out, vec![Transfer::new(addr(1), Payment::egld(Amount::from_u64(10)))]);
    assert_eq!(TransferModule::nft_distribution(&vec![payment], &vec![]), Err(Error::NftCountMismatch));
}

#[test]
fn claims_follow_the_purchase_history() {
    let mut c = RemarkableToolsSmartSend::init(addr(SOURCE));
    c.generator.finish_generate(addr(OWNER), addr(3), addr(70), Amount::zero());
    c.generator.finish_generate(addr(OWNER), addr(4), addr(71), Amount::zero());
    c.generator.finish_generate(addr(OWNER), addr(3), addr(72), Amount::zero());
    // Each caller can claim only its own contracts, each once.
    assert_eq!(c.generator.claim_ownership(addr(3), addr(71)), Err(Error::NothingToClaim));
    assert!(c.generator.claim_ownership(addr(4), addr(71)).is_ok());
    assert_eq!(c.generator.claim_ownership(addr(4), addr(71)), Err(Error::NothingToClaim));
    assert!(c.generator.claim_ownership(addr(3), addr(70)).is_ok());
    assert_eq!(c.generator.storage.get_unclaimed_contracts(&addr(3)), vec![addr(72)]);
    assert_eq!(c.generator.storage.get_unclaimed_contracts(&addr(4)), vec![]);
}

#[test]
fn generated_contract_is_deployed_plainly() {
    let c = RemarkableToolsSmartSend::init(addr(SOURCE));
    let req = c.generator.generate(&Amount::zero()).unwrap();
    assert_eq!(req.source_contract, addr(SOURCE));
    assert!(req.egld_value.is_zero());
    assert!(req.upgradeable && req.readable);
    assert!(!req.payable && !req.payable_by_sc);
    assert!(req.arguments.is_empty());
    assert_eq!(req.gas, None);

    let mut b = base::RemarkableToolsSmartSend::init();
    b.set_source_contract(addr(OWNER), addr(OWNER), addr(SOURCE)).unwrap();
    let req = b.generate(&Amount::zero(), 80_000_000).unwrap();
    assert_eq!(req.source_contract, addr(SOURCE));
    assert!(req.egld_value.is_zero());
    assert!(req.upgradeable && req.readable && !req.payable && !req.payable_by_sc);
    assert!(req.arguments.is_empty());
    assert_eq!(req.gas, Some(40_000_000));
}
