//! Values that the contracts read and produce: addresses, token identifiers,
//! payments, transfers, the actions handed back to the chain, and errors.
use vstd::prelude::*;
use crate::amount::Amount;

verus! {

/// An account or contract address: 32 bytes, as four big-endian 64-bit words.
#[derive(Clone, Copy, PartialEq, Eq, Structural, Debug, Hash)]
pub struct Address(pub u64, pub u64, pub u64, pub u64);

impl Address {
    /// The all-zero address.
    pub fn zero() -> (r: Address)
        ensures
            r == Address(0, 0, 0, 0),
    {
        Address(0, 0, 0, 0)
    }

    /// Whether the two addresses are the same.
    pub fn same(&self, other: &Address) -> (r: bool)
        ensures
            r == (*self == *other),
    {
        self.0 == other.0 && self.1 == other.1 && self.2 == other.2 && self.3 == other.3
    }
}

/// The bytes of the identifier of the native token, `EGLD`.
pub open spec fn egld_bytes() -> Seq<u8> {
    seq![69u8, 71u8, 76u8, 68u8]
}

/// A token identifier, such as `WEGLD-bd4d79`, or `EGLD` for the native token.
#[derive(Debug, PartialEq, Eq)]
pub struct TokenIdentifier {
    bytes: Vec<u8>,
}

impl View for TokenIdentifier {
    type V = Seq<u8>;

    closed spec fn view(&self) -> Seq<u8> {
        self.bytes@
    }
}

impl TokenIdentifier {
    /// The identifier spelled by `bytes`.
    pub fn from_bytes(bytes: &[u8]) -> (r: TokenIdentifier)
        ensures
            r@ == bytes@,
    {
        let mut v: Vec<u8> = Vec::new();
        let mut i: usize = 0;
        while i < bytes.len()
            invariant
                i <= bytes@.len(),
                v@ =~= bytes@.subrange(0, i as int),
            decreases bytes@.len() - i,
        {
            v.push(bytes[i]);
            i = i + 1;
        }
        assert(v@ =~= bytes@);
        TokenIdentifier { bytes: v }
    }

    /// The identifier of the native token.
    pub fn egld() -> (r: TokenIdentifier)
        ensures
            r@ == egld_bytes(),
    {
        let v: Vec<u8> = vec![69u8, 71u8, 76u8, 68u8];
        assert(v@ =~= egld_bytes());
        TokenIdentifier { bytes: v }
    }

    /// The bytes of the identifier.
    pub fn as_bytes(&self) -> (r: &[u8])
        ensures
            r@ == self@,
    {
        self.bytes.as_slice()
    }

    /// Whether the two identifiers are spelled the same.
    pub fn same(&self, other: &TokenIdentifier) -> (r: bool)
        ensures
            r == (self@ == other@),
    {
        let a = &self.bytes;
        let b = &other.bytes;
        assert(a@ == self@ && b@ == other@);
        if a.len() != b.len() {
            return false;
        }
        let mut i: usize = 0;
        while i < a.len()
            invariant
                a@ == self@,
                b@ == other@,
                a@.len() == b@.len(),
                i <= a@.len(),
                forall|j: int| 0 <= j < i ==> a@[j] == b@[j],
            decreases a@.len() - i,
        {
            if a[i] != b[i] {
                assert(a@[i as int] != b@[i as int]);
                return false;
            }
            i = i + 1;
        }
        assert(a@ =~= b@);
        true
    }

    /// A copy of the identifier.
    pub fn duplicate(&self) -> (r: TokenIdentifier)
        ensures
            r@ == self@,
    {
        let bytes = self.bytes.clone();
        assert(bytes@ =~= self.bytes@);
        TokenIdentifier { bytes }
    }
}

impl Clone for TokenIdentifier {
    fn clone(&self) -> (r: TokenIdentifier)
        ensures
            r@ == self@,
    {
        self.duplicate()
    }
}

/// What a payment is: a token, its nonce (0 for fungible tokens) and an amount.
pub struct PaymentView {
    pub token: Seq<u8>,
    pub nonce: u64,
    pub amount: nat,
}

/// An amount of one token (of one nonce of it).
#[derive(Debug, PartialEq, Eq)]
pub struct Payment {
    pub token_identifier: TokenIdentifier,
    pub token_nonce: u64,
    pub amount: Amount,
}

impl View for Payment {
    type V = PaymentView;

    open spec fn view(&self) -> PaymentView {
        PaymentView { token: self.token_identifier@, nonce: self.token_nonce, amount: self.amount@ }
    }
}

impl Payment {
    pub fn new(token_identifier: TokenIdentifier, token_nonce: u64, amount: Amount) -> (r: Payment)
        ensures
            r.token_identifier@ == token_identifier@,
            r.token_nonce == token_nonce,
            r.amount@ == amount@,
    {
        Payment { token_identifier, token_nonce, amount }
    }

    /// A payment of `amount` of the native token.
    pub fn egld(amount: Amount) -> (r: Payment)
        ensures
            r@ == (PaymentView { token: egld_bytes(), nonce: 0, amount: amount@ }),
    {
        Payment { token_identifier: TokenIdentifier::egld(), token_nonce: 0, amount }
    }

    /// A payment of the same token and nonce, of another amount.
    pub fn with_amount(&self, amount: Amount) -> (r: Payment)
        ensures
            r@ == (PaymentView { token: self@.token, nonce: self@.nonce, amount: amount@ }),
    {
        Payment {
            token_identifier: self.token_identifier.duplicate(),
            token_nonce: self.token_nonce,
            amount,
        }
    }

    /// A copy of the payment.
    pub fn duplicate(&self) -> (r: Payment)
        ensures
            r@ == self@,
    {
        self.with_amount(self.amount.duplicate())
    }
}

impl Clone for Payment {
    fn clone(&self) -> (r: Payment)
        ensures
            r@ == self@,
    {
        self.duplicate()
    }
}

/// What a transfer is: who receives, and what.
pub struct TransferView {
    pub receiver: Address,
    pub payment: PaymentView,
}

/// A payment addressed to a receiver.
#[derive(Debug, PartialEq, Eq)]
pub struct Transfer {
    pub receiver: Address,
    pub payment_token: Payment,
}

impl View for Transfer {
    type V = TransferView;

    open spec fn view(&self) -> TransferView {
        TransferView { receiver: self.receiver, payment: self.payment_token@ }
    }
}

impl Transfer {
    pub fn new(receiver: Address, payment_token: Payment) -> (r: Transfer)
        ensures
            r@ == (TransferView { receiver, payment: payment_token@ }),
    {
        Transfer { receiver, payment_token }
    }

    /// A copy of the transfer.
    pub fn duplicate(&self) -> (r: Transfer)
        ensures
            r@ == self@,
    {
        Transfer { receiver: self.receiver, payment_token: self.payment_token.duplicate() }
    }
}

impl Clone for Transfer {
    fn clone(&self) -> (r: Transfer)
        ensures
            r@ == self@,
    {
        self.duplicate()
    }
}

/// The views of a sequence of transfers.
pub open spec fn transfers_view(s: Seq<Transfer>) -> Seq<TransferView> {
    s.map_values(|t: Transfer| t@)
}

/// What an action is.
pub enum ActionView {
    Send(TransferView),
    UnwrapEgld { wegld_contract: Address, payment: PaymentView },
    ChangeOwner { contract: Address, new_owner: Address },
}

/// Work that a contract hands back to the chain, to be carried out in order.
#[derive(Debug, PartialEq, Eq)]
pub enum Action {
    /// Send a payment to an address.
    Send(Transfer),
    /// Pass wrapped EGLD to the wrapping contract, calling its `unwrapEgld` endpoint.
    UnwrapEgld { wegld_contract: Address, payment: Payment },
    /// Make `new_owner` the owner of `contract`.
    ChangeOwner { contract: Address, new_owner: Address },
}

impl View for Action {
    type V = ActionView;

    open spec fn view(&self) -> ActionView {
        match self {
            Action::Send(t) => ActionView::Send(t@),
            Action::UnwrapEgld { wegld_contract, payment } => ActionView::UnwrapEgld {
                wegld_contract: *wegld_contract,
                payment: payment@,
            },
            Action::ChangeOwner { contract, new_owner } => ActionView::ChangeOwner {
                contract: *contract,
                new_owner: *new_owner,
            },
        }
    }
}

/// The views of a sequence of actions.
pub open spec fn actions_view(s: Seq<Action>) -> Seq<ActionView> {
    s.map_values(|a: Action| a@)
}

/// A deployment of a new contract from the code of a deployed one.
#[derive(Debug, PartialEq, Eq)]
pub struct DeployRequest {
    /// The contract whose code is copied.
    pub source_contract: Address,
    /// The EGLD passed to the new contract.
    pub egld_value: Amount,
    /// Code metadata: whether the new contract can be upgraded.
    pub upgradeable: bool,
    /// Code metadata: whether other contracts can read its storage.
    pub readable: bool,
    /// Code metadata: whether it accepts payments.
    pub payable: bool,
    /// Code metadata: whether it accepts payments from contracts.
    pub payable_by_sc: bool,
    /// The arguments of its `init` endpoint, encoded.
    pub arguments: Vec<Vec<u8>>,
    /// The gas for the deployment; none leaves it to the chain's default.
    pub gas: Option<u64>,
}

/// A deployment from `source` with no EGLD, upgradeable and readable code
/// metadata only, no `init` arguments, and the given gas.
pub open spec fn is_plain_deploy(r: DeployRequest, source: Address, gas: Option<u64>) -> bool {
    &&& r.source_contract == source
    &&& r.egld_value@ == 0
    &&& r.upgradeable
    &&& r.readable
    &&& !r.payable
    &&& !r.payable_by_sc
    &&& r.arguments@.len() == 0
    &&& r.gas == gas
}

impl DeployRequest {
    /// A deployment from `source` with no EGLD, upgradeable and readable code
    /// metadata, no `init` arguments, and the given gas.
    pub fn plain(source: Address, gas: Option<u64>) -> (r: DeployRequest)
        ensures
            is_plain_deploy(r, source, gas),
    {
        DeployRequest {
            source_contract: source,
            egld_value: Amount::zero(),
            upgradeable: true,
            readable: true,
            payable: false,
            payable_by_sc: false,
            arguments: Vec::new(),
            gas,
        }
    }
}

/// Why an endpoint refused a call.
#[derive(Debug, PartialEq, Eq)]
pub enum Error {
    /// "Endpoint can only be called by owner"
    NotOwner,
    /// "Caller is not allowed to use the contract"
    CallerNotAllowed,
    /// "Number of NFTs sent must be equal to number of transfers"
    NftCountMismatch,
    /// "Invalid number of payments received"
    InvalidPaymentCount,
    /// "First payments should be {wegld}", with the expected identifier.
    FirstPaymentNotWegld(TokenIdentifier),
    /// "Payment received cannot satisfy all the transfers"
    PaymentTooSmall,
    /// "No transfers found for id {id}"
    NoTransfersFound(u64),
    /// "Cannot finish execution, there are {count} transfers left to be executed"
    TransfersLeft(usize),
    /// "Invalid EGLD payment amount"
    InvalidEgldPayment,
    /// "No contract(s) to claim"
    NothingToClaim,
    /// The source contract to deploy from was never set, so reading it fails.
    SourceContractUnset,
}

} // verus!
