//! Splitting one payment among many receivers, and handing out NFTs.
use vstd::prelude::*;
use crate::amount::Amount;
use crate::data::{Address, Error, Payment, PaymentView, TokenIdentifier, Transfer, TransferView, transfers_view};

verus! {

/// The requested payouts, with amounts as numbers.
pub open spec fn requests_view(reqs: Seq<(Address, Amount)>) -> Seq<(Address, nat)> {
    reqs.map_values(|r: (Address, Amount)| (r.0, r.1@))
}

/// The sum of the requested amounts.
pub open spec fn requested_total(reqs: Seq<(Address, nat)>) -> nat
    decreases reqs.len(),
{
    if reqs.len() == 0 {
        0
    } else {
        requested_total(reqs.drop_last()) + reqs.last().1
    }
}

/// `amount` of the token (and nonce) of `payment`, to `receiver`.
pub open spec fn payout(payment: PaymentView, receiver: Address, amount: nat) -> TransferView {
    TransferView {
        receiver,
        payment: PaymentView { token: payment.token, nonce: payment.nonce, amount },
    }
}

/// One payout of the paid token per request, in order.
pub open spec fn payouts(payment: PaymentView, reqs: Seq<(Address, nat)>) -> Seq<TransferView> {
    reqs.map_values(|r: (Address, nat)| payout(payment, r.0, r.1))
}

/// The payouts, followed, when the payment exceeds what was requested, by the
/// rest of the payment back to `caller`.
pub open spec fn distribution_plan(
    caller: Address,
    payment: PaymentView,
    reqs: Seq<(Address, nat)>,
) -> Seq<TransferView> {
    let total = requested_total(reqs);
    if payment.amount > total {
        payouts(payment, reqs).push(payout(payment, caller, (payment.amount - total) as nat))
    } else {
        payouts(payment, reqs)
    }
}

/// The NFT requests as plain values.
pub open spec fn nft_requests_view(reqs: Seq<(Address, TokenIdentifier, u64)>) -> Seq<
    (Address, Seq<u8>, u64),
> {
    reqs.map_values(|r: (Address, TokenIdentifier, u64)| (r.0, r.1@, r.2))
}

/// One unit of each requested token and nonce, to its receiver, in order.
pub open spec fn nft_plan(reqs: Seq<(Address, Seq<u8>, u64)>) -> Seq<TransferView> {
    reqs.map_values(
        |r: (Address, Seq<u8>, u64)|
            TransferView { receiver: r.0, payment: PaymentView { token: r.1, nonce: r.2, amount: 1 } },
    )
}

/// The sum of the amounts that a list of transfers moves.
pub open spec fn sent_total(s: Seq<TransferView>) -> nat
    decreases s.len(),
{
    if s.len() == 0 {
        0
    } else {
        sent_total(s.drop_last()) + s.last().payment.amount
    }
}

/// A request total grows with the list of requests.
pub proof fn lemma_requested_total_prefix(reqs: Seq<(Address, nat)>, i: int)
    requires
        0 <= i <= reqs.len(),
    ensures
        requested_total(reqs.take(i)) <= requested_total(reqs),
    decreases reqs.len() - i,
{
    if i < reqs.len() {
        lemma_requested_total_prefix(reqs, i + 1);
        assert(reqs.take(i + 1).drop_last() =~= reqs.take(i));
    } else {
        assert(reqs.take(i) =~= reqs);
    }
}

pub proof fn lemma_payouts_total(payment: PaymentView, reqs: Seq<(Address, nat)>)
    ensures
        sent_total(payouts(payment, reqs)) == requested_total(reqs),
    decreases reqs.len(),
{
    if reqs.len() > 0 {
        lemma_payouts_total(payment, reqs.drop_last());
        assert(payouts(payment, reqs).drop_last() =~= payouts(payment, reqs.drop_last()));
    }
}

/// Law: a distribution moves out exactly what came in when the requests do not
/// exceed the payment, and exactly the requests otherwise; every transfer is in
/// the paid token and nonce; receiver `i` gets request `i`, and only the caller
/// can get anything more.
pub proof fn lemma_distribution_conserves(
    caller: Address,
    payment: PaymentView,
    reqs: Seq<(Address, nat)>,
)
    ensures
        sent_total(distribution_plan(caller, payment, reqs)) == if payment.amount > requested_total(
            reqs,
        ) {
            payment.amount
        } else {
            requested_total(reqs)
        },
        forall|i: int|
            0 <= i < distribution_plan(caller, payment, reqs).len() ==> {
                let t = #[trigger] distribution_plan(caller, payment, reqs)[i];
                &&& t.payment.token == payment.token
                &&& t.payment.nonce == payment.nonce
                &&& i < reqs.len() ==> t.receiver == reqs[i].0 && t.payment.amount == reqs[i].1
                &&& i >= reqs.len() ==> t.receiver == caller
            },
        distribution_plan(caller, payment, reqs).len() == reqs.len() + if payment.amount
            > requested_total(reqs) {
            1int
        } else {
            0int
        },
{
    lemma_payouts_total(payment, reqs);
    let plan = distribution_plan(caller, payment, reqs);
    if payment.amount > requested_total(reqs) {
        assert(plan.drop_last() =~= payouts(payment, reqs));
    }
}

/// Law: receiver `i` of a distribution gets exactly request `i`, in the paid
/// token and nonce, and the requests are read as given.
pub proof fn lemma_payouts_follow_requests(payment: PaymentView, reqs: Seq<(Address, Amount)>)
    ensures
        requests_view(reqs).len() == reqs.len(),
        payouts(payment, requests_view(reqs)).len() == reqs.len(),
        forall|i: int|
            0 <= i < reqs.len() ==> #[trigger] payouts(payment, requests_view(reqs))[i] == (TransferView {
                receiver: reqs[i].0,
                payment: PaymentView { token: payment.token, nonce: payment.nonce, amount: reqs[i].1@ },
            }),
{
    assert forall|i: int| 0 <= i < reqs.len() implies #[trigger] payouts(payment, requests_view(reqs))[i]
        == (TransferView {
        receiver: reqs[i].0,
        payment: PaymentView { token: payment.token, nonce: payment.nonce, amount: reqs[i].1@ },
    }) by {
        assert(requests_view(reqs)[i] == (reqs[i].0, reqs[i].1@));
    }
}

/// Law: an NFT distribution sends, for each request in order, one unit of the
/// request's own token and nonce to the request's receiver, and nothing else.
pub proof fn lemma_nft_plan_follows_requests(reqs: Seq<(Address, TokenIdentifier, u64)>)
    ensures
        nft_plan(nft_requests_view(reqs)).len() == reqs.len(),
        forall|i: int|
            0 <= i < reqs.len() ==> #[trigger] nft_plan(nft_requests_view(reqs))[i] == (TransferView {
                receiver: reqs[i].0,
                payment: PaymentView { token: reqs[i].1@, nonce: reqs[i].2, amount: 1 },
            }),
{
    assert forall|i: int| 0 <= i < reqs.len() implies #[trigger] nft_plan(nft_requests_view(reqs))[i]
        == (TransferView {
        receiver: reqs[i].0,
        payment: PaymentView { token: reqs[i].1@, nonce: reqs[i].2, amount: 1 },
    }) by {
        assert(nft_requests_view(reqs)[i] == (reqs[i].0, reqs[i].1@, reqs[i].2));
    }
}

/// Splitting payments of fungible tokens and handing out NFTs.
pub struct DistributionModule;

impl DistributionModule {
    /// Pays each receiver its amount of the paid token; what the payment holds
    /// beyond the requested total goes back to `caller`.
    pub fn distribute_egld_or_esdt(
        caller: Address,
        payment: &Payment,
        transfers: &Vec<(Address, Amount)>,
    ) -> (r: Vec<Transfer>)
        ensures
            transfers_view(r@) == distribution_plan(caller, payment@, requests_view(transfers@)),
    {
        let ghost reqs = requests_view(transfers@);
        let mut sent = Amount::zero();
        let mut out: Vec<Transfer> = Vec::new();
        let mut i: usize = 0;
        while i < transfers.len()
            invariant
                i <= transfers@.len(),
                reqs == requests_view(transfers@),
                sent@ == requested_total(reqs.take(i as int)),
                transfers_view(out@) == payouts(payment@, reqs.take(i as int)),
            decreases transfers@.len() - i,
        {
            let receiver = transfers[i].0;
            let amount = &transfers[i].1;
            sent = sent.add(amount);
            let t = Transfer::new(receiver, payment.with_amount(amount.duplicate()));
            proof {
                assert(reqs.take(i + 1).drop_last() =~= reqs.take(i as int));
                assert(reqs[i as int] == (receiver, amount@));
            }
            let ghost old_out = out@;
            out.push(t);
            proof {
                assert(transfers_view(out@) =~= transfers_view(old_out).push(t@));
                assert(payouts(payment@, reqs.take(i + 1)) =~= payouts(payment@, reqs.take(i as int)).push(
                    payout(payment@, receiver, amount@),
                ));
            }
            i = i + 1;
        }
        assert(reqs.take(i as int) =~= reqs);
        if payment.amount.gt(&sent) {
            let rest = payment.amount.sub(&sent);
            out.push(Transfer::new(caller, payment.with_amount(rest)));
            assert(transfers_view(out@) =~= distribution_plan(caller, payment@, reqs));
        }
        out
    }

    /// Hands one unit of each requested NFT to its receiver; the number of
    /// received payments must equal the number of requests.
    pub fn distribute_nfts(
        payments: &Vec<Payment>,
        transfers: &Vec<(Address, TokenIdentifier, u64)>,
    ) -> (r: Result<Vec<Transfer>, Error>)
        ensures
            match r {
                Ok(out) => transfers.len() == payments.len() && transfers_view(out@) == nft_plan(
                    nft_requests_view(transfers@),
                ),
                Err(e) => transfers.len() != payments.len() && e == Error::NftCountMismatch,
            },
    {
        if transfers.len() != payments.len() {
            return Err(Error::NftCountMismatch);
        }
        let ghost reqs = nft_requests_view(transfers@);
        let mut out: Vec<Transfer> = Vec::new();
        let mut i: usize = 0;
        while i < transfers.len()
            invariant
                i <= transfers@.len(),
                reqs == nft_requests_view(transfers@),
                transfers_view(out@) == nft_plan(reqs.take(i as int)),
            decreases transfers@.len() - i,
        {
            let token = transfers[i].1.duplicate();
            let t = Transfer::new(transfers[i].0, Payment::new(token, transfers[i].2, Amount::from_u64(1)));
            let ghost old_out = out@;
            out.push(t);
            proof {
                assert(transfers_view(out@) =~= transfers_view(old_out).push(t@));
                assert(reqs[i as int] == (transfers@[i as int].0, transfers@[i as int].1@, transfers@[i as int].2));
                assert(nft_plan(reqs.take(i + 1)) =~= nft_plan(reqs.take(i as int)).push(t@));
            }
            i = i + 1;
        }
        assert(reqs.take(i as int) =~= reqs);
        Ok(out)
    }
}

} // verus!
