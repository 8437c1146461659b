//! Distributions paid at once, and distributions saved for an executor who
//! carries them out in batches.
use vstd::prelude::*;
use crate::amount::Amount;
use crate::collections::{AddressSetMap, KeyedMap, set_inserted, set_of, set_removed, sets_unique, swap_removed};
use crate::data::{
    Action, ActionView, Address, Error, Payment, PaymentView, TokenIdentifier, Transfer, TransferView,
    actions_view, egld_bytes, transfers_view,
};
use crate::distribution::{
    DistributionModule, distribution_plan, nft_plan, nft_requests_view, payout, payouts,
    requested_total, requests_view, lemma_requested_total_prefix,
};
use crate::smart_send_v2::storage::StorageModule;
use crate::smart_send_v2::users::UsersModule;

verus! {

/// At most this many saved transfers are carried out by one execution.
pub const BATCH_SIZE: usize = 100;

/// What the stored distributions are.
pub struct TransferModuleView {
    /// For each initiator, the executors it saved distributions for.
    pub initiators: Map<Address, Seq<Address>>,
    /// For each executor, the id of its list of transfers.
    pub executors: Map<Address, u64>,
    /// The saved transfers of each id.
    pub lists: Map<u64, Seq<TransferView>>,
}

/// The id recorded for `executor`; zero when none is.
pub open spec fn executor_id(v: TransferModuleView, executor: Address) -> u64 {
    if v.executors.dom().contains(executor) {
        v.executors[executor]
    } else {
        0
    }
}

/// The executors recorded for `initiator`; none when nothing is.
pub open spec fn initiator_set(v: TransferModuleView, initiator: Address) -> Seq<Address> {
    set_of(v.initiators, initiator)
}

/// The transfers saved under `id`; none when nothing is.
pub open spec fn stored(v: TransferModuleView, id: u64) -> Seq<TransferView> {
    if v.lists.dom().contains(id) {
        v.lists[id]
    } else {
        Seq::empty()
    }
}

/// The refund of what the payment holds beyond the requests, if anything.
pub open spec fn refund_actions(
    caller: Address,
    payment: PaymentView,
    reqs: Seq<(Address, nat)>,
) -> Seq<ActionView> {
    if payment.amount > requested_total(reqs) {
        seq![
            ActionView::Send(
                payout(payment, caller, (payment.amount - requested_total(reqs)) as nat),
            ),
        ]
    } else {
        Seq::empty()
    }
}

/// What a saved distribution hands to the chain: the refund, if any, then the
/// wrapped EGLD to the unwrapping contract, then as much EGLD to the executor.
pub open spec fn save_actions(
    caller: Address,
    wegld_contract: Address,
    executor: Address,
    wegld_payment: PaymentView,
    esdt_payment: PaymentView,
    reqs: Seq<(Address, nat)>,
) -> Seq<ActionView> {
    refund_actions(caller, esdt_payment, reqs) + seq![
        ActionView::UnwrapEgld { wegld_contract, payment: wegld_payment },
        ActionView::Send(
            TransferView {
                receiver: executor,
                payment: PaymentView { token: egld_bytes(), nonce: 0, amount: wegld_payment.amount },
            },
        ),
    ]
}

/// Whether `caller` has saved distributions for `executor` before.
pub open spec fn knows_executor(v: TransferModuleView, caller: Address, executor: Address) -> bool {
    initiator_set(v, caller).contains(executor)
}

/// The id that a saved distribution goes under: the executor's recorded one
/// when the caller used this executor before, else the fresh one.
pub open spec fn save_id(v: TransferModuleView, caller: Address, executor: Address, fresh_id: u64) -> u64 {
    if knows_executor(v, caller, executor) {
        executor_id(v, executor)
    } else {
        fresh_id
    }
}

/// The stored distributions after `caller` saves `list` for `executor`.
pub open spec fn saved(
    v: TransferModuleView,
    caller: Address,
    executor: Address,
    fresh_id: u64,
    list: Seq<TransferView>,
) -> TransferModuleView {
    let id = save_id(v, caller, executor, fresh_id);
    TransferModuleView {
        initiators: if knows_executor(v, caller, executor) {
            v.initiators
        } else {
            v.initiators.insert(caller, set_inserted(initiator_set(v, caller), executor))
        },
        executors: if knows_executor(v, caller, executor) {
            v.executors
        } else {
            v.executors.insert(executor, fresh_id)
        },
        lists: v.lists.insert(id, stored(v, id) + list),
    }
}

/// The number of transfers one execution carries out from a list of `n`.
pub open spec fn batch_len(n: nat) -> nat {
    if n < BATCH_SIZE {
        n
    } else {
        BATCH_SIZE as nat
    }
}

/// The first `k` transfers an execution carries out: always the first one,
/// then, since each removal moves the last transfer to the front, the last
/// ones from the back.
pub open spec fn executed_batch<A>(s: Seq<A>, k: nat) -> Seq<A> {
    if k == 0 {
        Seq::empty()
    } else {
        seq![s[0]] + s.subrange(s.len() - k + 1, s.len() as int).reverse()
    }
}

/// What is left of `s` after `k` transfers were carried out.
pub open spec fn remaining_batch<A>(s: Seq<A>, k: nat) -> Seq<A> {
    if k == 0 {
        s
    } else if k >= s.len() {
        Seq::empty()
    } else {
        seq![s[s.len() - k]] + s.subrange(1, s.len() - k)
    }
}

/// The stored distributions after `initiator` and `executor` are done.
pub open spec fn finished(v: TransferModuleView, initiator: Address, executor: Address) -> TransferModuleView {
    TransferModuleView {
        initiators: if v.initiators.dom().contains(initiator) {
            v.initiators.insert(initiator, set_removed(v.initiators[initiator], executor))
        } else {
            v.initiators
        },
        executors: v.executors.remove(executor),
        lists: v.lists,
    }
}

/// One step of an execution: the front transfer is carried out and the last one takes its place.
pub proof fn lemma_execution_step<A>(s: Seq<A>, j: nat)
    requires
        j < s.len(),
    ensures
        remaining_batch(s, j).len() == s.len() - j,
        executed_batch(s, j + 1) == executed_batch(s, j).push(remaining_batch(s, j)[0]),
        remaining_batch(s, j + 1) == swap_removed(remaining_batch(s, j), 0),
{
    let n = s.len();
    let r = remaining_batch(s, j);
    if j == 0 {
        assert(executed_batch(s, 1) =~= seq![s[0]]);
        assert(executed_batch(s, 1) =~= executed_batch(s, 0).push(r[0]));
        assert(remaining_batch(s, 1) =~= swap_removed(r, 0));
    } else {
        assert(r[0] == s[n - j]);
        assert(s.subrange(n - (j + 1) + 1, n as int).reverse() =~= s.subrange(
            n - j + 1,
            n as int,
        ).reverse().push(s[n - j]));
        assert(executed_batch(s, j + 1) =~= executed_batch(s, j).push(r[0]));
        assert(remaining_batch(s, j + 1) =~= swap_removed(r, 0));
    }
}

/// Law: an execution neither loses nor invents transfers; what it carries out
/// and what it leaves are, together, the list it started from.
pub proof fn lemma_execution_conserves<A>(s: Seq<A>, k: nat)
    requires
        1 <= k <= s.len(),
    ensures
        executed_batch(s, k).to_multiset().add(remaining_batch(s, k).to_multiset())
            =~= s.to_multiset(),
        executed_batch(s, k).len() == k,
        remaining_batch(s, k).len() == s.len() - k,
{
    broadcast use vstd::seq_lib::lemma_multiset_commutative;
    broadcast use vstd::multiset::group_multiset_properties;

    let n = s.len();
    let first = seq![s[0]];
    let back = s.subrange(n - k + 1, n as int);
    back.lemma_reverse_to_multiset();
    if k < n {
        let mid = seq![s[n - k]];
        let front = s.subrange(1, n - k);
        assert(s =~= first + front + mid + back);
        assert(executed_batch(s, k) =~= first + back.reverse());
        assert(remaining_batch(s, k) =~= mid + front);
        assert((first + front + mid + back).to_multiset() =~= first.to_multiset().add(
            front.to_multiset(),
        ).add(mid.to_multiset()).add(back.to_multiset()));
    } else {
        assert(s =~= first + back);
        assert(executed_batch(s, k) =~= first + back.reverse());
        let e = executed_batch(s, k);
        assert(e + remaining_batch(s, k) =~= e);
    }
}

/// Law: a saved distribution accounts for the whole token payment: the
/// transfers saved for the executor plus the refund to the caller add up to
/// exactly what was paid, all in the paid token.
pub proof fn lemma_save_accounts_for_payment(
    caller: Address,
    payment: PaymentView,
    reqs: Seq<(Address, nat)>,
)
    requires
        requested_total(reqs) <= payment.amount,
    ensures
        crate::distribution::sent_total(payouts(payment, reqs)) + (if payment.amount > requested_total(reqs) {
            payment.amount - requested_total(reqs)
        } else {
            0
        }) == payment.amount,
        refund_actions(caller, payment, reqs).len() <= 1,
        forall|i: int|
            0 <= i < payouts(payment, reqs).len() ==> (#[trigger] payouts(payment, reqs)[i]).payment.token
                == payment.token && payouts(payment, reqs)[i].payment.nonce == payment.nonce,
{
    crate::distribution::lemma_payouts_total(payment, reqs);
}

/// Law: once the list of a distribution is empty, finishing it clears the
/// executor's id and drops the executor from the initiator's list, so that the
/// initiator's next saved distribution for that executor starts a new list
/// under a fresh id; the saved lists are untouched.
pub proof fn lemma_finish_clears(v: TransferModuleView, initiator: Address, executor: Address, fresh_id: u64)
    requires
        sets_unique(v.initiators),
    ensures
        executor_id(finished(v, initiator, executor), executor) == 0,
        !initiator_set(finished(v, initiator, executor), initiator).contains(executor),
        !knows_executor(finished(v, initiator, executor), initiator, executor),
        save_id(finished(v, initiator, executor), initiator, executor, fresh_id) == fresh_id,
        sets_unique(finished(v, initiator, executor).initiators),
        finished(v, initiator, executor).lists == v.lists,
{
    let w = finished(v, initiator, executor);
    if v.initiators.dom().contains(initiator) {
        crate::collections::lemma_set_removed(v.initiators[initiator], executor);
        assert forall|k: Address| #[trigger] w.initiators.dom().contains(k) implies w.initiators[k].no_duplicates() by {
            if k != initiator {
                assert(v.initiators.dom().contains(k));
            }
        }
    }
}

/// Law: what a saved distribution hands the chain, in order: when the token
/// payment holds more than the requests, the surplus back to the caller in the
/// paid token and nonce; then the wrapped EGLD to the unwrapping contract; then
/// as much EGLD to the executor. Nothing else.
pub proof fn lemma_save_refunds_in_paid_token(
    caller: Address,
    wegld_contract: Address,
    executor: Address,
    wegld_payment: PaymentView,
    esdt_payment: PaymentView,
    reqs: Seq<(Address, nat)>,
)
    ensures
        ({
            let total = requested_total(reqs);
            let k: int = if esdt_payment.amount > total {
                1
            } else {
                0
            };
            let refund = ActionView::Send(
                TransferView {
                    receiver: caller,
                    payment: PaymentView {
                        token: esdt_payment.token,
                        nonce: esdt_payment.nonce,
                        amount: (esdt_payment.amount - total) as nat,
                    },
                },
            );
            let r = refund_actions(caller, esdt_payment, reqs);
            let a = save_actions(caller, wegld_contract, executor, wegld_payment, esdt_payment, reqs);
            &&& r.len() == k
            &&& forall|i: int| 0 <= i < r.len() ==> #[trigger] r[i] == refund
            &&& a.len() == k + 2
            &&& k == 1 ==> a[0] == refund
            &&& a[k] == ActionView::UnwrapEgld { wegld_contract, payment: wegld_payment }
            &&& a[k + 1] == ActionView::Send(
                TransferView {
                    receiver: executor,
                    payment: PaymentView { token: egld_bytes(), nonce: 0, amount: wegld_payment.amount },
                },
            )
        }),
{
}

/// Law: saving a distribution for `executor` records the executor for the
/// caller and keeps every other executor of the caller, and every other
/// initiator's executors, as they were. The transfers go at the end of the
/// executor's list when the caller used that executor before, else at the
/// end of the list under `fresh_id`, which becomes the executor's id; every
/// other executor keeps its id and every other list is untouched.
pub proof fn lemma_save_keeps_others(
    v: TransferModuleView,
    caller: Address,
    executor: Address,
    fresh_id: u64,
    list: Seq<TransferView>,
)
    requires
        sets_unique(v.initiators),
    ensures
        ({
            let w = saved(v, caller, executor, fresh_id, list);
            let known = initiator_set(v, caller).contains(executor);
            let id: u64 = if known {
                executor_id(v, executor)
            } else {
                fresh_id
            };
            &&& initiator_set(w, caller).contains(executor)
            &&& forall|b: Address|
                b != executor ==> (#[trigger] initiator_set(w, caller).contains(b) <==> initiator_set(
                    v,
                    caller,
                ).contains(b))
            &&& forall|c: Address| c != caller ==> #[trigger] initiator_set(w, c) == initiator_set(v, c)
            &&& executor_id(w, executor) == id
            &&& forall|x: Address| x != executor ==> #[trigger] executor_id(w, x) == executor_id(v, x)
            &&& stored(w, id) == stored(v, id) + list
            &&& forall|j: u64| j != id ==> #[trigger] stored(w, j) == stored(v, j)
            &&& sets_unique(w.initiators)
        }),
{
    let w = saved(v, caller, executor, fresh_id, list);
    let s = initiator_set(v, caller);
    if !s.contains(executor) {
        if v.initiators.dom().contains(caller) {
            assert(s.no_duplicates());
        } else {
            assert(s =~= Seq::<Address>::empty());
        }
        crate::collections::lemma_set_inserted(s, executor);
        assert forall|k: Address| #[trigger] w.initiators.dom().contains(k) implies w.initiators[k].no_duplicates() by {
            if k != caller {
                assert(v.initiators.dom().contains(k));
            }
        }
    }
}

/// Law: finishing `executor`'s distribution for `initiator` drops that
/// executor only: the initiator keeps every other executor, every other
/// initiator keeps its executors, every other executor keeps its id, and the
/// saved lists are untouched.
pub proof fn lemma_finish_keeps_others(v: TransferModuleView, initiator: Address, executor: Address)
    requires
        sets_unique(v.initiators),
    ensures
        ({
            let w = finished(v, initiator, executor);
            &&& !initiator_set(w, initiator).contains(executor)
            &&& forall|b: Address|
                b != executor ==> (#[trigger] initiator_set(w, initiator).contains(b) <==> initiator_set(
                    v,
                    initiator,
                ).contains(b))
            &&& forall|c: Address| c != initiator ==> #[trigger] initiator_set(w, c) == initiator_set(v, c)
            &&& executor_id(w, executor) == 0
            &&& forall|x: Address| x != executor ==> #[trigger] executor_id(w, x) == executor_id(v, x)
            &&& forall|j: u64| #[trigger] stored(w, j) == stored(v, j)
        }),
{
    if v.initiators.dom().contains(initiator) {
        crate::collections::lemma_set_removed(v.initiators[initiator], executor);
    }
}

/// The stored distributions after one execution of the list under `id`.
pub open spec fn after_execute(v: TransferModuleView, id: u64) -> TransferModuleView {
    let s = stored(v, id);
    let rest = remaining_batch(s, batch_len(s.len()));
    TransferModuleView {
        lists: if rest.len() == 0 {
            v.lists.remove(id)
        } else {
            v.lists.insert(id, rest)
        },
        ..v
    }
}

/// Law: an execution of the list under `id` shortens that list by at most
/// one batch of 100 and touches nothing else: every other list, every
/// executor's id and every initiator's executors stay as they were.
pub proof fn lemma_execute_keeps_others(v: TransferModuleView, id: u64)
    ensures
        ({
            let w = after_execute(v, id);
            let n = stored(v, id).len();
            &&& stored(w, id).len() == if n < 100 {
                0
            } else {
                n - 100
            }
            &&& forall|j: u64| j != id ==> #[trigger] stored(w, j) == stored(v, j)
            &&& forall|x: Address| #[trigger] executor_id(w, x) == executor_id(v, x)
            &&& forall|c: Address| #[trigger] initiator_set(w, c) == initiator_set(v, c)
        }),
{
    let s = stored(v, id);
    let k = batch_len(s.len());
    if s.len() > 0 {
        lemma_execution_conserves(s, k);
    }
}

/// The stored distributions after `m` successive executions of the list under `id`.
pub open spec fn after_executions(v: TransferModuleView, id: u64, m: nat) -> TransferModuleView
    decreases m,
{
    if m == 0 {
        v
    } else {
        after_execute(after_executions(v, id, (m - 1) as nat), id)
    }
}

/// What `m` successive executions of the list under `id` carry out, in order.
pub open spec fn executed_in_calls(v: TransferModuleView, id: u64, m: nat) -> Seq<TransferView>
    decreases m,
{
    if m == 0 {
        Seq::empty()
    } else {
        let t = stored(after_executions(v, id, (m - 1) as nat), id);
        executed_in_calls(v, id, (m - 1) as nat) + executed_batch(t, batch_len(t.len()))
    }
}

/// The number of executions that a list of `n` transfers takes: `n / 100`, rounded up.
pub open spec fn calls_needed(n: nat) -> nat {
    ((n + 99) / 100) as nat
}

proof fn lemma_executions_step(v: TransferModuleView, id: u64, m: nat)
    ensures
        ({
            let n = stored(v, id).len();
            &&& stored(after_executions(v, id, m), id).len() == if 100 * m >= n {
                0
            } else {
                n - 100 * m
            }
            &&& executed_in_calls(v, id, m).to_multiset().add(
                stored(after_executions(v, id, m), id).to_multiset(),
            ) =~= stored(v, id).to_multiset()
        }),
    decreases m,
{
    broadcast use vstd::seq_lib::lemma_multiset_commutative;
    broadcast use vstd::seq_lib::group_to_multiset_ensures;
    broadcast use vstd::multiset::group_multiset_properties;

    let s = stored(v, id);
    if m > 0 {
        let m1 = (m - 1) as nat;
        lemma_executions_step(v, id, m1);
        let w = after_executions(v, id, m1);
        let t = stored(w, id);
        let k = batch_len(t.len());
        let rest = remaining_batch(t, k);
        let w2 = after_execute(w, id);
        assert(after_executions(v, id, m) == w2);
        assert(stored(w2, id) == rest);
        let e1 = executed_in_calls(v, id, m1);
        let eb = executed_batch(t, k);
        assert(executed_in_calls(v, id, m) == e1 + eb);
        if t.len() > 0 {
            lemma_execution_conserves(t, k);
            assert(rest.len() == t.len() - k);
        } else {
            assert(eb =~= Seq::<TransferView>::empty());
            assert(rest =~= t);
            assert(e1 + eb =~= e1);
        }
        assert((e1 + eb).to_multiset() =~= e1.to_multiset().add(eb.to_multiset()));
        assert(eb.to_multiset().add(rest.to_multiset()) =~= t.to_multiset());
        assert(e1.to_multiset().add(t.to_multiset()) =~= s.to_multiset());
        assert(e1.to_multiset().add(eb.to_multiset()).add(rest.to_multiset()) =~= s.to_multiset());
    } else {
        let e = executed_in_calls(v, id, 0);
        assert(e =~= Seq::<TransferView>::empty());
        assert(e + s =~= s);
        assert((e + s).to_multiset() =~= e.to_multiset().add(s.to_multiset()));
    }
}

/// Law: executing the list saved under `id` over and over takes `n / 100`
/// calls, rounded up, for a list of `n`: before each of those calls the list
/// is not empty (so the call goes through and carries out `min(100, left)`
/// transfers); after the last one it is empty (so the next call fails with
/// `NoTransfersFound(id)`); and together they carried out every saved
/// transfer exactly once.
pub proof fn lemma_successive_executions(v: TransferModuleView, id: u64)
    requires
        stored(v, id).len() > 0,
    ensures
        forall|m: nat|
            m < calls_needed(stored(v, id).len()) ==> #[trigger] stored(after_executions(v, id, m), id).len()
                == stored(v, id).len() - 100 * m > 0,
        stored(after_executions(v, id, calls_needed(stored(v, id).len())), id).len() == 0,
        executed_in_calls(v, id, calls_needed(stored(v, id).len())).to_multiset()
            =~= stored(v, id).to_multiset(),
        executed_in_calls(v, id, calls_needed(stored(v, id).len())).len() == stored(v, id).len(),
{
    broadcast use vstd::seq_lib::group_to_multiset_ensures;
    broadcast use vstd::multiset::group_multiset_properties;

    let n = stored(v, id).len();
    let c = calls_needed(n);
    assert(100 * c >= n);
    assert forall|m: nat| m < calls_needed(stored(v, id).len()) implies #[trigger] stored(
        after_executions(v, id, m),
        id,
    ).len() == stored(v, id).len() - 100 * m > 0 by {
        lemma_executions_step(v, id, m);
        assert(100 * m < n);
    }
    lemma_executions_step(v, id, c);
    let e = executed_in_calls(v, id, c);
    let left = stored(after_executions(v, id, c), id);
    assert(left =~= Seq::<TransferView>::empty());
    assert(left.to_multiset() =~= vstd::multiset::Multiset::<TransferView>::empty());
    assert(e + left =~= e);
    assert((e + left).to_multiset() =~= e.to_multiset().add(left.to_multiset()));
    assert(e.to_multiset() =~= stored(v, id).to_multiset());
    assert(e.to_multiset().len() == e.len());
    assert(stored(v, id).to_multiset().len() == n);
}

/// A copy of a list of transfers.
fn duplicate_transfers(v: &Vec<Transfer>) -> (r: Vec<Transfer>)
    ensures
        transfers_view(r@) == transfers_view(v@),
{
    let mut out: Vec<Transfer> = Vec::new();
    let mut i: usize = 0;
    while i < v.len()
        invariant
            i <= v@.len(),
            transfers_view(out@) =~= transfers_view(v@.take(i as int)),
        decreases v@.len() - i,
    {
        let ghost old_out = out@;
        out.push(v[i].duplicate());
        proof {
            assert(transfers_view(out@) =~= transfers_view(old_out).push(v@[i as int]@));
            assert(transfers_view(v@.take(i + 1)) =~= transfers_view(v@.take(i as int)).push(
                v@[i as int]@,
            ));
        }
        i = i + 1;
    }
    assert(v@.take(i as int) =~= v@);
    out
}

/// The saved distributions: who saved for whom, and the transfers each executor has to carry out.
pub struct TransferModule {
    pub initiator_transfers: AddressSetMap,
    pub executor_transfers: KeyedMap<Address, u64>,
    pub tokens_transfers: KeyedMap<u64, Vec<Transfer>>,
}

impl View for TransferModule {
    type V = TransferModuleView;

    open spec fn view(&self) -> TransferModuleView {
        TransferModuleView {
            initiators: self.initiator_transfers@,
            executors: self.executor_transfers@,
            lists: self.tokens_transfers@.map_values(|v: Vec<Transfer>| transfers_view(v@)),
        }
    }
}

impl TransferModule {
    /// Nothing saved.
    pub fn new() -> (r: TransferModule)
        ensures
            r@.initiators == Map::<Address, Seq<Address>>::empty(),
            r@.executors == Map::<Address, u64>::empty(),
            r@.lists == Map::<u64, Seq<TransferView>>::empty(),
            sets_unique(r@.initiators),
    {
        let r = TransferModule {
            initiator_transfers: AddressSetMap::new(),
            executor_transfers: KeyedMap::new(),
            tokens_transfers: KeyedMap::new(),
        };
        assert(r@.lists =~= Map::<u64, Seq<TransferView>>::empty());
        r
    }

    /// Splits the payment among the receivers, for an allowed caller.
    pub fn smart_send(
        users: &UsersModule,
        owner: Address,
        caller: Address,
        payment: &Payment,
        params: &Vec<(Address, Amount)>,
    ) -> (r: Result<Vec<Transfer>, Error>)
        ensures
            match r {
                Ok(out) => users.allows(owner, caller) && transfers_view(out@) == distribution_plan(
                    caller,
                    payment@,
                    requests_view(params@),
                ),
                Err(e) => !users.allows(owner, caller) && e == Error::CallerNotAllowed,
            },
    {
        match users.require_user_is_allowed(owner, caller) {
            Err(e) => Err(e),
            Ok(()) => Ok(DistributionModule::distribute_egld_or_esdt(caller, payment, params)),
        }
    }

    /// Hands out NFTs, for an allowed caller.
    pub fn smart_nft_send(
        users: &UsersModule,
        owner: Address,
        caller: Address,
        payments: &Vec<Payment>,
        params: &Vec<(Address, TokenIdentifier, u64)>,
    ) -> (r: Result<Vec<Transfer>, Error>)
        ensures
            match r {
                Ok(out) => users.allows(owner, caller) && params.len() == payments.len()
                    && transfers_view(out@) == nft_plan(nft_requests_view(params@)),
                Err(e) => if !users.allows(owner, caller) {
                    e == Error::CallerNotAllowed
                } else {
                    params.len() != payments.len() && e == Error::NftCountMismatch
                },
            },
    {
        match users.require_user_is_allowed(owner, caller) {
            Err(e) => Err(e),
            Ok(()) => DistributionModule::distribute_nfts(payments, params),
        }
    }

    /// The transfers to save for a payment, refusing requests that exceed it,
    /// and the refund of what the payment holds beyond them.
    pub fn store_transfers(
        caller: Address,
        payment: &Payment,
        transfers: &Vec<(Address, Amount)>,
    ) -> (r: Result<(Vec<Transfer>, Vec<Action>), Error>)
        ensures
            match r {
                Ok((list, actions)) => requested_total(requests_view(transfers@)) <= payment@.amount
                    && transfers_view(list@) == payouts(payment@, requests_view(transfers@))
                    && actions_view(actions@) == refund_actions(
                    caller,
                    payment@,
                    requests_view(transfers@),
                ),
                Err(e) => requested_total(requests_view(transfers@)) > payment@.amount && e
                    == Error::PaymentTooSmall,
            },
    {
        let ghost reqs = requests_view(transfers@);
        let mut total = Amount::zero();
        let mut list: Vec<Transfer> = Vec::new();
        let mut i: usize = 0;
        while i < transfers.len()
            invariant
                i <= transfers@.len(),
                reqs == requests_view(transfers@),
                total@ == requested_total(reqs.take(i as int)),
                total@ <= payment@.amount,
                transfers_view(list@) == payouts(payment@, reqs.take(i as int)),
            decreases transfers@.len() - i,
        {
            let receiver = transfers[i].0;
            let amount = &transfers[i].1;
            total = total.add(amount);
            proof {
                assert(reqs.take(i + 1).drop_last() =~= reqs.take(i as int));
                assert(reqs[i as int] == (receiver, amount@));
            }
            if total.gt(&payment.amount) {
                proof {
                    lemma_requested_total_prefix(reqs, i + 1);
                }
                return Err(Error::PaymentTooSmall);
            }
            let t = Transfer::new(receiver, payment.with_amount(amount.duplicate()));
            let ghost old_list = list@;
            list.push(t);
            proof {
                assert(transfers_view(list@) =~= transfers_view(old_list).push(t@));
                assert(payouts(payment@, reqs.take(i + 1)) =~= payouts(payment@, reqs.take(i as int)).push(
                    payout(payment@, receiver, amount@),
                ));
            }
            i = i + 1;
        }
        assert(reqs.take(i as int) =~= reqs);
        let mut actions: Vec<Action> = Vec::new();
        if payment.amount.gt(&total) {
            let rest = payment.amount.sub(&total);
            actions.push(Action::Send(Transfer::new(caller, payment.with_amount(rest))));
            assert(actions_view(actions@) =~= refund_actions(caller, payment@, reqs));
        } else {
            assert(actions_view(actions@) =~= refund_actions(caller, payment@, reqs));
        }
        Ok((list, actions))
    }

    /// The id recorded for `executor`, zero when none is.
    pub fn get_executor_transfers(&self, executor: &Address) -> (r: u64)
        ensures
            r == executor_id(self@, *executor),
    {
        match self.executor_transfers.get(executor) {
            Some(id) => *id,
            None => 0,
        }
    }

    /// The executors recorded for `initiator`, in stored order.
    pub fn get_initiator_transfers(&self, initiator: &Address) -> (r: Vec<Address>)
        ensures
            r@ == initiator_set(self@, *initiator),
    {
        self.initiator_transfers.members(initiator)
    }

    /// The transfers saved under `id`.
    pub fn get_tokens_transfers(&self, id: u64) -> (r: Vec<Transfer>)
        ensures
            transfers_view(r@) == stored(self@, id),
    {
        match self.tokens_transfers.get(&id) {
            Some(list) => duplicate_transfers(list),
            None => {
                let out: Vec<Transfer> = Vec::new();
                assert(transfers_view(out@) =~= Seq::<TransferView>::empty());
                out
            },
        }
    }

    /// Saves a distribution for `executor_address` to carry out later.
    ///
    /// An allowed caller pays twice: wrapped EGLD first, then the token to
    /// distribute. The requests may not exceed the second payment; what it holds
    /// beyond them is refunded. The wrapped EGLD is unwrapped and its amount in
    /// EGLD goes to the executor. The transfers are appended to the list the
    /// caller already keeps for that executor, or to a new list under
    /// `fresh_id`.
    pub fn smart_save(
        &mut self,
        users: &UsersModule,
        storage: &StorageModule,
        owner: Address,
        caller: Address,
        executor_address: Address,
        payments: &Vec<Payment>,
        transfers: &Vec<(Address, Amount)>,
        fresh_id: u64,
    ) -> (r: Result<Vec<Action>, Error>)
        ensures
            sets_unique(final(self)@.initiators),
            r is Err ==> final(self)@ == old(self)@,
            !users.allows(owner, caller) ==> r == Err::<Vec<Action>, Error>(Error::CallerNotAllowed),
            users.allows(owner, caller) && payments.len() != 2 ==> r == Err::<Vec<Action>, Error>(
                Error::InvalidPaymentCount,
            ),
            users.allows(owner, caller) && payments.len() == 2 && payments@[0].token_identifier@
                != storage.wegld_identifier@ ==> (r matches Err(Error::FirstPaymentNotWegld(t))
                && t@ == storage.wegld_identifier@),
            users.allows(owner, caller) && payments.len() == 2 && payments@[0].token_identifier@
                == storage.wegld_identifier@ && requested_total(requests_view(transfers@))
                > payments@[1].amount@ ==> r == Err::<Vec<Action>, Error>(Error::PaymentTooSmall),
            users.allows(owner, caller) && payments.len() == 2 && payments@[0].token_identifier@
                == storage.wegld_identifier@ && requested_total(requests_view(transfers@))
                <= payments@[1].amount@ ==> (r matches Ok(actions) && actions_view(actions@)
                == save_actions(
                caller,
                storage.wegld_contract,
                executor_address,
                payments@[0]@,
                payments@[1]@,
                requests_view(transfers@),
            ) && final(self)@ == saved(
                old(self)@,
                caller,
                executor_address,
                fresh_id,
                payouts(payments@[1]@, requests_view(transfers@)),
            )),
    {
        let ghost old_view = self@;
        self.initiator_transfers.unique();
        if let Err(e) = users.require_user_is_allowed(owner, caller) {
            return Err(e);
        }
        if payments.len() != 2 {
            return Err(Error::InvalidPaymentCount);
        }
        let payment_wegld = &payments[0];
        if !payment_wegld.token_identifier.same(&storage.wegld_identifier) {
            return Err(Error::FirstPaymentNotWegld(storage.wegld_identifier.duplicate()));
        }
        let payment_esdt = &payments[1];
        let (list, mut actions) = match TransferModule::store_transfers(caller, payment_esdt, transfers) {
            Ok(stored_plan) => stored_plan,
            Err(e) => {
                return Err(e);
            },
        };
        actions.push(
            Action::UnwrapEgld {
                wegld_contract: storage.wegld_contract,
                payment: payment_wegld.duplicate(),
            },
        );
        actions.push(
            Action::Send(Transfer::new(executor_address, Payment::egld(payment_wegld.amount.duplicate()))),
        );
        proof {
            assert(actions_view(actions@) =~= save_actions(
                caller,
                storage.wegld_contract,
                executor_address,
                payments@[0]@,
                payments@[1]@,
                requests_view(transfers@),
            ));
        }
        let known = self.initiator_transfers.contains(&caller, &executor_address);
        let id: u64;
        if known {
            id = self.get_executor_transfers(&executor_address);
        } else {
            id = fresh_id;
            self.initiator_transfers.insert(caller, executor_address);
            self.executor_transfers.insert(executor_address, fresh_id);
        }
        assert(id == save_id(old_view, caller, executor_address, fresh_id));
        let mut saved_list = match self.tokens_transfers.remove(&id) {
            Some(l) => l,
            None => Vec::new(),
        };
        assert(transfers_view(saved_list@) =~= stored(old_view, id));
        let mut list = list;
        saved_list.append(&mut list);
        assert(transfers_view(saved_list@) =~= stored(old_view, id) + payouts(
            payments@[1]@,
            requests_view(transfers@),
        ));
        self.tokens_transfers.insert(id, saved_list);
        proof {
            let new_view = saved(
                old_view,
                caller,
                executor_address,
                fresh_id,
                payouts(payments@[1]@, requests_view(transfers@)),
            );
            assert(self@.initiators =~= new_view.initiators);
            assert(self@.executors =~= new_view.executors);
            assert(self@.lists =~= new_view.lists);
        }
        Ok(actions)
    }

    /// Carries out up to `BATCH_SIZE` saved transfers of the given id, or of
    /// the caller's id when none is given. Each step sends the first stored
    /// transfer and moves the last one into its place.
    pub fn smart_execute(&mut self, caller: Address, opt_transfers_id: Option<u64>) -> (r: Result<
        Vec<Action>,
        Error,
    >)
        ensures
            sets_unique(final(self)@.initiators),
            ({
                let id = match opt_transfers_id {
                    Some(id) => id,
                    None => executor_id(old(self)@, caller),
                };
                let s = stored(old(self)@, id);
                let k = batch_len(s.len());
                &&& s.len() == 0 ==> r == Err::<Vec<Action>, Error>(Error::NoTransfersFound(id))
                    && final(self)@ == old(self)@
                &&& s.len() > 0 ==> (r matches Ok(actions) && actions_view(actions@)
                    == executed_batch(s, k).map_values(|t: TransferView| ActionView::Send(t))
                    && final(self)@ == after_execute(old(self)@, id))
            }),
    {
        let ghost old_view = self@;
        self.initiator_transfers.unique();
        let id = match opt_transfers_id {
            Some(id) => id,
            None => self.get_executor_transfers(&caller),
        };
        let ghost s = stored(old_view, id);
        let empty = match self.tokens_transfers.get(&id) {
            Some(l) => l.len() == 0,
            None => true,
        };
        if empty {
            return Err(Error::NoTransfersFound(id));
        }
        let mut list = match self.tokens_transfers.remove(&id) {
            Some(l) => l,
            None => Vec::new(),
        };
        assert(transfers_view(list@) == s);
        let n = list.len();
        let take: usize = if n < BATCH_SIZE {
            n
        } else {
            BATCH_SIZE
        };
        let mut actions: Vec<Action> = Vec::new();
        let mut j: usize = 0;
        while j < take
            invariant
                j <= take,
                take == batch_len(s.len()),
                n == s.len(),
                take <= n,
                transfers_view(list@) == remaining_batch(s, j as nat),
                actions_view(actions@) == executed_batch(s, j as nat).map_values(
                    |t: TransferView| ActionView::Send(t),
                ),
            decreases take - j,
        {
            proof {
                lemma_execution_step(s, j as nat);
            }
            let t = list[0].duplicate();
            let ghost before_list = list@;
            let ghost before_actions = actions@;
            actions.push(Action::Send(t));
            list.swap_remove(0);
            proof {
                assert(transfers_view(before_list)[0] == before_list[0]@);
                assert(actions_view(actions@) =~= actions_view(before_actions).push(
                    ActionView::Send(before_list[0]@),
                ));
                assert(executed_batch(s, (j + 1) as nat).map_values(|t: TransferView| ActionView::Send(t))
                    =~= executed_batch(s, j as nat).map_values(|t: TransferView| ActionView::Send(t)).push(
                    ActionView::Send(before_list[0]@),
                ));
                assert(transfers_view(list@) =~= swap_removed(transfers_view(before_list), 0));
            }
            j = j + 1;
        }
        let ghost rest = transfers_view(list@);
        if list.len() > 0 {
            self.tokens_transfers.insert(id, list);
            assert(self@.lists =~= old_view.lists.insert(id, rest));
        } else {
            assert(self@.lists =~= old_view.lists.remove(id));
            assert(rest =~= Seq::<TransferView>::empty());
        }
        proof {
            assert(self@.initiators =~= old_view.initiators);
            assert(self@.executors =~= old_view.executors);
        }
        Ok(actions)
    }

    /// Ends a saved distribution whose transfers were all carried out: the
    /// executor's id is cleared and the executor leaves the initiator's list.
    pub fn smart_finish(&mut self, initiator_address: Address, executor_address: Address) -> (r: Result<
        (),
        Error,
    >)
        ensures
            ({
                let count = stored(old(self)@, executor_id(old(self)@, executor_address)).len();
                &&& count != 0 ==> r == Err::<(), Error>(Error::TransfersLeft(count as usize))
                    && final(self)@ == old(self)@
                &&& count == 0 ==> r is Ok && final(self)@ == finished(
                    old(self)@,
                    initiator_address,
                    executor_address,
                ) && executor_id(final(self)@, executor_address) == 0 && !initiator_set(
                    final(self)@,
                    initiator_address,
                ).contains(executor_address)
            }),
            sets_unique(final(self)@.initiators),
    {
        let ghost old_view = self@;
        self.initiator_transfers.unique();
        let id = self.get_executor_transfers(&executor_address);
        let count: usize = match self.tokens_transfers.get(&id) {
            Some(l) => l.len(),
            None => 0,
        };
        assert(count == stored(old_view, id).len());
        if count != 0 {
            return Err(Error::TransfersLeft(count));
        }
        self.executor_transfers.remove(&executor_address);
        self.initiator_transfers.swap_remove(&initiator_address, &executor_address);
        proof {
            let new_view = finished(old_view, initiator_address, executor_address);
            assert(self@.initiators =~= new_view.initiators);
            assert(self@.executors =~= new_view.executors);
            assert(self@.lists =~= new_view.lists);
        }
        Ok(())
    }
}

} // verus!
