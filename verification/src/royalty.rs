//! Royalties: the schedule of a raffle and the split of a balance between
//! its recipients and the owner of a ticket.

use vstd::prelude::*;
use crate::account_map::AccountMap;
use crate::contract::{Contract, TicketView, after_move, transfer_record, transferred};
use crate::events::{Refund, RegistryError, TransferRecord, opt_text};
use crate::internal::{
    assert_one_yocto,
    lemma_payout_share_bounded,
    payout_share,
    refund_approved_account_ids,
    royalty_to_payout,
    storage_cost,
};
use crate::nft_core::paid_transfer_error;

verus! {

broadcast use vstd::std_specs::hash::group_hash_axioms;

/// The sum of the shares, in basis points.
pub open spec fn total_shares(shares: Seq<u32>) -> nat
    decreases shares.len(),
{
    if shares.len() == 0 {
        0
    } else {
        total_shares(shares.drop_last()) + shares.last() as nat
    }
}

/// The sum of the shares of the recipients other than `owner`.
pub open spec fn distributed(recipients: Seq<Seq<char>>, shares: Seq<u32>, owner: Seq<char>) -> nat
    decreases recipients.len(),
{
    if recipients.len() == 0 || shares.len() != recipients.len() {
        0
    } else {
        distributed(recipients.drop_last(), shares.drop_last(), owner) + (if recipients.last()
            != owner {
            shares.last() as nat
        } else {
            0
        })
    }
}

/// The sum of the amounts.
pub open spec fn total_amount(amounts: Seq<u128>) -> nat
    decreases amounts.len(),
{
    if amounts.len() == 0 {
        0
    } else {
        total_amount(amounts.drop_last()) + amounts.last() as nat
    }
}

/// The shares of a prefix come to no more than those of the whole.
pub proof fn lemma_total_shares_prefix(shares: Seq<u32>, upto: int)
    requires
        0 <= upto <= shares.len(),
    ensures
        total_shares(shares.take(upto)) <= total_shares(shares),
    decreases shares.len(),
{
    if upto == shares.len() {
        assert(shares.take(upto) =~= shares);
    } else {
        lemma_total_shares_prefix(shares.drop_last(), upto);
        assert(shares.drop_last().take(upto) =~= shares.take(upto));
    }
}

/// The royalty schedule of a raffle: for each recipient its share in basis
/// points. The shares come to no more than the whole.
pub struct RoyaltySchedule {
    pub(crate) map: AccountMap<u32>,
}

impl View for RoyaltySchedule {
    type V = Map<Seq<char>, u32>;

    open(crate) spec fn view(&self) -> Map<Seq<char>, u32> {
        self.map@
    }
}

impl RoyaltySchedule {
    /// The recipients, in the order in which they were added.
    pub open(crate) spec fn recipients(&self) -> Seq<Seq<char>> {
        self.map.accounts()
    }

    /// The shares, in the order of the recipients.
    pub open(crate) spec fn shares(&self) -> Seq<u32> {
        self.map.values()
    }

    /// No recipient occurs twice and the shares come to at most 10000.
    pub open(crate) spec fn wf(&self) -> bool {
        &&& self.map.wf()
        &&& total_shares(self.shares()) <= 10_000
    }

    /// A schedule without recipients.
    pub fn new() -> (schedule: Self)
        ensures
            schedule.wf(),
            schedule@ == Map::<Seq<char>, u32>::empty(),
            schedule.recipients() == Seq::<Seq<char>>::empty(),
            schedule.shares() == Seq::<u32>::empty(),
    {
        RoyaltySchedule { map: AccountMap::new() }
    }

    /// The number of recipients.
    pub fn len(&self) -> (n: usize)
        ensures
            n == self.recipients().len(),
    {
        self.map.len()
    }

    /// The share of the account, if it is a recipient.
    pub fn get(&self, account_id: &String) -> (share: Option<u32>)
        requires
            self.wf(),
        ensures
            share == (if self@.contains_key(account_id@) {
                Some(self@[account_id@])
            } else {
                None
            }),
    {
        match self.map.get(account_id) {
            Some(share) => Some(*share),
            None => None,
        }
    }

    /// The sum of the shares.
    pub fn total(&self) -> (sum: u32)
        requires
            self.wf(),
        ensures
            sum == total_shares(self.shares()),
    {
        let mut sum: u32 = 0;
        let mut i: usize = 0;
        while i < self.map.len()
            invariant
                i <= self.shares().len(),
                self.shares().len() == self.recipients().len(),
                self.wf(),
                sum == total_shares(self.shares().take(i as int)),
            decreases self.shares().len() - i,
        {
            proof {
                assert(self.shares().take(i as int + 1).drop_last() =~= self.shares().take(
                    i as int,
                ));
                lemma_total_shares_prefix(self.shares(), i as int + 1);
            }
            sum = sum + *self.map.value_at(i);
            i += 1;
        }
        proof {
            assert(self.shares().take(i as int) =~= self.shares());
        }
        sum
    }

    /// Adds a recipient with its share, unless the account is a recipient
    /// already or the shares would come to more than the whole. Tells
    /// whether it was added.
    pub fn insert(&mut self, account_id: String, basis_points: u32) -> (added: bool)
        requires
            old(self).wf(),
        ensures
            final(self).wf(),
            added == (!old(self)@.contains_key(account_id@) && total_shares(old(self).shares())
                + basis_points <= 10_000),
            added ==> final(self)@ == old(self)@.insert(account_id@, basis_points)
                && final(self).recipients() == old(self).recipients().push(account_id@)
                && final(self).shares() == old(self).shares().push(basis_points),
            !added ==> *final(self) == *old(self),
    {
        if self.map.contains_key(&account_id) {
            return false;
        }
        let sum = self.total();
        if basis_points > 10_000 || sum > 10_000 - basis_points {
            return false;
        }
        proof {
            assert(self.shares().push(basis_points).drop_last() =~= self.shares());
        }
        self.map.insert(account_id, basis_points);
        true
    }

    /// A copy of the schedule.
    pub fn duplicate(&self) -> (copy: Self)
        requires
            self.wf(),
        ensures
            copy.wf(),
            copy@ == self@,
            copy.recipients() == self.recipients(),
            copy.shares() == self.shares(),
    {
        RoyaltySchedule { map: self.map.duplicate() }
    }
}

/// What is owed to each account out of a balance.
pub struct Payout {
    pub(crate) payout: AccountMap<u128>,
}

impl View for Payout {
    type V = Map<Seq<char>, u128>;

    open(crate) spec fn view(&self) -> Map<Seq<char>, u128> {
        self.payout@
    }
}

impl Payout {
    /// The sum of the amounts owed.
    pub open(crate) spec fn total(&self) -> nat {
        total_amount(self.payout.values())
    }

    /// The number of accounts that are owed something.
    pub open(crate) spec fn count(&self) -> nat {
        self.payout.accounts().len()
    }

    /// No account occurs twice.
    pub open(crate) spec fn wf(&self) -> bool {
        self.payout.wf()
    }

    /// The number of accounts that are owed an amount.
    pub fn len(&self) -> (n: usize)
        ensures
            n == self.count(),
    {
        self.payout.len()
    }

    /// The amount owed to the account, if any is.
    pub fn get(&self, account_id: &String) -> (amount: Option<u128>)
        requires
            self.wf(),
        ensures
            amount == (if self@.contains_key(account_id@) {
                Some(self@[account_id@])
            } else {
                None
            }),
    {
        match self.payout.get(account_id) {
            Some(amount) => Some(*amount),
            None => None,
        }
    }

    /// The account at place `at` and the amount owed to it.
    pub fn entry_at(&self, at: usize) -> (entry: (&String, u128))
        requires
            self.wf(),
            at < self.count(),
        ensures
            self@.contains_key(entry.0@),
            self@[entry.0@] == entry.1,
    {
        proof {
            self.payout.lemma_entry(at as int);
        }
        (self.payout.account_at(at), *self.payout.value_at(at))
    }
}

/// What the owner of a ticket keeps of a balance: the share that the
/// schedule leaves after the recipients other than the owner.
pub open spec fn owner_share(schedule: RoyaltySchedule, owner: Seq<char>) -> int {
    10_000 - distributed(schedule.recipients(), schedule.shares(), owner)
}

/// What is owed to each account out of `balance` for a ticket of `owner`.
/// Without a schedule the owner gets all of it. With one, every recipient
/// other than the owner gets its share, rounded down, and the owner gets the
/// share that is left, rounded down.
pub open spec fn payout_of(owner: Seq<char>, royalty: Option<RoyaltySchedule>, balance: u128) -> Map<
    Seq<char>,
    u128,
> {
    match royalty {
        None => Map::<Seq<char>, u128>::empty().insert(owner, balance),
        Some(schedule) => Map::new(
            |k: Seq<char>| k == owner || schedule@.contains_key(k),
            |k: Seq<char>|
                if k == owner {
                    payout_share(owner_share(schedule, owner), balance as int) as u128
                } else {
                    payout_share(schedule@[k] as int, balance as int) as u128
                },
        ),
    }
}

/// Whether the schedule has more recipients than the caller accepts.
pub open spec fn too_many_recipients(royalty: Option<RoyaltySchedule>, max_len_payout: u32) -> bool {
    royalty is Some && royalty->0.recipients().len() > max_len_payout
}

/// Splits `balance` between the recipients of the schedule and the owner.
/// The amounts never come to more than the balance.
pub fn compute_payout(
    owner_id: &String,
    royalty: &Option<RoyaltySchedule>,
    balance: u128,
    max_len_payout: u32,
) -> (res: Result<Payout, RegistryError>)
    requires
        royalty is Some ==> royalty->0.wf(),
    ensures
        match res {
            Ok(payout) => {
                &&& !too_many_recipients(*royalty, max_len_payout)
                &&& payout.wf()
                &&& payout@ == payout_of(owner_id@, *royalty, balance)
                &&& payout.total() <= balance
            },
            Err(e) => e == RegistryError::TooManyRecipients && too_many_recipients(
                *royalty,
                max_len_payout,
            ),
        },
{
    let mut payout_object = Payout { payout: AccountMap::new() };
    let schedule = match royalty {
        None => {
            payout_object.payout.insert(owner_id.clone(), balance);
            proof {
                assert(payout_object.payout.values() =~= seq![balance]);
                assert(seq![balance].drop_last() =~= Seq::<u128>::empty());
                assert(total_amount(seq![balance]) == balance) by {
                    reveal_with_fuel(total_amount, 2);
                }
            }
            return Ok(payout_object);
        },
        Some(schedule) => schedule,
    };
    if schedule.len() as u64 > max_len_payout as u64 {
        return Err(RegistryError::TooManyRecipients);
    }
    let ghost recipients = schedule.recipients();
    let ghost shares = schedule.shares();
    let mut total_perpetual: u32 = 0;
    let mut i: usize = 0;
    proof {
        assert(payout_object.payout.values() =~= Seq::<u128>::empty());
    }
    while i < schedule.len()
        invariant
            i <= recipients.len(),
            recipients == schedule.recipients(),
            shares == schedule.shares(),
            recipients.len() == shares.len(),
            schedule.wf(),
            payout_object.wf(),
            forall|k: Seq<char>| #[trigger]
                payout_object@.contains_key(k) <==> k != owner_id@ && recipients.take(
                    i as int,
                ).contains(k),
            forall|k: Seq<char>| #[trigger]
                payout_object@.contains_key(k) ==> schedule@.contains_key(k) && payout_object@[k]
                    == payout_share(schedule@[k] as int, balance as int),
            total_perpetual == distributed(
                recipients.take(i as int),
                shares.take(i as int),
                owner_id@,
            ),
            total_perpetual <= total_shares(shares.take(i as int)) <= 10_000,
            payout_object.total() * 10_000 <= balance * total_perpetual,
        decreases recipients.len() - i,
    {
        let key = schedule.map.account_at(i);
        let share: u32 = *schedule.map.value_at(i);
        proof {
            schedule.map.lemma_entry(i as int);
            assert(recipients.take(i as int + 1).drop_last() =~= recipients.take(i as int));
            assert(shares.take(i as int + 1).drop_last() =~= shares.take(i as int));
            lemma_total_shares_prefix(shares, i as int + 1);
            if recipients.take(i as int).contains(key@) {
                let fewer = recipients.take(i as int);
                let j = choose|j: int| 0 <= j < fewer.len() && fewer[j] == key@;
                schedule.map.lemma_entry(j);
            }
            assert(!payout_object@.contains_key(key@));
        }
        if *key != *owner_id {
            proof {
                lemma_payout_share_bounded(share as int, balance as int);
            }
            let ghost before = payout_object.payout.values();
            let amount = royalty_to_payout(share, balance);
            payout_object.payout.insert(key.clone(), amount);
            total_perpetual = total_perpetual + share;
            proof {
                assert(payout_object.payout.values().drop_last() =~= before);
                assert(amount * 10_000 <= balance * share) by (nonlinear_arith)
                    requires
                        amount == (share as int * balance as int) / 10_000,
                ;
                assert(balance * (total_perpetual - share) + balance * share == balance
                    * total_perpetual) by (nonlinear_arith);
            }
        }
        proof {
            assert forall|k: Seq<char>| #[trigger]
                payout_object@.contains_key(k) <==> k != owner_id@ && recipients.take(
                    i as int + 1,
                ).contains(k) by {
                lemma_take_one_more(recipients, i as int, k);
            }
        }
        i += 1;
    }
    proof {
        assert(recipients.take(i as int) =~= recipients);
        assert(shares.take(i as int) =~= shares);
        lemma_payout_share_bounded(10_000 - total_perpetual as int, balance as int);
        schedule.map.lemma_accounts();
        assert(!payout_object@.contains_key(owner_id@));
    }
    let ghost before = payout_object.payout.values();
    let owner_amount = royalty_to_payout(10_000 - total_perpetual, balance);
    payout_object.payout.insert(owner_id.clone(), owner_amount);
    proof {
        assert(payout_object.payout.values().drop_last() =~= before);
        assert(owner_amount * 10_000 <= balance * (10_000 - total_perpetual)) by (nonlinear_arith)
            requires
                owner_amount == ((10_000 - total_perpetual) * balance as int) / 10_000,
        ;
        assert(balance * total_perpetual + balance * (10_000 - total_perpetual) == balance
            * 10_000) by (nonlinear_arith);
        assert(payout_object@ =~= payout_of(owner_id@, *royalty, balance));
    }
    Ok(payout_object)
}

/// What a transfer with a payout hands back.
pub struct TransferPayout {
    /// What the balance owes to whom, by the owner before the transfer.
    pub payout: Payout,
    /// The storage of the voided approvals, for the previous owner.
    pub refund: Refund,
    pub record: TransferRecord,
}

/// Why the payout for a ticket is refused, if it is.
pub open spec fn payout_error(
    tickets: Map<u64, TicketView>,
    raffles: Map<u64, crate::contract::Raffle>,
    ticket_id: u64,
    max_len_payout: u32,
) -> Option<RegistryError> {
    if !tickets.contains_key(ticket_id) {
        Some(RegistryError::NotFound)
    } else if too_many_recipients(raffles[tickets[ticket_id].raffle_id].royalty, max_len_payout) {
        Some(RegistryError::TooManyRecipients)
    } else {
        None
    }
}

impl Contract {
    /// Calculates what `balance` owes to the royalty recipients of the
    /// ticket's raffle and to the ticket's owner. Changes nothing.
    pub fn nft_payout(&self, ticket_id: u64, balance: u128, max_len_payout: u32) -> (res: Result<
        Payout,
        RegistryError,
    >)
        requires
            self.wf(),
        ensures
            match res {
                Ok(payout) => {
                    let ticket = self.tickets()[ticket_id];
                    &&& payout_error(self.tickets(), self.raffles(), ticket_id, max_len_payout)
                        is None
                    &&& payout.wf()
                    &&& payout@ == payout_of(
                        ticket.owner_id,
                        self.raffles()[ticket.raffle_id].royalty,
                        balance,
                    )
                    &&& payout.total() <= balance
                },
                Err(e) => payout_error(self.tickets(), self.raffles(), ticket_id, max_len_payout)
                    == Some(e),
            },
    {
        let ticket = match self.ticket_by_id.get(&ticket_id) {
            Some(ticket) => ticket,
            None => {
                return Err(RegistryError::NotFound);
            },
        };
        let raffle = self.raffle_by_id.get(&ticket.raffle_id).unwrap();
        compute_payout(&ticket.owner_id, &raffle.royalty, balance, max_len_payout)
    }

    /// Transfers the ticket to `receiver_id` as `nft_transfer` does, and
    /// returns what `balance` owes to the royalty recipients and to the
    /// owner that the ticket had before the transfer.
    pub fn nft_transfer_payout(
        &mut self,
        caller: &String,
        attached_deposit: u128,
        receiver_id: &String,
        ticket_id: u64,
        approval_id: u64,
        memo: Option<String>,
        balance: u128,
        max_len_payout: u32,
    ) -> (res: Result<TransferPayout, RegistryError>)
        requires
            old(self).wf(),
        ensures
            final(self).wf(),
            final(self).raffles() == old(self).raffles(),
            final(self).admin() == old(self).admin(),
            match res {
                Ok(done) => {
                    let ticket = old(self).tickets()[ticket_id];
                    &&& paid_transfer_error(
                        old(self).tickets(),
                        attached_deposit,
                        caller@,
                        receiver_id@,
                        ticket_id,
                        Some(approval_id),
                    ) is None
                    &&& payout_error(
                        old(self).tickets(),
                        old(self).raffles(),
                        ticket_id,
                        max_len_payout,
                    ) is None
                    &&& final(self).tickets() == old(self).tickets().insert(
                        ticket_id,
                        transferred(ticket, receiver_id@),
                    )
                    &&& final(self).approval_bytes(ticket_id) == 0
                    &&& forall|a: Seq<char>| #[trigger]
                        final(self).owner_order(a) == after_move(
                            old(self).owner_order(a),
                            a,
                            ticket.owner_id,
                            receiver_id@,
                            ticket_id,
                        )
                    &&& done.refund@ == (
                        ticket.owner_id,
                        storage_cost(old(self).approval_bytes(ticket_id) as int) as u128,
                    )
                    &&& done.record@ == transfer_record(
                        ticket,
                        caller@,
                        receiver_id@,
                        ticket_id,
                        opt_text(memo),
                    )
                    &&& done.payout.wf()
                    &&& done.payout@ == payout_of(
                        ticket.owner_id,
                        old(self).raffles()[ticket.raffle_id].royalty,
                        balance,
                    )
                    &&& done.payout.total() <= balance
                },
                Err(e) => {
                    &&& *final(self) == *old(self)
                    &&& Some(e) == (match paid_transfer_error(
                        old(self).tickets(),
                        attached_deposit,
                        caller@,
                        receiver_id@,
                        ticket_id,
                        Some(approval_id),
                    ) {
                        Some(refused) => Some(refused),
                        None => payout_error(
                            old(self).tickets(),
                            old(self).raffles(),
                            ticket_id,
                            max_len_payout,
                        ),
                    })
                },
            },
    {
        if assert_one_yocto(attached_deposit).is_err() {
            return Err(RegistryError::InsufficientPayment);
        }
        match self.check_transfer(caller, receiver_id, ticket_id, Some(approval_id)) {
            Err(e) => {
                return Err(e);
            },
            Ok(()) => {},
        }
        let payout = match self.nft_payout(ticket_id, balance, max_len_payout) {
            Ok(payout) => payout,
            Err(e) => {
                return Err(e);
            },
        };
        let done = match self.internal_transfer(
            caller,
            receiver_id,
            ticket_id,
            Some(approval_id),
            memo,
        ) {
            Ok(done) => done,
            Err(e) => {
                return Err(e);
            },
        };
        let refund = refund_approved_account_ids(
            done.previous.owner_id.clone(),
            &done.previous.approved_account_ids,
        );
        Ok(TransferPayout { payout, refund, record: done.record })
    }
}

/// One more element of a sequence's prefix adds that element and no other.
pub proof fn lemma_take_one_more(accounts: Seq<Seq<char>>, upto: int, account: Seq<char>)
    requires
        0 <= upto < accounts.len(),
    ensures
        accounts.take(upto + 1).contains(account) <==> accounts.take(upto).contains(account)
            || accounts[upto] == account,
{
    let more = accounts.take(upto + 1);
    let fewer = accounts.take(upto);
    if more.contains(account) {
        let j = choose|j: int| 0 <= j < more.len() && more[j] == account;
        if j < upto {
            assert(fewer[j] == account);
        }
    }
    if fewer.contains(account) {
        let j = choose|j: int| 0 <= j < fewer.len() && fewer[j] == account;
        assert(more[j] == account);
    }
    if accounts[upto] == account {
        assert(more[upto] == account);
    }
}

} // verus!
