//! The ledger itself: escrow per account, the cache of observed token
//! balances, and the entry points that move them.

use vstd::prelude::*;
use vstd::hash_map::StringHashMap;
use crate::batch::{
    all_recipients_valid, check_recipients, is_first_invalid_recipient, lemma_total_amount_prefix,
    lemma_total_amount_step, planned_transfers, total_amount, total_within,
};
use crate::gateway::{assert_self, decode_balance, decoded_balance, is_promise_success};
use crate::model::{credited, debited, escrow_of, observed_of, settled, AccountMap};
use crate::types::{
    BalanceQuery, Batch, BatchView, Context, LedgerError, Operation, PromiseOutcome, Transfer,
    TransferView,
};
use crate::units::{AGGREGATE_LOG_THRESHOLD, CALLBACK_GAS, GAS_FOR_FT_TRANSFER, NO_DEPOSIT};

verus! {

/// The escrow ledger and the cache of last observed token balances.
pub struct MultisenderFt {
    user_balances: StringHashMap<u128>,
    deposits: StringHashMap<u128>,
}

/// When a batch is turned down, and with which error.
pub open spec fn batch_rejected(
    ledger: AccountMap,
    caller: Seq<char>,
    ops: Seq<Operation>,
    error: LedgerError,
) -> bool {
    match error {
        LedgerError::UnknownAccount => !ledger.contains_key(caller),
        LedgerError::InvalidRecipient { index } => {
            &&& ledger.contains_key(caller)
            &&& is_first_invalid_recipient(ops, index as int)
        },
        LedgerError::InsufficientDeposit => {
            &&& ledger.contains_key(caller)
            &&& all_recipients_valid(ops)
            &&& total_amount(ops) > escrow_of(ledger, caller)
        },
        _ => false,
    }
}

/// When a batch is accepted.
pub open spec fn batch_accepted(ledger: AccountMap, caller: Seq<char>, ops: Seq<Operation>) -> bool {
    &&& ledger.contains_key(caller)
    &&& all_recipients_valid(ops)
    &&& total_amount(ops) <= escrow_of(ledger, caller)
}

/// When a direct transfer is turned down, and with which error.
pub open spec fn transfer_rejected(
    ledger: AccountMap,
    sender: Seq<char>,
    amount: u128,
    error: LedgerError,
) -> bool {
    match error {
        LedgerError::UnknownAccount => !ledger.contains_key(sender),
        LedgerError::AmountOverflow => ledger.contains_key(sender) && amount < GAS_FOR_FT_TRANSFER,
        LedgerError::InsufficientDeposit => {
            &&& ledger.contains_key(sender)
            &&& amount >= GAS_FOR_FT_TRANSFER
            &&& escrow_of(ledger, sender) <= amount - GAS_FOR_FT_TRANSFER
        },
        _ => false,
    }
}

/// When a direct transfer is accepted.
pub open spec fn transfer_accepted(ledger: AccountMap, sender: Seq<char>, amount: u128) -> bool {
    &&& ledger.contains_key(sender)
    &&& amount >= GAS_FOR_FT_TRANSFER
    &&& escrow_of(ledger, sender) > amount - GAS_FOR_FT_TRANSFER
}

/// When a deposit is turned down, and with which error.
pub open spec fn deposit_rejected(
    ledger: AccountMap,
    cache: AccountMap,
    account: Seq<char>,
    amount: u128,
    error: LedgerError,
) -> bool {
    match error {
        LedgerError::InsufficientExternalFunds => {
            observed_of(cache, account) <= amount + GAS_FOR_FT_TRANSFER
        },
        LedgerError::AmountOverflow => {
            &&& observed_of(cache, account) > amount + GAS_FOR_FT_TRANSFER
            &&& escrow_of(ledger, account) + amount > u128::MAX
        },
        _ => false,
    }
}

/// When a deposit is accepted.
pub open spec fn deposit_accepted(
    ledger: AccountMap,
    cache: AccountMap,
    account: Seq<char>,
    amount: u128,
) -> bool {
    &&& observed_of(cache, account) > amount + GAS_FOR_FT_TRANSFER
    &&& escrow_of(ledger, account) + amount <= u128::MAX
}

/// When the reply to a balance query is turned down, and with which error.
pub open spec fn query_rejected(ctx: Context, error: LedgerError) -> bool {
    match error {
        LedgerError::NotACallback => !ctx.is_callback(),
        LedgerError::QueryFailed => ctx.is_callback() && !ctx.promise_succeeded(),
        LedgerError::MalformedBalance => {
            &&& ctx.promise_succeeded()
            &&& decoded_balance(ctx.promise_results@[0]->Successful_0@) is None
        },
        _ => false,
    }
}

/// When a reconciliation callback is turned down, and with which error.
pub open spec fn reconciliation_rejected(
    ledger: AccountMap,
    ctx: Context,
    account: Seq<char>,
    amount: u128,
    error: LedgerError,
) -> bool {
    match error {
        LedgerError::SelfCallViolation => !ctx.is_self_call(),
        LedgerError::NotACallback => ctx.is_self_call() && !ctx.is_callback(),
        LedgerError::AmountOverflow => {
            &&& ctx.is_self_call()
            &&& ctx.is_callback()
            &&& !ctx.promise_succeeded()
            &&& escrow_of(ledger, account) + amount > u128::MAX
        },
        _ => false,
    }
}

/// The map that a list of entries stands for. Each entry sets the amount of
/// its account; of two entries for one account the later counts.
pub open spec fn entries_map(entries: Seq<(String, u128)>) -> AccountMap
    decreases entries.len(),
{
    if entries.len() == 0 {
        AccountMap::empty()
    } else {
        entries_map(entries.drop_last()).insert(entries.last().0@, entries.last().1)
    }
}

/// Builds the map that `entries` stand for.
fn load_entries(entries: &Vec<(String, u128)>) -> (loaded: StringHashMap<u128>)
    ensures
        loaded@ == entries_map(entries@),
{
    let mut loaded: StringHashMap<u128> = StringHashMap::new();
    let mut i: usize = 0;
    while i < entries.len()
        invariant
            i <= entries.len(),
            loaded@ == entries_map(entries@.take(i as int)),
        decreases entries.len() - i,
    {
        assert(entries@.take(i + 1).drop_last() =~= entries@.take(i as int));
        loaded.insert(entries[i].0.clone(), entries[i].1);
        i += 1;
    }
    assert(entries@.take(i as int) =~= entries@);
    loaded
}

impl MultisenderFt {
    /// Escrow per account: the authority on what an account may still spend.
    pub closed spec fn ledger(&self) -> AccountMap {
        self.deposits@
    }

    /// Last observed token balance per account. Advisory, possibly stale.
    pub closed spec fn cache(&self) -> AccountMap {
        self.user_balances@
    }

    /// What `account` holds in escrow.
    pub open spec fn escrowed(&self, account: Seq<char>) -> nat {
        escrow_of(self.ledger(), account)
    }

    /// The last observed token balance of `account`.
    pub open spec fn observed(&self, account: Seq<char>) -> nat {
        observed_of(self.cache(), account)
    }

    /// A ledger without any account.
    pub fn new() -> (fresh: Self)
        ensures
            fresh.ledger() == AccountMap::empty(),
            fresh.cache() == AccountMap::empty(),
    {
        MultisenderFt { user_balances: StringHashMap::new(), deposits: StringHashMap::new() }
    }

    /// A ledger with the given escrow entries and observed balances, such as
    /// one read back from storage.
    pub fn from_entries(
        deposits: Vec<(String, u128)>,
        user_balances: Vec<(String, u128)>,
    ) -> (loaded: Self)
        ensures
            loaded.ledger() == entries_map(deposits@),
            loaded.cache() == entries_map(user_balances@),
    {
        MultisenderFt {
            user_balances: load_entries(&user_balances),
            deposits: load_entries(&deposits),
        }
    }

    /// Whether `account_id` has a ledger entry, be it an empty one.
    pub fn has_deposit(&self, account_id: &String) -> (known: bool)
        ensures
            known == self.ledger().contains_key(account_id@),
    {
        self.deposits.contains_key(account_id.as_str())
    }

    /// Whether a token balance of `account_id` has been observed.
    pub fn has_user_balance(&self, account_id: &String) -> (known: bool)
        ensures
            known == self.cache().contains_key(account_id@),
    {
        self.user_balances.contains_key(account_id.as_str())
    }

    /// The query that refreshes the observed token balance of `account_id`.
    /// One query brings one reply; nothing is refreshed without it.
    pub fn get_balance(&self, account_id: String) -> (query: BalanceQuery)
        ensures
            query.account_id@ == account_id@,
            query.attached_deposit == NO_DEPOSIT,
            query.gas == CALLBACK_GAS,
    {
        BalanceQuery { account_id, attached_deposit: NO_DEPOSIT, gas: CALLBACK_GAS }
    }

    /// What `account_id` holds in escrow; nothing if it has no entry.
    pub fn get_deposit(&self, account_id: String) -> (amount: u128)
        ensures
            amount == self.escrowed(account_id@),
    {
        match self.deposits.get(account_id.as_str()) {
            Some(deposit) => *deposit,
            None => 0,
        }
    }

    /// The last observed token balance of `account_id`; nothing if it was
    /// never observed. Asks nobody.
    pub fn get_user_balance(&self, account_id: String) -> (amount: u128)
        ensures
            amount == self.observed(account_id@),
    {
        match self.user_balances.get(account_id.as_str()) {
            Some(balance) => *balance,
            None => 0,
        }
    }

    /// Decides whether `caller` may dispatch the batch, and returns the
    /// caller's escrow if so.
    fn authorize_batch(
        &self,
        caller: &str,
        accounts: &Vec<Operation>,
    ) -> (verdict: Result<u128, LedgerError>)
        ensures
            match verdict {
                Ok(tokens) => {
                    &&& batch_accepted(self.ledger(), caller@, accounts@)
                    &&& tokens == self.escrowed(caller@)
                },
                Err(error) => batch_rejected(self.ledger(), caller@, accounts@, error),
            },
    {
        let tokens: u128 = match self.deposits.get(caller) {
            Some(deposit) => *deposit,
            None => {
                return Err(LedgerError::UnknownAccount);
            },
        };
        match check_recipients(accounts) {
            Ok(()) => {},
            Err(error) => {
                return Err(error);
            },
        }
        match total_within(accounts, tokens) {
            Some(_) => Ok(tokens),
            None => Err(LedgerError::InsufficientDeposit),
        }
    }

    /// Dispatches a batch out of the caller's escrow, with reconciliation.
    ///
    /// The batch is accepted or turned down as a whole. If it is accepted,
    /// the escrow of the caller is debited for every instruction before any
    /// transfer has had a chance to finish, and every transfer carries a
    /// reconciliation callback. The outcome of the transfers is not known
    /// when this returns.
    pub fn multisend_from_balance(
        &mut self,
        ctx: &Context,
        accounts: Vec<Operation>,
    ) -> (dispatched: Result<Batch, LedgerError>)
        ensures
            final(self).cache() == old(self).cache(),
            match dispatched {
                Ok(batch) => {
                    &&& batch_accepted(old(self).ledger(), ctx.predecessor_account_id@, accounts@)
                    &&& final(self).ledger() == debited(
                        old(self).ledger(),
                        ctx.predecessor_account_id@,
                        total_amount(accounts@),
                    )
                    &&& final(self).escrowed(ctx.predecessor_account_id@) == old(self).escrowed(
                        ctx.predecessor_account_id@,
                    ) - total_amount(accounts@)
                    &&& batch@ == (BatchView {
                        transfers: planned_transfers(ctx.predecessor_account_id@, accounts@, true),
                        aggregate_logs: accounts@.len() >= AGGREGATE_LOG_THRESHOLD,
                    })
                },
                Err(error) => {
                    &&& batch_rejected(
                        old(self).ledger(),
                        ctx.predecessor_account_id@,
                        accounts@,
                        error,
                    )
                    &&& final(self).ledger() == old(self).ledger()
                },
            },
    {
        let tokens: u128 = match self.authorize_batch(
            ctx.predecessor_account_id.as_str(),
            &accounts,
        ) {
            Ok(tokens) => tokens,
            Err(error) => {
                return Err(error);
            },
        };
        let ghost caller = ctx.predecessor_account_id@;
        let ghost before = self.deposits@;
        let mut transfers: Vec<Transfer> = Vec::new();
        let mut remaining: u128 = tokens;
        let mut i: usize = 0;
        while i < accounts.len()
            invariant
                i <= accounts.len(),
                caller == ctx.predecessor_account_id@,
                before.contains_key(caller),
                tokens == before[caller],
                total_amount(accounts@) <= tokens,
                remaining == tokens - total_amount(accounts@.take(i as int)),
                self.deposits@ == debited(before, caller, total_amount(accounts@.take(i as int))),
                self.user_balances@ == old(self).user_balances@,
                transfers@.len() == i,
                forall|j: int|
                    0 <= j < i ==> (#[trigger] transfers@[j])@ == planned_transfers(
                        caller,
                        accounts@,
                        true,
                    )[j],
            decreases accounts.len() - i,
        {
            let amount: u128 = accounts[i].amount;
            proof {
                lemma_total_amount_step(accounts@, i as int);
                lemma_total_amount_prefix(accounts@, i + 1);
            }
            remaining = remaining - amount;
            self.deposits.insert(ctx.predecessor_account_id.clone(), remaining);
            transfers.push(
                Transfer {
                    account_id: ctx.predecessor_account_id.clone(),
                    recipient: accounts[i].account_id.clone(),
                    amount,
                    reconciled: true,
                },
            );
            i += 1;
        }
        assert(accounts@.take(i as int) =~= accounts@);
        let batch = Batch { transfers, aggregate_logs: accounts.len() >= AGGREGATE_LOG_THRESHOLD };
        assert(batch@.transfers =~= planned_transfers(caller, accounts@, true));
        Ok(batch)
    }

    /// Dispatches a batch out of the caller's escrow, without
    /// reconciliation.
    ///
    /// The batch is checked as [`MultisenderFt::multisend_from_balance`]
    /// checks it, and the escrow of the caller is debited once, for the whole
    /// batch. No transfer carries a reconciliation callback: what a failed
    /// transfer has taken out of the escrow is not given back.
    pub fn multisend_from_balance_unsafe(
        &mut self,
        ctx: &Context,
        accounts: Vec<Operation>,
    ) -> (dispatched: Result<Batch, LedgerError>)
        ensures
            final(self).cache() == old(self).cache(),
            match dispatched {
                Ok(batch) => {
                    &&& batch_accepted(old(self).ledger(), ctx.predecessor_account_id@, accounts@)
                    &&& final(self).ledger() == debited(
                        old(self).ledger(),
                        ctx.predecessor_account_id@,
                        total_amount(accounts@),
                    )
                    &&& final(self).escrowed(ctx.predecessor_account_id@) == old(self).escrowed(
                        ctx.predecessor_account_id@,
                    ) - total_amount(accounts@)
                    &&& batch@ == (BatchView {
                        transfers: planned_transfers(ctx.predecessor_account_id@, accounts@, false),
                        aggregate_logs: accounts@.len() >= AGGREGATE_LOG_THRESHOLD,
                    })
                },
                Err(error) => {
                    &&& batch_rejected(
                        old(self).ledger(),
                        ctx.predecessor_account_id@,
                        accounts@,
                        error,
                    )
                    &&& final(self).ledger() == old(self).ledger()
                },
            },
    {
        let tokens: u128 = match self.authorize_batch(
            ctx.predecessor_account_id.as_str(),
            &accounts,
        ) {
            Ok(tokens) => tokens,
            Err(error) => {
                return Err(error);
            },
        };
        let ghost caller = ctx.predecessor_account_id@;
        let mut transfers: Vec<Transfer> = Vec::new();
        let mut total: u128 = 0;
        let mut i: usize = 0;
        while i < accounts.len()
            invariant
                i <= accounts.len(),
                caller == ctx.predecessor_account_id@,
                total_amount(accounts@) <= tokens,
                total == total_amount(accounts@.take(i as int)),
                transfers@.len() == i,
                forall|j: int|
                    0 <= j < i ==> (#[trigger] transfers@[j])@ == planned_transfers(
                        caller,
                        accounts@,
                        false,
                    )[j],
            decreases accounts.len() - i,
        {
            let amount: u128 = accounts[i].amount;
            proof {
                lemma_total_amount_step(accounts@, i as int);
                lemma_total_amount_prefix(accounts@, i + 1);
            }
            transfers.push(
                Transfer {
                    account_id: ctx.predecessor_account_id.clone(),
                    recipient: accounts[i].account_id.clone(),
                    amount,
                    reconciled: false,
                },
            );
            total = total + amount;
            i += 1;
        }
        assert(accounts@.take(i as int) =~= accounts@);
        self.deposits.insert(ctx.predecessor_account_id.clone(), tokens - total);
        let batch = Batch { transfers, aggregate_logs: accounts.len() >= AGGREGATE_LOG_THRESHOLD };
        assert(batch@.transfers =~= planned_transfers(caller, accounts@, false));
        Ok(batch)
    }

    /// Prepares a single transfer of `amount` to `receiver_id` on behalf of
    /// the caller, without touching the ledger.
    ///
    /// The caller must have a ledger entry, and its escrow must exceed the
    /// amount less the fee reserve; an amount below the fee reserve is
    /// turned down, since that difference does not exist.
    pub fn ft_on_transfer(
        &self,
        ctx: &Context,
        receiver_id: String,
        amount: u128,
    ) -> (prepared: Result<Transfer, LedgerError>)
        ensures
            match prepared {
                Ok(transfer) => {
                    &&& transfer_accepted(self.ledger(), ctx.predecessor_account_id@, amount)
                    &&& transfer@ == (TransferView {
                        account_id: ctx.predecessor_account_id@,
                        recipient: receiver_id@,
                        amount,
                        reconciled: false,
                    })
                },
                Err(error) => transfer_rejected(
                    self.ledger(),
                    ctx.predecessor_account_id@,
                    amount,
                    error,
                ),
            },
    {
        let sender_deposit: u128 = match self.deposits.get(ctx.predecessor_account_id.as_str()) {
            Some(deposit) => *deposit,
            None => {
                return Err(LedgerError::UnknownAccount);
            },
        };
        if amount < GAS_FOR_FT_TRANSFER {
            return Err(LedgerError::AmountOverflow);
        }
        if sender_deposit <= amount - GAS_FOR_FT_TRANSFER {
            return Err(LedgerError::InsufficientDeposit);
        }
        Ok(
            Transfer {
                account_id: ctx.predecessor_account_id.clone(),
                recipient: receiver_id,
                amount,
                reconciled: false,
            },
        )
    }

    /// Adds `deposit_amount` to the escrow of `account_id` and returns the
    /// new escrow.
    ///
    /// The last observed token balance of the account must exceed the
    /// deposit plus the fee reserve. That balance may be stale: the check is
    /// a guard, not a guarantee.
    pub fn deposit(
        &mut self,
        account_id: String,
        deposit_amount: u128,
    ) -> (deposited: Result<u128, LedgerError>)
        ensures
            final(self).cache() == old(self).cache(),
            match deposited {
                Ok(balance) => {
                    &&& deposit_accepted(
                        old(self).ledger(),
                        old(self).cache(),
                        account_id@,
                        deposit_amount,
                    )
                    &&& balance == old(self).escrowed(account_id@) + deposit_amount
                    &&& final(self).ledger() == credited(
                        old(self).ledger(),
                        account_id@,
                        deposit_amount as nat,
                    )
                },
                Err(error) => {
                    &&& deposit_rejected(
                        old(self).ledger(),
                        old(self).cache(),
                        account_id@,
                        deposit_amount,
                        error,
                    )
                    &&& final(self).ledger() == old(self).ledger()
                },
            },
    {
        let balance: u128 = match self.user_balances.get(account_id.as_str()) {
            Some(balance) => *balance,
            None => 0,
        };
        if deposit_amount > u128::MAX - GAS_FOR_FT_TRANSFER {
            return Err(LedgerError::InsufficientExternalFunds);
        }
        if balance <= deposit_amount + GAS_FOR_FT_TRANSFER {
            return Err(LedgerError::InsufficientExternalFunds);
        }
        self.credit(account_id, deposit_amount)
    }

    /// Sends the whole escrow of `account_id` back to it and empties its
    /// ledger entry.
    ///
    /// The escrow must exceed the fee reserve. The entry is emptied at once,
    /// whatever becomes of the transfer: it carries no reconciliation
    /// callback.
    pub fn withdraw_all(&mut self, account_id: String) -> (withdrawn: Result<Transfer, LedgerError>)
        ensures
            final(self).cache() == old(self).cache(),
            match withdrawn {
                Ok(transfer) => {
                    &&& old(self).escrowed(account_id@) > GAS_FOR_FT_TRANSFER
                    &&& transfer@ == (TransferView {
                        account_id: account_id@,
                        recipient: account_id@,
                        amount: old(self).escrowed(account_id@) as u128,
                        reconciled: false,
                    })
                    &&& final(self).ledger() == old(self).ledger().insert(account_id@, 0)
                },
                Err(error) => {
                    &&& error == LedgerError::NothingToWithdraw
                    &&& old(self).escrowed(account_id@) <= GAS_FOR_FT_TRANSFER
                    &&& final(self).ledger() == old(self).ledger()
                },
            },
    {
        let deposit: u128 = match self.deposits.get(account_id.as_str()) {
            Some(deposit) => *deposit,
            None => 0,
        };
        if deposit <= GAS_FOR_FT_TRANSFER {
            return Err(LedgerError::NothingToWithdraw);
        }
        let transfer = Transfer {
            account_id: account_id.clone(),
            recipient: account_id.clone(),
            amount: deposit,
            reconciled: false,
        };
        self.deposits.insert(account_id, 0);
        Ok(transfer)
    }

    /// Takes the reply to a balance query for `account_id` and stores the
    /// balance it holds as the last observed one.
    ///
    /// The call must be the callback of exactly one call, that call must
    /// have succeeded, and its reply must hold a balance.
    pub fn on_ft_balance_of(
        &mut self,
        ctx: &Context,
        account_id: String,
    ) -> (observed: Result<u128, LedgerError>)
        ensures
            final(self).ledger() == old(self).ledger(),
            match observed {
                Ok(balance) => {
                    &&& ctx.promise_succeeded()
                    &&& decoded_balance(ctx.promise_results@[0]->Successful_0@) == Some(balance)
                    &&& final(self).cache() == old(self).cache().insert(account_id@, balance)
                },
                Err(error) => {
                    &&& query_rejected(*ctx, error)
                    &&& final(self).cache() == old(self).cache()
                },
            },
    {
        if ctx.promise_results.len() != 1 {
            return Err(LedgerError::NotACallback);
        }
        match &ctx.promise_results[0] {
            PromiseOutcome::Successful(reply) => {
                let decoded: Option<u128> = decode_balance(reply);
                self.record_balance(account_id, decoded)
            },
            _ => Err(LedgerError::QueryFailed),
        }
    }

    /// Stores what the reply to a balance query for `account_id` has
    /// decoded to, if it has decoded to a balance.
    pub fn record_balance(
        &mut self,
        account_id: String,
        decoded: Option<u128>,
    ) -> (observed: Result<u128, LedgerError>)
        ensures
            final(self).ledger() == old(self).ledger(),
            match observed {
                Ok(balance) => {
                    &&& decoded == Some(balance)
                    &&& final(self).cache() == old(self).cache().insert(account_id@, balance)
                },
                Err(error) => {
                    &&& decoded is None
                    &&& error == LedgerError::MalformedBalance
                    &&& final(self).cache() == old(self).cache()
                },
            },
    {
        match decoded {
            Some(balance) => {
                self.user_balances.insert(account_id, balance);
                Ok(balance)
            },
            None => Err(LedgerError::MalformedBalance),
        }
    }

    /// Gives `amount` to the escrow of `account_id` and returns the new
    /// escrow, unless that cannot be represented.
    fn credit(&mut self, account_id: String, amount: u128) -> (balance: Result<u128, LedgerError>)
        ensures
            final(self).cache() == old(self).cache(),
            match balance {
                Ok(balance) => {
                    &&& balance == old(self).escrowed(account_id@) + amount
                    &&& final(self).ledger() == credited(
                        old(self).ledger(),
                        account_id@,
                        amount as nat,
                    )
                },
                Err(error) => {
                    &&& error == LedgerError::AmountOverflow
                    &&& old(self).escrowed(account_id@) + amount > u128::MAX
                    &&& final(self).ledger() == old(self).ledger()
                },
            },
    {
        let previous: u128 = match self.deposits.get(account_id.as_str()) {
            Some(deposit) => *deposit,
            None => 0,
        };
        match previous.checked_add(amount) {
            Some(balance) => {
                self.deposits.insert(account_id, balance);
                Ok(balance)
            },
            None => Err(LedgerError::AmountOverflow),
        }
    }

    /// The reconciliation callback of a transfer of `amount_sent` to
    /// `recipient`, paid for by `account_id`.
    ///
    /// Only the ledger itself may call it, as the callback of exactly one
    /// call. If that call has failed, `amount_sent` goes back to the escrow
    /// of `account_id` and `true` is returned; if it has succeeded, nothing
    /// changes and `false` is returned.
    pub fn on_transfer_from_balance(
        &mut self,
        ctx: &Context,
        account_id: String,
        amount_sent: u128,
        recipient: String,
    ) -> (reversed: Result<bool, LedgerError>)
        ensures
            final(self).cache() == old(self).cache(),
            match reversed {
                Ok(reversed) => {
                    &&& ctx.is_self_call()
                    &&& ctx.is_callback()
                    &&& reversed == !ctx.promise_succeeded()
                    &&& reversed ==> old(self).escrowed(account_id@) + amount_sent <= u128::MAX
                    &&& final(self).ledger() == settled(
                        old(self).ledger(),
                        TransferView {
                            account_id: account_id@,
                            recipient: recipient@,
                            amount: amount_sent,
                            reconciled: true,
                        },
                        ctx.promise_succeeded(),
                    )
                },
                Err(error) => {
                    &&& reconciliation_rejected(
                        old(self).ledger(),
                        *ctx,
                        account_id@,
                        amount_sent,
                        error,
                    )
                    &&& final(self).ledger() == old(self).ledger()
                },
            },
    {
        match assert_self(ctx) {
            Ok(()) => {},
            Err(error) => {
                return Err(error);
            },
        }
        let transfer_succeeded: bool = match is_promise_success(ctx) {
            Ok(success) => success,
            Err(error) => {
                return Err(error);
            },
        };
        if transfer_succeeded {
            return Ok(false);
        }
        match self.credit(account_id, amount_sent) {
            Ok(_) => Ok(true),
            Err(error) => Err(error),
        }
    }

    /// Applies the outcome of `transfer` to the ledger, as the host does by
    /// running the callback that the transfer carries, if it carries one.
    ///
    /// Returns whether the amount went back to the account that paid.
    pub fn reconcile(
        &mut self,
        transfer: &Transfer,
        succeeded: bool,
    ) -> (reversed: Result<bool, LedgerError>)
        ensures
            final(self).cache() == old(self).cache(),
            match reversed {
                Ok(reversed) => {
                    &&& reversed == (transfer.reconciled && !succeeded)
                    &&& reversed ==> old(self).escrowed(transfer.account_id@) + transfer.amount
                        <= u128::MAX
                    &&& final(self).ledger() == settled(old(self).ledger(), transfer@, succeeded)
                },
                Err(error) => {
                    &&& error == LedgerError::AmountOverflow
                    &&& transfer.reconciled
                    &&& !succeeded
                    &&& old(self).escrowed(transfer.account_id@) + transfer.amount > u128::MAX
                    &&& final(self).ledger() == old(self).ledger()
                },
            },
    {
        if !transfer.reconciled || succeeded {
            return Ok(false);
        }
        match self.credit(transfer.account_id.clone(), transfer.amount) {
            Ok(_) => Ok(true),
            Err(error) => Err(error),
        }
    }
}

impl Default for MultisenderFt {
    /// A ledger without any account.
    fn default() -> (fresh: Self)
        ensures
            fresh.ledger() == AccountMap::empty(),
            fresh.cache() == AccountMap::empty(),
    {
        MultisenderFt::new()
    }
}

} // verus!
