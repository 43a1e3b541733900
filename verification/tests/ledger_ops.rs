use multisender_ft::{
    assert_self, is_promise_success, yocto_ft, BalanceQuery, Context, LedgerError, MultisenderFt,
    Operation, PromiseOutcome, Transfer, AGGREGATE_LOG_THRESHOLD, CALLBACK_GAS,
    GAS_FOR_FT_TRANSFER, NO_DEPOSIT, YOCTO_PER_FT,
};

const CONTRACT: &str = "multisender.near";
const FEE: u128 = 10_000_000_000_000;

fn call_from(caller: &str) -> Context {
    Context {
        predecessor_account_id: caller.to_string(),
        current_account_id: CONTRACT.to_string(),
        promise_results: vec![],
    }
}

fn callback_with(results: Vec<PromiseOutcome>) -> Context {
    Context {
        predecessor_account_id: CONTRACT.to_string(),
        current_account_id: CONTRACT.to_string(),
        promise_results: results,
    }
}

fn reply(text: &str) -> PromiseOutcome {
    PromiseOutcome::Successful(text.as_bytes().to_vec())
}

fn account(name: &str) -> String {
    name.to_string()
}

#[test]
fn new_ledger_holds_nothing() {
    let ledger = MultisenderFt::new();
    assert_eq!(ledger.get_deposit(account("alice.near")), 0);
    assert_eq!(ledger.get_user_balance(account("alice.near")), 0);
    assert!(!ledger.has_deposit(&account("alice.near")));
    assert!(!ledger.has_user_balance(&account("alice.near")));
    let ledger = MultisenderFt::default();
    assert_eq!(ledger.get_deposit(account("alice.near")), 0);
    assert!(!ledger.has_deposit(&account("alice.near")));
}

#[test]
fn from_entries_lets_the_later_entry_count() {
    let ledger = MultisenderFt::from_entries(
        vec![(account("a.near"), 1), (account("b.near"), 2), (account("a.near"), 3)],
        vec![(account("a.near"), 7)],
    );
    assert_eq!(ledger.get_deposit(account("a.near")), 3);
    assert_eq!(ledger.get_deposit(account("b.near")), 2);
    assert_eq!(ledger.get_user_balance(account("a.near")), 7);
    assert_eq!(ledger.get_user_balance(account("b.near")), 0);
    assert!(ledger.has_user_balance(&account("a.near")));
}

#[test]
fn fee_reserve_is_ten_to_the_thirteenth() {
    assert_eq!(GAS_FOR_FT_TRANSFER, FEE);
    assert_eq!(NO_DEPOSIT, 0);
    assert_eq!(CALLBACK_GAS, 5_000_000_000_000);
    assert_eq!(YOCTO_PER_FT, 1_000_000_000_000_000_000);
    assert_eq!(AGGREGATE_LOG_THRESHOLD, 100);
}

#[test]
fn yocto_ft_rounds_down_to_whole_tokens() {
    assert_eq!(yocto_ft(0), 0);
    assert_eq!(yocto_ft(999_999_999_999_999_999), 0);
    assert_eq!(yocto_ft(1_000_000_000_000_000_000), 1);
    assert_eq!(yocto_ft(1_500_000_000_000_000_000), 1);
    assert_eq!(yocto_ft(42_000_000_000_000_000_000), 42);
    assert_eq!(yocto_ft(u128::MAX), 340_282_366_920_938_463_463);
}

#[test]
fn deposit_needs_an_observed_balance_above_amount_plus_fee() {
    let mut ledger =
        MultisenderFt::from_entries(vec![], vec![(account("alice.near"), FEE + 1000)]);
    assert_eq!(ledger.deposit(account("alice.near"), 1000), Err(LedgerError::InsufficientExternalFunds));
    assert_eq!(ledger.get_deposit(account("alice.near")), 0);
    assert!(!ledger.has_deposit(&account("alice.near")));
    assert_eq!(ledger.deposit(account("alice.near"), 999), Ok(999));
    assert_eq!(ledger.deposit(account("alice.near"), 1), Ok(1000));
    assert_eq!(ledger.get_deposit(account("alice.near")), 1000);
    assert_eq!(ledger.get_user_balance(account("alice.near")), FEE + 1000);
    assert_eq!(ledger.deposit(account("bob.near"), 0), Err(LedgerError::InsufficientExternalFunds));
}

#[test]
fn deposit_that_cannot_be_represented_is_rejected() {
    let mut ledger = MultisenderFt::from_entries(
        vec![(account("alice.near"), u128::MAX - 5)],
        vec![(account("alice.near"), u128::MAX)],
    );
    assert_eq!(ledger.deposit(account("alice.near"), 6), Err(LedgerError::AmountOverflow));
    assert_eq!(ledger.get_deposit(account("alice.near")), u128::MAX - 5);
    assert_eq!(ledger.deposit(account("alice.near"), 5), Ok(u128::MAX));
    assert_eq!(
        ledger.deposit(account("alice.near"), u128::MAX),
        Err(LedgerError::InsufficientExternalFunds)
    );
    assert_eq!(
        ledger.deposit(account("alice.near"), u128::MAX - FEE),
        Err(LedgerError::InsufficientExternalFunds)
    );
}

#[test]
fn withdraw_all_sends_everything_back_and_empties_the_entry() {
    let mut ledger = MultisenderFt::from_entries(
        vec![(account("alice.near"), FEE + 1), (account("bob.near"), FEE)],
        vec![],
    );
    assert_eq!(
        ledger.withdraw_all(account("alice.near")),
        Ok(Transfer {
            account_id: account("alice.near"),
            recipient: account("alice.near"),
            amount: FEE + 1,
            reconciled: false,
        })
    );
    assert_eq!(ledger.get_deposit(account("alice.near")), 0);
    assert!(ledger.has_deposit(&account("alice.near")));
    assert_eq!(ledger.withdraw_all(account("alice.near")), Err(LedgerError::NothingToWithdraw));
    assert_eq!(ledger.withdraw_all(account("bob.near")), Err(LedgerError::NothingToWithdraw));
    assert_eq!(ledger.get_deposit(account("bob.near")), FEE);
    assert_eq!(ledger.withdraw_all(account("carol.near")), Err(LedgerError::NothingToWithdraw));
    assert!(!ledger.has_deposit(&account("carol.near")));
}

#[test]
fn failed_withdrawal_is_not_given_back() {
    let mut ledger = MultisenderFt::from_entries(vec![(account("alice.near"), 3 * FEE)], vec![]);
    let transfer = ledger.withdraw_all(account("alice.near")).unwrap();
    assert_eq!(ledger.reconcile(&transfer, false), Ok(false));
    assert_eq!(ledger.get_deposit(account("alice.near")), 0);
}

#[test]
fn balance_reply_is_decoded_and_cached() {
    let mut ledger = MultisenderFt::new();
    let ctx = callback_with(vec![reply("\"1000\"")]);
    assert_eq!(ledger.on_ft_balance_of(&ctx, account("alice.near")), Ok(1000));
    assert_eq!(ledger.get_user_balance(account("alice.near")), 1000);
    assert_eq!(ledger.get_deposit(account("alice.near")), 0);
    let ctx = callback_with(vec![reply("\"340282366920938463463374607431768211455\"")]);
    assert_eq!(ledger.on_ft_balance_of(&ctx, account("alice.near")), Ok(u128::MAX));
    assert_eq!(ledger.get_user_balance(account("alice.near")), u128::MAX);
    let ctx = callback_with(vec![reply("\"0\"")]);
    assert_eq!(ledger.on_ft_balance_of(&ctx, account("alice.near")), Ok(0));
    assert_eq!(ledger.get_user_balance(account("alice.near")), 0);
    assert!(ledger.has_user_balance(&account("alice.near")));
}

#[test]
fn balance_reply_that_holds_no_balance_is_rejected() {
    let mut ledger = MultisenderFt::from_entries(vec![], vec![(account("alice.near"), 5)]);
    for text in ["", "1000", "\"\"", "\"12a\"", "\"-1\"", "null", "\"340282366920938463463374607431768211456\"", "{"] {
        let ctx = callback_with(vec![reply(text)]);
        assert_eq!(
            ledger.on_ft_balance_of(&ctx, account("alice.near")),
            Err(LedgerError::MalformedBalance),
            "reply {:?}",
            text
        );
        assert_eq!(ledger.get_user_balance(account("alice.near")), 5);
    }
}

#[test]
fn balance_query_that_did_not_succeed_is_rejected() {
    let mut ledger = MultisenderFt::new();
    let failed = callback_with(vec![PromiseOutcome::Failed]);
    assert_eq!(ledger.on_ft_balance_of(&failed, account("alice.near")), Err(LedgerError::QueryFailed));
    let pending = callback_with(vec![PromiseOutcome::NotReady]);
    assert_eq!(ledger.on_ft_balance_of(&pending, account("alice.near")), Err(LedgerError::QueryFailed));
    let none = callback_with(vec![]);
    assert_eq!(ledger.on_ft_balance_of(&none, account("alice.near")), Err(LedgerError::NotACallback));
    let two = callback_with(vec![reply("\"1\""), reply("\"2\"")]);
    assert_eq!(ledger.on_ft_balance_of(&two, account("alice.near")), Err(LedgerError::NotACallback));
    assert!(!ledger.has_user_balance(&account("alice.near")));
}

#[test]
fn record_balance_stores_a_decoded_balance_only() {
    let mut ledger = MultisenderFt::new();
    assert_eq!(ledger.record_balance(account("alice.near"), None), Err(LedgerError::MalformedBalance));
    assert!(!ledger.has_user_balance(&account("alice.near")));
    assert_eq!(ledger.record_balance(account("alice.near"), Some(9)), Ok(9));
    assert_eq!(ledger.get_user_balance(account("alice.near")), 9);
}

#[test]
fn get_balance_asks_for_the_same_account() {
    let ledger = MultisenderFt::new();
    assert_eq!(
        ledger.get_balance(account("alice.near")),
        BalanceQuery { account_id: account("alice.near"), attached_deposit: 0, gas: 5_000_000_000_000 }
    );
    assert_eq!(ledger.get_user_balance(account("alice.near")), 0);
}

#[test]
fn direct_transfer_is_guarded_by_the_callers_escrow() {
    let ledger = MultisenderFt::from_entries(vec![(account("alice.near"), 500)], vec![]);
    let alice = call_from("alice.near");
    assert_eq!(
        ledger.ft_on_transfer(&call_from("bob.near"), account("x.near"), FEE),
        Err(LedgerError::UnknownAccount)
    );
    assert_eq!(ledger.ft_on_transfer(&alice, account("x.near"), FEE - 1), Err(LedgerError::AmountOverflow));
    assert_eq!(
        ledger.ft_on_transfer(&alice, account("x.near"), FEE + 500),
        Err(LedgerError::InsufficientDeposit)
    );
    assert_eq!(
        ledger.ft_on_transfer(&alice, account("x.near"), FEE + 499),
        Ok(Transfer {
            account_id: account("alice.near"),
            recipient: account("x.near"),
            amount: FEE + 499,
            reconciled: false,
        })
    );
    assert_eq!(ledger.get_deposit(account("alice.near")), 500);
}

#[test]
fn batch_of_an_unknown_account_is_rejected() {
    let mut ledger = MultisenderFt::from_entries(vec![(account("alice.near"), 500)], vec![]);
    let ops = vec![Operation { account_id: account("x.near"), amount: 1 }];
    assert_eq!(
        ledger.multisend_from_balance(&call_from("bob.near"), ops.clone()),
        Err(LedgerError::UnknownAccount)
    );
    assert_eq!(
        ledger.multisend_from_balance_unsafe(&call_from("bob.near"), ops),
        Err(LedgerError::UnknownAccount)
    );
    assert_eq!(
        ledger.multisend_from_balance(&call_from("bob.near"), vec![]),
        Err(LedgerError::UnknownAccount)
    );
    assert_eq!(ledger.get_deposit(account("alice.near")), 500);
    assert!(!ledger.has_deposit(&account("bob.near")));
}

#[test]
fn unknown_account_is_reported_before_an_invalid_recipient() {
    let mut ledger = MultisenderFt::new();
    let ops = vec![Operation { account_id: account("??"), amount: 1 }];
    assert_eq!(
        ledger.multisend_from_balance(&call_from("bob.near"), ops),
        Err(LedgerError::UnknownAccount)
    );
}

#[test]
fn invalid_recipient_is_reported_before_a_shortfall() {
    let mut ledger = MultisenderFt::from_entries(vec![(account("alice.near"), 5)], vec![]);
    let ops = vec![
        Operation { account_id: account("x.near"), amount: 100 },
        Operation { account_id: account("y..near"), amount: 100 },
    ];
    assert_eq!(
        ledger.multisend_from_balance(&call_from("alice.near"), ops),
        Err(LedgerError::InvalidRecipient { index: 1 })
    );
}

#[test]
fn empty_batch_of_a_known_account_dispatches_nothing() {
    let mut ledger = MultisenderFt::from_entries(vec![(account("alice.near"), 0)], vec![]);
    let batch = ledger.multisend_from_balance(&call_from("alice.near"), vec![]).unwrap();
    assert!(batch.transfers.is_empty());
    assert!(!batch.aggregate_logs);
    let batch = ledger.multisend_from_balance_unsafe(&call_from("alice.near"), vec![]).unwrap();
    assert!(batch.transfers.is_empty());
    assert_eq!(ledger.get_deposit(account("alice.near")), 0);
}

#[test]
fn batch_whose_total_cannot_be_represented_is_a_shortfall() {
    let mut ledger = MultisenderFt::from_entries(vec![(account("alice.near"), u128::MAX)], vec![]);
    let ops = vec![
        Operation { account_id: account("x.near"), amount: u128::MAX },
        Operation { account_id: account("y.near"), amount: 1 },
    ];
    assert_eq!(
        ledger.multisend_from_balance(&call_from("alice.near"), ops.clone()),
        Err(LedgerError::InsufficientDeposit)
    );
    assert_eq!(
        ledger.multisend_from_balance_unsafe(&call_from("alice.near"), ops),
        Err(LedgerError::InsufficientDeposit)
    );
    assert_eq!(ledger.get_deposit(account("alice.near")), u128::MAX);
}

#[test]
fn batch_may_spend_the_whole_escrow() {
    let mut ledger = MultisenderFt::from_entries(vec![(account("alice.near"), u128::MAX)], vec![]);
    let ops = vec![
        Operation { account_id: account("x.near"), amount: u128::MAX - 1 },
        Operation { account_id: account("y.near"), amount: 1 },
    ];
    let batch = ledger.multisend_from_balance_unsafe(&call_from("alice.near"), ops).unwrap();
    assert_eq!(batch.transfers.len(), 2);
    assert_eq!(batch.transfers[0].amount, u128::MAX - 1);
    assert_eq!(ledger.get_deposit(account("alice.near")), 0);
}

#[test]
fn logs_are_aggregated_from_a_hundred_instructions_on() {
    let ops = |n: usize| -> Vec<Operation> {
        (0..n).map(|_| Operation { account_id: account("x.near"), amount: 1 }).collect()
    };
    let mut ledger = MultisenderFt::from_entries(vec![(account("alice.near"), 1000)], vec![]);
    let batch = ledger.multisend_from_balance(&call_from("alice.near"), ops(99)).unwrap();
    assert!(!batch.aggregate_logs);
    assert_eq!(batch.transfers.len(), 99);
    let batch = ledger.multisend_from_balance(&call_from("alice.near"), ops(100)).unwrap();
    assert!(batch.aggregate_logs);
    assert_eq!(batch.transfers.len(), 100);
    assert_eq!(ledger.get_deposit(account("alice.near")), 801);
    let batch = ledger.multisend_from_balance_unsafe(&call_from("alice.near"), ops(101)).unwrap();
    assert!(batch.aggregate_logs);
    assert_eq!(ledger.get_deposit(account("alice.near")), 700);
}

#[test]
fn batch_leaves_other_accounts_and_the_cache_alone() {
    let mut ledger = MultisenderFt::from_entries(
        vec![(account("alice.near"), 1000), (account("bob.near"), 77)],
        vec![(account("alice.near"), 5)],
    );
    let ops = vec![Operation { account_id: account("bob.near"), amount: 10 }];
    ledger.multisend_from_balance(&call_from("alice.near"), ops).unwrap();
    assert_eq!(ledger.get_deposit(account("alice.near")), 990);
    assert_eq!(ledger.get_deposit(account("bob.near")), 77);
    assert_eq!(ledger.get_user_balance(account("alice.near")), 5);
}

#[test]
fn callback_outside_of_a_single_promise_is_rejected() {
    let mut ledger = MultisenderFt::from_entries(vec![(account("alice.near"), 1)], vec![]);
    let none = callback_with(vec![]);
    assert_eq!(
        ledger.on_transfer_from_balance(&none, account("alice.near"), 5, account("x.near")),
        Err(LedgerError::NotACallback)
    );
    let two = callback_with(vec![PromiseOutcome::Failed, PromiseOutcome::Failed]);
    assert_eq!(
        ledger.on_transfer_from_balance(&two, account("alice.near"), 5, account("x.near")),
        Err(LedgerError::NotACallback)
    );
    assert_eq!(ledger.get_deposit(account("alice.near")), 1);
}

#[test]
fn pending_promise_counts_as_a_failure_in_reconciliation() {
    let mut ledger = MultisenderFt::from_entries(vec![(account("alice.near"), 1)], vec![]);
    let pending = callback_with(vec![PromiseOutcome::NotReady]);
    assert_eq!(
        ledger.on_transfer_from_balance(&pending, account("alice.near"), 5, account("x.near")),
        Ok(true)
    );
    assert_eq!(ledger.get_deposit(account("alice.near")), 6);
}

#[test]
fn refund_that_cannot_be_represented_is_rejected() {
    let mut ledger = MultisenderFt::from_entries(vec![(account("alice.near"), u128::MAX)], vec![]);
    let failed = callback_with(vec![PromiseOutcome::Failed]);
    assert_eq!(
        ledger.on_transfer_from_balance(&failed, account("alice.near"), 1, account("x.near")),
        Err(LedgerError::AmountOverflow)
    );
    assert_eq!(ledger.get_deposit(account("alice.near")), u128::MAX);
    let transfer = Transfer {
        account_id: account("alice.near"),
        recipient: account("x.near"),
        amount: 1,
        reconciled: true,
    };
    assert_eq!(ledger.reconcile(&transfer, false), Err(LedgerError::AmountOverflow));
    assert_eq!(ledger.reconcile(&transfer, true), Ok(false));
    assert_eq!(ledger.get_deposit(account("alice.near")), u128::MAX);
}

#[test]
fn refund_creates_the_entry_of_an_account_without_one() {
    let mut ledger = MultisenderFt::new();
    let failed = callback_with(vec![PromiseOutcome::Failed]);
    assert_eq!(
        ledger.on_transfer_from_balance(&failed, account("alice.near"), 12, account("x.near")),
        Ok(true)
    );
    assert_eq!(ledger.get_deposit(account("alice.near")), 12);
    assert!(ledger.has_deposit(&account("alice.near")));
    assert!(!ledger.has_deposit(&account("x.near")));
}

#[test]
fn assert_self_compares_caller_and_ledger_account() {
    assert_eq!(assert_self(&callback_with(vec![])), Ok(()));
    assert_eq!(assert_self(&call_from("alice.near")), Err(LedgerError::SelfCallViolation));
}

#[test]
fn is_promise_success_wants_exactly_one_result() {
    assert_eq!(is_promise_success(&callback_with(vec![reply("")])), Ok(true));
    assert_eq!(is_promise_success(&callback_with(vec![PromiseOutcome::Failed])), Ok(false));
    assert_eq!(is_promise_success(&callback_with(vec![PromiseOutcome::NotReady])), Ok(false));
    assert_eq!(is_promise_success(&callback_with(vec![])), Err(LedgerError::NotACallback));
    assert_eq!(
        is_promise_success(&callback_with(vec![reply(""), reply("")])),
        Err(LedgerError::NotACallback)
    );
}
