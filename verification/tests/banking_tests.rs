use sentinel_core::banking::defrag::{
    failed_history_entry, history_entry, merge_summary, plan_defrag, DefragOutcome, DefragStats, HeldToken,
};
use sentinel_core::banking::mint::{plan_mint, MintError, CENTRAL_BANK};
use sentinel_core::audit::forensics::{generate_proof, verify_integrity};
use sentinel_core::banking::transfer::{check_transfer_allowed, confirm_burn, plan_transfer, TransferError};
use sentinel_core::banking::utxo::{select_coins, CoinSelectionError, Token};

fn token(id: u128, owner: u128, value: i64) -> Token {
    Token {
        token_id: id,
        owner_id: owner,
        value,
        status: "ACTIVE".to_string(),
        created_at: chrono::NaiveDateTime::default(),
    }
}

fn wallet(values: &[i64]) -> Vec<Token> {
    values.iter().enumerate().map(|(i, v)| token(i as u128 + 1, 77, *v)).collect()
}

#[test]
fn select_coins_takes_largest_until_target() {
    let w = wallet(&[500, 300, 100]);
    match select_coins(&w, 600) {
        Ok((selected, total)) => {
            assert_eq!(selected.len(), 2);
            assert_eq!(selected[0].token_id, 1);
            assert_eq!(selected[1].token_id, 2);
            assert_eq!(total, 800);
        }
        Err(_) => panic!("selection should succeed"),
    }
}

#[test]
fn select_coins_exact_match_stops_early() {
    let w = wallet(&[500, 300, 100]);
    match select_coins(&w, 500) {
        Ok((selected, total)) => {
            assert_eq!(selected.len(), 1);
            assert_eq!(total, 500);
        }
        Err(_) => panic!("selection should succeed"),
    }
}

#[test]
fn select_coins_prefers_an_exact_match() {
    let w = wallet(&[10, 5]);
    match select_coins(&w, 5) {
        Ok((selected, total)) => {
            assert_eq!(selected.len(), 1);
            assert_eq!(selected[0].token_id, 2);
            assert_eq!(selected[0].value, 5);
            assert_eq!(total, 5);
        }
        Err(_) => panic!("selection should succeed"),
    }
    let w = wallet(&[500, 300, 300, 100]);
    match select_coins(&w, 300) {
        Ok((selected, total)) => {
            assert_eq!(selected.len(), 1);
            assert_eq!(selected[0].token_id, 2);
            assert_eq!(total, 300);
        }
        Err(_) => panic!("selection should succeed"),
    }
}

#[test]
fn transfer_plan_uses_the_exact_token_and_chains_its_proof() {
    let w = wallet(&[500, 300, 100]);
    let prev = "9f86d081884c7d659a2feaa0c55ad015a3bf4f1b2b0b822cd15d6c15b0f00a08";
    match plan_transfer(77, 88, &w, 100, prev, 1_700_000_123) {
        Ok(plan) => {
            assert_eq!(plan.inputs.len(), 1);
            assert_eq!(plan.inputs[0].token_id, 3);
            assert_eq!(plan.total_input, 100);
            assert!(plan.change.is_none());
            assert_eq!(plan.proof, generate_proof(prev, 77, 88, 100, 1_700_000_123));
            assert!(verify_integrity(&plan.proof, prev, 77, 88, 100, 1_700_000_123));
            assert!(!verify_integrity(&plan.proof, "", 77, 88, 100, 1_700_000_123));
            assert!(!verify_integrity(&plan.proof, prev, 77, 88, 101, 1_700_000_123));
        }
        Err(_) => panic!("transfer should be planned"),
    }
}

#[test]
fn select_coins_reports_insufficient_funds() {
    let w = wallet(&[500, 300, 100]);
    match select_coins(&w, 1000) {
        Err(CoinSelectionError::InsufficientFunds { available, required }) => {
            assert_eq!(available, 900);
            assert_eq!(required, 1000);
        }
        Ok(_) => panic!("selection should fail"),
    }
}

#[test]
fn select_coins_empty_wallet() {
    let w: Vec<Token> = Vec::new();
    assert!(matches!(
        select_coins(&w, 1),
        Err(CoinSelectionError::InsufficientFunds { available: 0, required: 1 })
    ));
}

#[test]
fn transfer_plan_pays_and_returns_change() {
    let w = wallet(&[500, 300, 100]);
    match plan_transfer(77, 88, &w, 600, "", 1_700_000_000) {
        Ok(plan) => {
            assert_eq!(plan.inputs.len(), 2);
            assert_eq!(plan.total_input, 800);
            assert_eq!(plan.payment.owner_id, 88);
            assert_eq!(plan.payment.value, 600);
            let change = plan.change.expect("change expected");
            assert_eq!(change.owner_id, 77);
            assert_eq!(change.value, 200);
            // Conservation: what is burnt is what is minted.
            assert_eq!(plan.total_input, plan.payment.value + change.value);
        }
        Err(_) => panic!("transfer should be planned"),
    }
}

#[test]
fn transfer_plan_exact_amount_has_no_change() {
    let w = wallet(&[500, 300, 100]);
    match plan_transfer(77, 88, &w, 800, "", 1_700_000_000) {
        Ok(plan) => {
            assert_eq!(plan.total_input, 800);
            assert!(plan.change.is_none());
        }
        Err(_) => panic!("transfer should be planned"),
    }
}

#[test]
fn transfer_plan_insufficient_funds() {
    let w = wallet(&[50]);
    assert!(matches!(
        plan_transfer(77, 88, &w, 100, "", 1_700_000_000),
        Err(TransferError::InsufficientFunds { available: 50, required: 100 })
    ));
}

#[test]
fn transfer_blocked_by_kill_switch() {
    let off = Some("false".to_string());
    assert!(matches!(check_transfer_allowed(&off, Some(false), Some(false)), Err(TransferError::TransactionsDisabled)));
    // The kill switch is checked before the freeze flags.
    assert!(matches!(check_transfer_allowed(&off, Some(true), Some(true)), Err(TransferError::TransactionsDisabled)));
}

#[test]
fn transfer_blocked_for_frozen_accounts() {
    let on = Some("true".to_string());
    assert!(matches!(check_transfer_allowed(&on, Some(true), Some(false)), Err(TransferError::SenderFrozen)));
    assert!(matches!(check_transfer_allowed(&on, Some(false), Some(true)), Err(TransferError::RecipientFrozen)));
    assert!(matches!(check_transfer_allowed(&on, Some(false), Some(false)), Ok(())));
}

#[test]
fn transfer_gate_fails_open_on_unreadable_settings() {
    assert!(matches!(check_transfer_allowed(&None, None, None), Ok(())));
}

#[test]
fn double_spend_is_detected() {
    assert!(matches!(confirm_burn(0), Err(TransferError::DoubleSpend)));
    assert!(matches!(confirm_burn(1), Ok(())));
}

#[test]
fn mint_respects_kill_switch() {
    match plan_mint(&Some("true".to_string()), 5, 1000, "abc", 1_700_000_000) {
        Ok(plan) => {
            assert_eq!(plan.recipient_id, 5);
            assert_eq!(plan.amount, 1000);
            assert_eq!(plan.proof, generate_proof("abc", CENTRAL_BANK, 5, 1000, 1_700_000_000));
            assert!(verify_integrity(&plan.proof, "abc", 0, 5, 1000, 1_700_000_000));
        }
        Err(_) => panic!("mint should be planned"),
    }
    assert!(matches!(
        plan_mint(&Some("TRUE".to_string()), 5, 1000, "", 0),
        Err(MintError::TransactionsDisabled)
    ));
    assert!(plan_mint(&None, 5, 1000, "", 0).is_ok());
}

fn held(values: &[i64]) -> Vec<HeldToken> {
    values.iter().enumerate().map(|(i, v)| HeldToken { token_id: 100 + i as u128, value: *v }).collect()
}

#[test]
fn defrag_merges_dust_into_one_token() {
    let tokens = held(&[1; 10]);
    match plan_defrag(9, &tokens, "prev", 1_700_000_000) {
        DefragOutcome::Consolidate { stats, burn, mint, proof } => {
            assert_eq!(stats.user_id, 9);
            assert_eq!(stats.old_count, 10);
            assert_eq!(stats.new_count, 1);
            assert_eq!(stats.total_amount, 10);
            assert_eq!(burn, (100..110).collect::<Vec<u128>>());
            assert_eq!(mint, 10);
            assert_eq!(proof, generate_proof("prev", 9, 9, 10, 1_700_000_000));
            let entry = history_entry(&DefragOutcome::Consolidate { stats, burn, mint, proof }, 9, Some(4));
            assert_eq!(entry.old_count, 10);
            assert_eq!(entry.new_count, 1);
            assert_eq!(entry.total_amount, 10);
            assert_eq!(entry.triggered_by, Some(4));
            assert_eq!(entry.status.as_str(), "COMPLETED");
            assert!(entry.error_message.is_none());
        }
        _ => panic!("wallet should be consolidated"),
    }
}

#[test]
fn defrag_preserves_value() {
    for values in [vec![7, 13, 250, 1, 1, 1, 99, 3], vec![4, 3], vec![2000, 777], vec![-5000, 1], vec![0, 0]] {
        let tokens = held(&values);
        match plan_defrag(9, &tokens, "", 0) {
            DefragOutcome::Consolidate { stats, mint, .. } => {
                assert_eq!(mint, values.iter().sum::<i64>());
                assert_eq!(stats.total_amount, mint);
                assert_eq!(stats.old_count, values.len() as i64);
                assert_eq!(stats.new_count, 1);
            }
            _ => panic!("wallet should be consolidated"),
        }
    }
}

#[test]
fn defrag_leaves_small_wallets() {
    match plan_defrag(9, &held(&[42]), "", 0) {
        DefragOutcome::Unchanged(stats) => {
            assert_eq!(stats.old_count, 1);
            assert_eq!(stats.new_count, 1);
            assert_eq!(stats.total_amount, 42);
        }
        _ => panic!("single token wallet is unchanged"),
    }
    match plan_defrag(9, &held(&[]), "", 0) {
        DefragOutcome::Unchanged(stats) => assert_eq!(stats.total_amount, 0),
        _ => panic!("empty wallet is unchanged"),
    }
    let entry = history_entry(&plan_defrag(9, &held(&[42]), "", 0), 9, None);
    assert_eq!((entry.old_count, entry.new_count, entry.total_amount), (1, 1, 42));
    assert_eq!(entry.status.as_str(), "COMPLETED");
}

#[test]
fn defrag_failure_history_is_empty() {
    let entry = failed_history_entry(3, Some(1), "connection reset");
    assert_eq!(entry.user_id, 3);
    assert_eq!((entry.old_count, entry.new_count, entry.total_amount), (0, 0, 0));
    assert_eq!(entry.status.as_str(), "FAILED");
    assert_eq!(entry.error_message.as_deref(), Some("connection reset"));
}

#[test]
fn defrag_summary_message() {
    let stats = DefragStats { user_id: 9, old_count: 10, new_count: 1, total_amount: 10 };
    assert_eq!(merge_summary(&stats), "Success: Merged 10 tokens into 1 standard tokens (value 10)");
    let stats = DefragStats { user_id: 9, old_count: 2, new_count: 1, total_amount: -4999 };
    assert_eq!(merge_summary(&stats), "Success: Merged 2 tokens into 1 standard tokens (value -4999)");
}

#[test]
fn ledger_error_messages() {
    let e = select_coins(&wallet(&[30, 20]), 100).err().unwrap();
    assert_eq!(e.message(), "Insufficient Funds. Available: 50, Required: 100");
    assert_eq!(
        TransferError::InsufficientFunds { available: -5, required: 7 }.message(),
        "Insufficient Funds. Available: -5, Required: 7"
    );
    assert_eq!(TransferError::TransactionsDisabled.message(), "Transactions are currently disabled (Kill Switch active)");
    assert_eq!(TransferError::SenderFrozen.message(), "Your account is frozen. Contact administrator.");
    assert_eq!(TransferError::RecipientFrozen.message(), "Recipient account is frozen");
    assert_eq!(TransferError::DoubleSpend.message(), "Double-Spend Detected: Token already used");
    assert_eq!(MintError::TransactionsDisabled.message(), "Transactions are currently disabled (Kill Switch active)");
}
