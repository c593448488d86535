use vstd::prelude::*;
use crate::banking::utxo::{
    Token, CoinSelectionError, select_coins, token_values, prefix_sum, stops_at,
    selection_sums_fit, sum_values, lemma_sum_concat, insufficient_funds_message, spec_insufficient_funds_message,
    has_exact_match, first_exact_index, first_exact_match, spec_selection,
};
use crate::audit::forensics::{generate_proof, spec_proof};
use vstd::string::StringSliceAdditionalSpecFns;
use crate::database::operations::{transactions_enabled, spec_transactions_enabled};

verus! {

/// Why a transfer was refused.
pub enum TransferError {
    /// The kill switch has disabled all transactions.
    TransactionsDisabled,
    /// The sender's account is frozen.
    SenderFrozen,
    /// The recipient's account is frozen.
    RecipientFrozen,
    /// The sender's active tokens do not cover the amount.
    InsufficientFunds { available: i64, required: i64 },
    /// An input token was no longer active when it was burnt.
    DoubleSpend,
}

impl TransferError {
    /// The refusal as the ledger reports it.
    pub fn message(&self) -> (s: String)
        ensures
            s@ == match self {
                TransferError::TransactionsDisabled => "Transactions are currently disabled (Kill Switch active)"@,
                TransferError::SenderFrozen => "Your account is frozen. Contact administrator."@,
                TransferError::RecipientFrozen => "Recipient account is frozen"@,
                TransferError::InsufficientFunds { available, required } => spec_insufficient_funds_message(
                    *available,
                    *required,
                ),
                TransferError::DoubleSpend => "Double-Spend Detected: Token already used"@,
            },
    {
        match self {
            TransferError::TransactionsDisabled => "Transactions are currently disabled (Kill Switch active)".to_string(),
            TransferError::SenderFrozen => "Your account is frozen. Contact administrator.".to_string(),
            TransferError::RecipientFrozen => "Recipient account is frozen".to_string(),
            TransferError::InsufficientFunds { available, required } => insufficient_funds_message(
                *available,
                *required,
            ),
            TransferError::DoubleSpend => "Double-Spend Detected: Token already used".to_string(),
        }
    }
}

/// A new token to be minted.
pub struct Output {
    pub owner_id: u128,
    pub value: i64,
}

/// ALGORITHM B: the writes of an atomic UTXO swap.
///
/// Burn every input, mint `payment` for the recipient and, when there is any,
/// mint `change` back to the sender.
pub struct TransferPlan {
    pub sender_id: u128,
    pub recipient_id: u128,
    pub inputs: Vec<Token>,
    pub total_input: i64,
    pub payment: Output,
    pub change: Option<Output>,
    /// The audit proof of the transfer, chained to the previous transaction's.
    pub proof: String,
}

/// The value that a plan mints.
pub open spec fn minted_value(plan: TransferPlan) -> int {
    plan.payment.value + match plan.change {
        Some(c) => c.value as int,
        None => 0,
    }
}

/// `plan` is the transfer of `amount` from `sender_id` to `recipient_id` out of
/// the sender's active tokens `wallet` (largest first): it burns the tokens
/// coin selection takes, pays `amount` to the recipient and returns any excess
/// to the sender as change.
pub open spec fn is_transfer_plan(
    wallet: Seq<Token>,
    sender_id: u128,
    recipient_id: u128,
    amount: i64,
    plan: TransferPlan,
) -> bool {
    &&& plan.sender_id == sender_id
    &&& plan.recipient_id == recipient_id
    &&& spec_selection(wallet, amount as int, plan.inputs@, plan.total_input as int)
    &&& plan.payment == Output { owner_id: recipient_id, value: amount }
    &&& plan.change == if plan.total_input - amount > 0 {
        Some(Output { owner_id: sender_id, value: (plan.total_input - amount) as i64 })
    } else {
        None
    }
    &&& minted_value(plan) == plan.total_input
}

/// The sender's tokens that a transfer of `amount` out of `wallet` does not
/// burn: all but the exact match when there is one, else those after the
/// burnt prefix of `burnt` tokens.
pub open spec fn unburnt(wallet: Seq<Token>, amount: int, burnt: int) -> Seq<Token> {
    if has_exact_match(token_values(wallet), amount) {
        wallet.remove(first_exact_index(token_values(wallet), amount))
    } else {
        wallet.skip(burnt)
    }
}

/// The values of the sender's active tokens once `plan` is applied to `wallet`:
/// the tokens it did not burn, then its change.
pub open spec fn sender_values_after(wallet: Seq<Token>, amount: i64, plan: TransferPlan) -> Seq<i64> {
    token_values(unburnt(wallet, amount as int, plan.inputs.len() as int)) + match plan.change {
        Some(c) => seq![c.value],
        None => Seq::empty(),
    }
}

proof fn lemma_sum_single(x: i64)
    ensures
        sum_values(seq![x]) == x,
{
    assert(seq![x].drop_last() =~= Seq::<i64>::empty());
    assert(sum_values(Seq::<i64>::empty()) == 0);
    assert(seq![x].last() == x);
}

/// Law: a transfer never creates or destroys money. Once a planned transfer is
/// applied, the sender's active tokens are worth exactly `amount` less, the
/// recipient holds a new token of exactly `amount`, and so the money held by
/// the two together is unchanged.
pub proof fn lemma_transfer_conserves_value(
    wallet: Seq<Token>,
    sender_id: u128,
    recipient_id: u128,
    amount: i64,
    plan: TransferPlan,
)
    requires
        is_transfer_plan(wallet, sender_id, recipient_id, amount, plan),
    ensures
        sum_values(sender_values_after(wallet, amount, plan)) == sum_values(token_values(wallet)) - amount,
        plan.payment.owner_id == recipient_id,
        plan.payment.value == amount,
        sum_values(sender_values_after(wallet, amount, plan)) + plan.payment.value == sum_values(
            token_values(wallet),
        ),
{
    let vals = token_values(wallet);
    let n = plan.inputs.len() as int;
    let rest = unburnt(wallet, amount as int, n);
    let tail = match plan.change {
        Some(c) => seq![c.value],
        None => Seq::<i64>::empty(),
    };
    lemma_sum_concat(token_values(rest), tail);
    match plan.change {
        Some(c) => {
            lemma_sum_single(c.value);
            assert(tail =~= seq![c.value]);
        },
        None => {
            assert(sum_values(tail) == 0);
        },
    }
    if has_exact_match(vals, amount as int) {
        let k = first_exact_index(vals, amount as int);
        assert(first_exact_match(vals, amount as int, k));
        let front = vals.take(k);
        let back = vals.skip(k + 1);
        assert(vals =~= front + (seq![vals[k]] + back));
        assert(token_values(rest) =~= front + back);
        lemma_sum_concat(front, seq![vals[k]] + back);
        lemma_sum_concat(seq![vals[k]], back);
        lemma_sum_single(vals[k]);
        lemma_sum_concat(front, back);
    } else {
        assert(n <= wallet.len()) by {
            assert(plan.inputs@.len() == wallet.take(n).len());
        }
        assert(vals =~= vals.take(n) + token_values(wallet.skip(n)));
        lemma_sum_concat(vals.take(n), token_values(wallet.skip(n)));
    }
}

/// Checks that a transfer may proceed: first the kill switch, then the
/// sender's freeze flag, then the recipient's.
///
/// `setting` is the stored `transactions_enabled` value and each flag the
/// stored `is_frozen` value; `None` means the lookup failed, which counts as
/// enabled and as not frozen.
pub fn check_transfer_allowed(
    setting: &Option<String>,
    sender_frozen: Option<bool>,
    recipient_frozen: Option<bool>,
) -> (res: Result<(), TransferError>)
    ensures
        !spec_transactions_enabled(
            match setting {
                Some(v) => Some(v@),
                None => None,
            },
        ) ==> res == Err::<(), TransferError>(TransferError::TransactionsDisabled),
        spec_transactions_enabled(
            match setting {
                Some(v) => Some(v@),
                None => None,
            },
        ) ==> res == if sender_frozen == Some(true) {
            Err::<(), TransferError>(TransferError::SenderFrozen)
        } else if recipient_frozen == Some(true) {
            Err::<(), TransferError>(TransferError::RecipientFrozen)
        } else {
            Ok::<(), TransferError>(())
        },
{
    if !transactions_enabled(setting) {
        return Err(TransferError::TransactionsDisabled);
    }
    if sender_frozen.unwrap_or(false) {
        return Err(TransferError::SenderFrozen);
    }
    if recipient_frozen.unwrap_or(false) {
        return Err(TransferError::RecipientFrozen);
    }
    Ok(())
}

/// Plans a transfer of `amount` from `sender_id` to `recipient_id`, whose
/// active tokens, largest first, are `sender_tokens`, recorded at `timestamp`
/// after the transaction whose proof is `prev_hash`.
///
/// The inputs are the coin selection for `amount`; the recipient gets a token
/// of `amount`; whatever the inputs hold beyond it comes back to the sender as
/// change. No value is created or destroyed: the plan mints exactly what it
/// burns. The plan carries the audit proof of the transfer, which chains it to
/// the previous transaction.
pub fn plan_transfer(
    sender_id: u128,
    recipient_id: u128,
    sender_tokens: &Vec<Token>,
    amount: i64,
    prev_hash: &str,
    timestamp: i64,
) -> (res: Result<TransferPlan, TransferError>)
    requires
        !has_exact_match(token_values(sender_tokens@), amount as int) ==> selection_sums_fit(
            token_values(sender_tokens@),
            amount as int,
        ),
        forall|k: int|
            #[trigger] stops_at(token_values(sender_tokens@), amount as int, k) && prefix_sum(
                token_values(sender_tokens@),
                k,
            ) >= amount ==> prefix_sum(token_values(sender_tokens@), k) - amount <= i64::MAX,
    ensures
        match res {
            Ok(plan) => {
                &&& is_transfer_plan(sender_tokens@, sender_id, recipient_id, amount, plan)
                &&& plan.proof@ == spec_proof(prev_hash.spec_bytes(), sender_id, recipient_id, amount, timestamp)
            },
            Err(TransferError::InsufficientFunds { available, required }) => {
                &&& !has_exact_match(token_values(sender_tokens@), amount as int)
                &&& required == amount
                &&& stops_at(
                    token_values(sender_tokens@),
                    amount as int,
                    sender_tokens.len() as int,
                )
                &&& available == prefix_sum(token_values(sender_tokens@), sender_tokens.len() as int)
                &&& available < amount
            },
            Err(_) => false,
        },
{
    match select_coins(sender_tokens, amount) {
        Err(CoinSelectionError::InsufficientFunds { available, required }) => {
            Err(TransferError::InsufficientFunds { available, required })
        },
        Ok((inputs, total_input)) => {
            let change_value = total_input - amount;
            let change = if change_value > 0 {
                Some(Output { owner_id: sender_id, value: change_value })
            } else {
                None
            };
            let proof = generate_proof(prev_hash, sender_id, recipient_id, amount, timestamp);
            Ok(
                TransferPlan {
                    sender_id,
                    recipient_id,
                    inputs,
                    total_input,
                    payment: Output { owner_id: recipient_id, value: amount },
                    change,
                    proof,
                },
            )
        },
    }
}

/// Double-spend protection: burning an input must update exactly the row that
/// was still active; an update that touched no row means the token was spent
/// in the meantime.
pub fn confirm_burn(rows_affected: u64) -> (res: Result<(), TransferError>)
    ensures
        res == if rows_affected == 0 {
            Err::<(), TransferError>(TransferError::DoubleSpend)
        } else {
            Ok::<(), TransferError>(())
        },
{
    if rows_affected == 0 {
        Err(TransferError::DoubleSpend)
    } else {
        Ok(())
    }
}

} // verus!
