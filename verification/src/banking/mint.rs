use vstd::prelude::*;
use crate::database::operations::{transactions_enabled, spec_transactions_enabled};
use crate::audit::forensics::{generate_proof, spec_proof};
use vstd::string::StringSliceAdditionalSpecFns;

verus! {

/// Why minting was refused.
pub enum MintError {
    /// The kill switch has disabled all transactions, minting included.
    TransactionsDisabled,
}

impl MintError {
    /// The refusal as the ledger reports it.
    pub fn message(&self) -> (s: String)
        ensures
            s@ == "Transactions are currently disabled (Kill Switch active)"@,
    {
        match self {
            MintError::TransactionsDisabled => "Transactions are currently disabled (Kill Switch active)".to_string(),
        }
    }
}

/// The issuer that mint entries name as their sender: the nil user, the
/// central bank.
pub const CENTRAL_BANK: u128 = 0;

/// A genesis token: `amount` for `recipient_id`, created from no input, with
/// the audit proof of its MINT entry.
pub struct MintPlan {
    pub recipient_id: u128,
    pub amount: i64,
    /// The audit proof of the MINT entry, chained to the previous transaction.
    pub proof: String,
}

/// Central bank issuance: plans a new token of `amount` for `recipient_id`,
/// recorded at `timestamp` after the transaction whose proof is `prev_hash`,
/// unless the stored `transactions_enabled` setting (`None` when unreadable,
/// which counts as enabled) has the kill switch on. The MINT entry moves the
/// amount from the central bank to the recipient.
pub fn plan_mint(
    setting: &Option<String>,
    recipient_id: u128,
    amount: i64,
    prev_hash: &str,
    timestamp: i64,
) -> (res: Result<MintPlan, MintError>)
    ensures
        spec_transactions_enabled(
            match setting {
                Some(v) => Some(v@),
                None => None,
            },
        ) <==> res is Ok,
        match res {
            Ok(plan) => {
                &&& plan.recipient_id == recipient_id
                &&& plan.amount == amount
                &&& plan.proof@ == spec_proof(prev_hash.spec_bytes(), CENTRAL_BANK, recipient_id, amount, timestamp)
            },
            Err(e) => e == MintError::TransactionsDisabled,
        },
{
    if !transactions_enabled(setting) {
        return Err(MintError::TransactionsDisabled);
    }
    let proof = generate_proof(prev_hash, CENTRAL_BANK, recipient_id, amount, timestamp);
    Ok(MintPlan { recipient_id, amount, proof })
}

} // verus!
