use vstd::prelude::*;
use vstd::string::StringSliceAdditionalSpecFns;
use crate::banking::utxo::{sum_values, prefix_sum, fits_i64, lemma_prefix_sum_step};
use crate::numeral::{signed_decimal, push_signed_decimal};
use crate::security::input::append_str;
use crate::audit::forensics::{generate_proof, spec_proof};

verus! {

/// An active token as defragmentation reads it.
pub struct HeldToken {
    pub token_id: u128,
    pub value: i64,
}

/// The values of held tokens.
pub open spec fn held_values(tokens: Seq<HeldToken>) -> Seq<i64> {
    tokens.map_values(|t: HeldToken| t.value)
}

/// The identifiers of held tokens.
pub open spec fn held_ids(tokens: Seq<HeldToken>) -> Seq<u128> {
    tokens.map_values(|t: HeldToken| t.token_id)
}

/// What one defragmentation did to a wallet.
pub struct DefragStats {
    pub user_id: u128,
    pub old_count: i64,
    pub new_count: i64,
    pub total_amount: i64,
}

/// ALGORITHM C: what defragmentation does with a wallet.
pub enum DefragOutcome {
    /// Fewer than two tokens: nothing to merge.
    Unchanged(DefragStats),
    /// Burn every token of `burn` and mint a single token worth `mint`, the
    /// total they held; `proof` is the audit proof of the DEFRAG entry.
    Consolidate { stats: DefragStats, burn: Vec<u128>, mint: i64, proof: String },
}

/// Every running total of the wallet's values fits in an `i64`.
pub open spec fn wallet_sums_fit(vals: Seq<i64>) -> bool {
    forall|k: int| 1 <= k <= vals.len() ==> fits_i64(#[trigger] prefix_sum(vals, k))
}

proof fn lemma_sum_values_is_prefix(vals: Seq<i64>)
    ensures
        prefix_sum(vals, vals.len() as int) == sum_values(vals),
{
    assert(vals.take(vals.len() as int) =~= vals);
}

/// Plans the defragmentation of the wallet of `user_id`, whose active tokens
/// are `tokens`, recorded at `timestamp` after the transaction whose proof is
/// `prev_hash`.
///
/// A wallet of fewer than two tokens is left unchanged. Otherwise its dust is
/// merged: every token is burnt and a single new token of their total is
/// minted, so no value is lost and the wallet holds one token. The DEFRAG
/// entry moves the total from the user to the user, and its audit proof is
/// chained to the previous transaction.
pub fn plan_defrag(user_id: u128, tokens: &Vec<HeldToken>, prev_hash: &str, timestamp: i64) -> (res: DefragOutcome)
    requires
        tokens.len() <= i64::MAX,
        tokens.len() >= 2 ==> wallet_sums_fit(held_values(tokens@)),
    ensures
        ({
            let n = tokens.len() as int;
            let vals = held_values(tokens@);
            if n < 2 {
                res == DefragOutcome::Unchanged(
                    DefragStats {
                        user_id,
                        old_count: n as i64,
                        new_count: n as i64,
                        total_amount: if n == 1 { vals[0] } else { 0 },
                    },
                )
            } else {
                match res {
                    DefragOutcome::Consolidate { stats, burn, mint, proof } => {
                        &&& stats == DefragStats {
                            user_id,
                            old_count: n as i64,
                            new_count: 1,
                            total_amount: mint,
                        }
                        &&& burn@ == held_ids(tokens@)
                        &&& mint == sum_values(vals)
                        &&& proof@ == spec_proof(prev_hash.spec_bytes(), user_id, user_id, mint, timestamp)
                    },
                    _ => false,
                }
            }
        }),
{
    let n = tokens.len();
    if n < 2 {
        let total = if n == 1 { tokens[0].value } else { 0 };
        return DefragOutcome::Unchanged(
            DefragStats { user_id, old_count: n as i64, new_count: n as i64, total_amount: total },
        );
    }
    let ghost vals = held_values(tokens@);
    let mut total: i64 = 0;
    let mut burn: Vec<u128> = Vec::new();
    let mut i: usize = 0;
    assert(vals.take(0) =~= Seq::<i64>::empty());
    while i < n
        invariant
            n == tokens.len(),
            vals == held_values(tokens@),
            wallet_sums_fit(vals),
            0 <= i <= n,
            total == prefix_sum(vals, i as int),
            burn@ == held_ids(tokens@).take(i as int),
        decreases n - i,
    {
        proof {
            lemma_prefix_sum_step(vals, i as int);
            assert(fits_i64(prefix_sum(vals, i + 1)));
        }
        total = total + tokens[i].value;
        burn.push(tokens[i].token_id);
        i = i + 1;
        assert(burn@ =~= held_ids(tokens@).take(i as int));
    }
    proof {
        lemma_sum_values_is_prefix(vals);
    }
    assert(held_ids(tokens@).take(n as int) =~= held_ids(tokens@));
    let proof = generate_proof(prev_hash, user_id, user_id, total, timestamp);
    DefragOutcome::Consolidate {
        stats: DefragStats { user_id, old_count: n as i64, new_count: 1, total_amount: total },
        burn,
        mint: total,
        proof,
    }
}

/// The status of a defragmentation in the history.
pub enum DefragStatus {
    Completed,
    Failed,
}

impl DefragStatus {
    /// The status as the history stores it.
    pub fn as_str(&self) -> (s: &'static str)
        ensures
            s@ == match self {
                DefragStatus::Completed => "COMPLETED"@,
                DefragStatus::Failed => "FAILED"@,
            },
    {
        match self {
            DefragStatus::Completed => "COMPLETED",
            DefragStatus::Failed => "FAILED",
        }
    }
}

/// The report of a defragmentation of one wallet.
pub open spec fn spec_merge_summary(stats: DefragStats) -> Seq<char> {
    "Success: Merged "@ + signed_decimal(stats.old_count as int) + " tokens into "@ + signed_decimal(
        stats.new_count as int,
    ) + " standard tokens (value "@ + signed_decimal(stats.total_amount as int) + ")"@
}

/// Reports what a defragmentation of one wallet did.
pub fn merge_summary(stats: &DefragStats) -> (s: String)
    ensures
        s@ == spec_merge_summary(*stats),
{
    let mut s = String::new();
    append_str(&mut s, "Success: Merged ");
    push_signed_decimal(&mut s, stats.old_count);
    append_str(&mut s, " tokens into ");
    push_signed_decimal(&mut s, stats.new_count);
    append_str(&mut s, " standard tokens (value ");
    push_signed_decimal(&mut s, stats.total_amount);
    append_str(&mut s, ")");
    s
}

/// A defragmentation record for the audit history.
pub struct DefragHistoryEntry {
    pub user_id: u128,
    pub triggered_by: Option<u128>,
    pub old_count: i32,
    pub new_count: i32,
    pub total_amount: i64,
    pub status: DefragStatus,
    /// Why the defragmentation failed.
    pub error_message: Option<String>,
}

/// The history record of a defragmentation of `user_id`'s wallet, triggered by
/// `triggered_by` (`None` for self-service): every outcome is recorded as
/// completed, a merge as "n into 1", a wallet left as it was with its count
/// unchanged.
pub fn history_entry(outcome: &DefragOutcome, user_id: u128, triggered_by: Option<u128>) -> (entry: DefragHistoryEntry)
    ensures
        entry.user_id == user_id,
        entry.triggered_by == triggered_by,
        entry.status == DefragStatus::Completed,
        entry.error_message is None,
        match outcome {
            DefragOutcome::Unchanged(stats) => {
                &&& entry.old_count == stats.old_count as i32
                &&& entry.new_count == stats.old_count as i32
                &&& entry.total_amount == stats.total_amount
            },
            DefragOutcome::Consolidate { stats, burn, mint, proof } => {
                &&& entry.old_count == stats.old_count as i32
                &&& entry.new_count == stats.new_count as i32
                &&& entry.total_amount == stats.total_amount
            },
        },
{
    match outcome {
        DefragOutcome::Unchanged(stats) => DefragHistoryEntry {
            user_id,
            triggered_by,
            old_count: #[verifier::truncate] (stats.old_count as i32),
            new_count: #[verifier::truncate] (stats.old_count as i32),
            total_amount: stats.total_amount,
            status: DefragStatus::Completed,
            error_message: None,
        },
        DefragOutcome::Consolidate { stats, burn, mint, proof } => DefragHistoryEntry {
            user_id,
            triggered_by,
            old_count: #[verifier::truncate] (stats.old_count as i32),
            new_count: #[verifier::truncate] (stats.new_count as i32),
            total_amount: stats.total_amount,
            status: DefragStatus::Completed,
            error_message: None,
        },
    }
}

/// The history record of a defragmentation that failed with `error`: no
/// counts, no amount.
pub fn failed_history_entry(user_id: u128, triggered_by: Option<u128>, error: &str) -> (entry: DefragHistoryEntry)
    ensures
        entry.user_id == user_id,
        entry.triggered_by == triggered_by,
        entry.old_count == 0,
        entry.new_count == 0,
        entry.total_amount == 0,
        entry.status == DefragStatus::Failed,
        entry.error_message matches Some(m) && m@ == error@,
{
    DefragHistoryEntry {
        user_id,
        triggered_by,
        old_count: 0,
        new_count: 0,
        total_amount: 0,
        status: DefragStatus::Failed,
        error_message: Some(error.to_string()),
    }
}

} // verus!
