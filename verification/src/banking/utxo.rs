use vstd::prelude::*;
use chrono::NaiveDateTime;
use crate::numeral::{signed_decimal, push_signed_decimal};
use crate::security::input::append_str;

verus! {

/// The ledger's timestamp type, carried through unread.
#[verifier::external_type_specification]
#[verifier::external_body]
pub struct ExNaiveDateTime(NaiveDateTime);

/// A discrete digital token (an unspent transaction output).
///
/// Identifiers are the 128-bit values of the ledger's UUIDs.
pub struct Token {
    pub token_id: u128,
    pub owner_id: u128,
    pub value: i64,
    /// 'ACTIVE', 'SPENT', 'CONSOLIDATED'
    pub status: String,
    pub created_at: NaiveDateTime,
}

impl Token {
    /// An exact copy of this token.
    pub fn duplicate(&self) -> (r: Token)
        ensures
            r == *self,
    {
        Token {
            token_id: self.token_id,
            owner_id: self.owner_id,
            value: self.value,
            status: self.status.clone(),
            created_at: self.created_at,
        }
    }
}

/// Why coin selection failed.
pub enum CoinSelectionError {
    /// The whole wallet (`available`) does not cover the `required` amount.
    InsufficientFunds { available: i64, required: i64 },
}

/// The report of a wallet worth `available` that does not cover `required`.
pub open spec fn spec_insufficient_funds_message(available: i64, required: i64) -> Seq<char> {
    "Insufficient Funds. Available: "@ + signed_decimal(available as int) + ", Required: "@ + signed_decimal(
        required as int,
    )
}

/// Reports a wallet worth `available` that does not cover `required`.
pub fn insufficient_funds_message(available: i64, required: i64) -> (s: String)
    ensures
        s@ == spec_insufficient_funds_message(available, required),
{
    let mut s = String::new();
    append_str(&mut s, "Insufficient Funds. Available: ");
    push_signed_decimal(&mut s, available);
    append_str(&mut s, ", Required: ");
    push_signed_decimal(&mut s, required);
    s
}

impl CoinSelectionError {
    /// The error as the ledger reports it.
    pub fn message(&self) -> (s: String)
        ensures
            match self {
                CoinSelectionError::InsufficientFunds { available, required } => s@
                    == spec_insufficient_funds_message(*available, *required),
            },
    {
        match self {
            CoinSelectionError::InsufficientFunds { available, required } => insufficient_funds_message(
                *available,
                *required,
            ),
        }
    }
}

/// The values of a sequence of tokens.
pub open spec fn token_values(tokens: Seq<Token>) -> Seq<i64> {
    tokens.map_values(|t: Token| t.value)
}

/// The sum of a sequence of values.
pub open spec fn sum_values(vals: Seq<i64>) -> int
    decreases vals.len(),
{
    if vals.len() == 0 {
        0
    } else {
        sum_values(vals.drop_last()) + vals.last()
    }
}

/// The sum of the first `k` values.
pub open spec fn prefix_sum(vals: Seq<i64>, k: int) -> int {
    sum_values(vals.take(k))
}

/// An integer that an `i64` can hold.
pub open spec fn fits_i64(x: int) -> bool {
    i64::MIN <= x <= i64::MAX
}

/// Greedy selection examines the first `k` tokens: all earlier running totals
/// stayed below the target.
pub open spec fn examined(vals: Seq<i64>, target: int, k: int) -> bool {
    &&& 1 <= k <= vals.len()
    &&& forall|j: int| 1 <= j < k ==> #[trigger] prefix_sum(vals, j) < target
}

/// Greedy selection stops after the first `k` tokens.
pub open spec fn stops_at(vals: Seq<i64>, target: int, k: int) -> bool {
    ||| (k == 0 && vals.len() == 0)
    ||| (examined(vals, target, k) && (prefix_sum(vals, k) >= target || k == vals.len()))
}

/// Every running total that greedy selection computes fits in an `i64`.
pub open spec fn selection_sums_fit(vals: Seq<i64>, target: int) -> bool {
    forall|k: int| #[trigger] examined(vals, target, k) ==> fits_i64(prefix_sum(vals, k))
}

pub proof fn lemma_prefix_sum_step(vals: Seq<i64>, k: int)
    requires
        0 <= k < vals.len(),
    ensures
        prefix_sum(vals, k + 1) == prefix_sum(vals, k) + vals[k],
{
    assert(vals.take(k + 1).drop_last() =~= vals.take(k));
}

/// The sum of two sequences joined is the sum of their sums.
pub proof fn lemma_sum_concat(a: Seq<i64>, b: Seq<i64>)
    ensures
        sum_values(a + b) == sum_values(a) + sum_values(b),
    decreases b.len(),
{
    if b.len() == 0 {
        assert(a + b =~= a);
    } else {
        assert((a + b).drop_last() =~= a + b.drop_last());
        lemma_sum_concat(a, b.drop_last());
    }
}

/// `k` is the first of `vals` that is exactly `target`.
pub open spec fn first_exact_match(vals: Seq<i64>, target: int, k: int) -> bool {
    &&& 0 <= k < vals.len()
    &&& vals[k] == target
    &&& forall|j: int| 0 <= j < k ==> vals[j] != target
}

/// Some token is worth exactly `target`.
pub open spec fn has_exact_match(vals: Seq<i64>, target: int) -> bool {
    exists|k: int| first_exact_match(vals, target, k)
}

/// The position of the first token worth exactly `target`.
pub open spec fn first_exact_index(vals: Seq<i64>, target: int) -> int {
    choose|k: int| first_exact_match(vals, target, k)
}

/// What coin selection takes from `available` (largest first) for `target`,
/// when it succeeds: the first token worth exactly `target` when there is one,
/// else the shortest prefix whose total reaches it.
pub open spec fn spec_selection(available: Seq<Token>, target: int, selected: Seq<Token>, total: int) -> bool {
    let vals = token_values(available);
    if has_exact_match(vals, target) {
        &&& selected == seq![available[first_exact_index(vals, target)]]
        &&& total == target
    } else {
        &&& selected == available.take(selected.len() as int)
        &&& stops_at(vals, target, selected.len() as int)
        &&& total == prefix_sum(vals, selected.len() as int)
        &&& total >= target
    }
}

/// ALGORITHM A: coin selection.
///
/// `available` is the owner's active tokens, largest first. An exact match is
/// preferred: the first token worth exactly `target_amount` is taken alone.
/// Otherwise tokens are taken in order until their running total reaches
/// `target_amount`. The result is the taken tokens and their total, or
/// `InsufficientFunds` when the whole wallet falls short.
pub fn select_coins(available: &Vec<Token>, target_amount: i64) -> (res: Result<(Vec<Token>, i64), CoinSelectionError>)
    requires
        !has_exact_match(token_values(available@), target_amount as int) ==> selection_sums_fit(
            token_values(available@),
            target_amount as int,
        ),
    ensures
        match res {
            Ok((selected, total)) => spec_selection(available@, target_amount as int, selected@, total as int),
            Err(CoinSelectionError::InsufficientFunds { available: have, required }) => {
                &&& !has_exact_match(token_values(available@), target_amount as int)
                &&& required == target_amount
                &&& stops_at(token_values(available@), target_amount as int, available.len() as int)
                &&& have == prefix_sum(token_values(available@), available.len() as int)
                &&& have < target_amount
            },
        },
{
    let ghost vals = token_values(available@);
    let mut k: usize = 0;
    while k < available.len()
        invariant
            vals == token_values(available@),
            0 <= k <= available.len(),
            forall|j: int| 0 <= j < k ==> vals[j] != target_amount,
        decreases available.len() - k,
    {
        if available[k].value == target_amount {
            let mut selected: Vec<Token> = Vec::new();
            selected.push(available[k].duplicate());
            proof {
                assert(first_exact_match(vals, target_amount as int, k as int));
                let c = first_exact_index(vals, target_amount as int);
                assert(first_exact_match(vals, target_amount as int, c));
                assert(c == k);
                assert(selected@ =~= seq![available@[k as int]]);
            }
            return Ok((selected, target_amount));
        }
        k = k + 1;
    }
    assert(!has_exact_match(vals, target_amount as int));
    greedy_coins(available, target_amount)
}

/// Greedy selection: tokens are taken in order until their running total
/// reaches `target_amount`.
fn greedy_coins(available: &Vec<Token>, target_amount: i64) -> (res: Result<(Vec<Token>, i64), CoinSelectionError>)
    requires
        selection_sums_fit(token_values(available@), target_amount as int),
    ensures
        match res {
            Ok((selected, total)) => {
                &&& selected@ == available@.take(selected.len() as int)
                &&& stops_at(token_values(available@), target_amount as int, selected.len() as int)
                &&& total == prefix_sum(token_values(available@), selected.len() as int)
                &&& total >= target_amount
            },
            Err(CoinSelectionError::InsufficientFunds { available: have, required }) => {
                &&& required == target_amount
                &&& stops_at(token_values(available@), target_amount as int, available.len() as int)
                &&& have == prefix_sum(token_values(available@), available.len() as int)
                &&& have < target_amount
            },
        },
{
    let ghost vals = token_values(available@);
    let mut selected: Vec<Token> = Vec::new();
    let mut current_sum: i64 = 0;
    let mut i: usize = 0;
    assert(vals.take(0) =~= Seq::<i64>::empty());
    while i < available.len()
        invariant_except_break
            forall|j: int| 1 <= j <= i ==> #[trigger] prefix_sum(vals, j) < target_amount,
        invariant
            vals == token_values(available@),
            selection_sums_fit(vals, target_amount as int),
            0 <= i <= available.len(),
            selected@ == available@.take(i as int),
            current_sum == prefix_sum(vals, i as int),
        ensures
            selected@ == available@.take(selected.len() as int),
            stops_at(vals, target_amount as int, selected.len() as int),
            current_sum == prefix_sum(vals, selected.len() as int),
            current_sum < target_amount ==> selected.len() == available.len(),
        decreases available.len() - i,
    {
        let token = &available[i];
        selected.push(token.duplicate());
        proof {
            lemma_prefix_sum_step(vals, i as int);
            assert(examined(vals, target_amount as int, i + 1));
        }
        current_sum = current_sum + token.value;
        i = i + 1;
        assert(selected@ =~= available@.take(i as int));
        if current_sum >= target_amount {
            assert(stops_at(vals, target_amount as int, i as int));
            break;
        }
    }
    if current_sum < target_amount {
        return Err(CoinSelectionError::InsufficientFunds { available: current_sum, required: target_amount });
    }
    Ok((selected, current_sum))
}

} // verus!
