use vstd::prelude::*;
use crate::middleware::auth::UserRole;
use crate::api::{ApiError, api_error};
use crate::api::handlers::wallet::RecipientRef;
use crate::database::operations::{transactions_enabled, spec_transactions_enabled, spec_user_is_active};
use crate::numeral::{decimal, signed_decimal, push_decimal, push_signed_decimal};
use crate::security::input::append_str;

verus! {

/// Admin gate. Access control is bypassed: every role is admitted.
pub fn require_admin(_role: &UserRole) -> (res: Result<(), u16>)
    ensures
        res == Ok::<(), u16>(()),
{
    Ok(())
}

/// A request to turn transactions on or off.
pub struct KillSwitchRequest {
    /// `true` enables transactions, `false` disables them.
    pub enabled: bool,
}

/// A central bank order to mint `amount` for a recipient given by id or by
/// username.
pub struct MintRequest {
    pub recipient_id: Option<u128>,
    pub recipient_username: Option<String>,
    pub amount: i64,
}

/// The answer to a mint request before the recipient is looked up: the
/// amount must be positive, transactions must be enabled, and a recipient
/// must be given.
pub open spec fn spec_mint_check(amount: i64, enabled: bool, has_id: bool, has_username: bool) -> Option<(u16, Seq<char>)> {
    if amount <= 0 {
        Some((400u16, "Amount must be positive"@))
    } else if !enabled {
        Some((403u16, "Transactions are disabled (Kill Switch active)"@))
    } else if !has_id && !has_username {
        Some((400u16, "Provide recipient_id or recipient_username"@))
    } else {
        None
    }
}

/// Checks a mint request against the stored `transactions_enabled` setting
/// (`None` when unreadable) and says whom to pay: the recipient id when one is
/// given, else the username to look up.
pub fn check_mint_request(req: &MintRequest, setting: &Option<String>) -> (res: Result<RecipientRef, ApiError>)
    ensures
        ({
            let enabled = spec_transactions_enabled(
                match setting {
                    Some(v) => Some(v@),
                    None => None,
                },
            );
            match res {
                Ok(r) => {
                    &&& spec_mint_check(
                        req.amount,
                        enabled,
                        req.recipient_id is Some,
                        req.recipient_username is Some,
                    ) is None
                    &&& match req.recipient_id {
                        Some(id) => r == RecipientRef::Id(id),
                        None => r matches RecipientRef::Username(name) && Some(name) == req.recipient_username,
                    }
                },
                Err(e) => spec_mint_check(
                    req.amount,
                    enabled,
                    req.recipient_id is Some,
                    req.recipient_username is Some,
                ) == Some((e.status, e.message@)),
            }
        }),
        res is Ok ==> req.amount > 0,
        req.amount <= 0 ==> (res matches Err(e) && e.status == 400 && e.message@ == "Amount must be positive"@),
{
    if req.amount <= 0 {
        return Err(api_error(400, "Amount must be positive"));
    }
    if !transactions_enabled(setting) {
        return Err(api_error(403, "Transactions are disabled (Kill Switch active)"));
    }
    match req.recipient_id {
        Some(id) => Ok(RecipientRef::Id(id)),
        None => match &req.recipient_username {
            Some(name) => Ok(RecipientRef::Username(name.clone())),
            None => Err(api_error(400, "Provide recipient_id or recipient_username")),
        },
    }
}

/// An order to freeze (`freeze`) or unfreeze a user's wallet.
pub struct FreezeRequest {
    pub user_id: u128,
    pub freeze: bool,
    pub reason: Option<String>,
}

/// The reason recorded for a freeze order.
pub fn freeze_reason(reason: &Option<String>) -> (r: String)
    ensures
        r@ == match reason {
            Some(text) => text@,
            None => "No reason provided"@,
        },
{
    match reason {
        Some(text) => text.clone(),
        None => "No reason provided".to_string(),
    }
}

/// The account status a freeze order sets.
pub open spec fn spec_freeze_status(freeze: bool) -> Seq<char> {
    if freeze {
        "FROZEN"@
    } else {
        "ACTIVE"@
    }
}

/// The account status a freeze order sets: "FROZEN" or "ACTIVE".
pub fn freeze_status(freeze: bool) -> (s: String)
    ensures
        s@ == spec_freeze_status(freeze),
{
    if freeze {
        "FROZEN".to_string()
    } else {
        "ACTIVE".to_string()
    }
}

/// The confirmation of a freeze order.
pub fn freeze_message(freeze: bool) -> (s: &'static str)
    ensures
        s@ == if freeze {
            "User Wallet Frozen"@
        } else {
            "User Wallet Unfrozen"@
        },
{
    if freeze {
        "User Wallet Frozen"
    } else {
        "User Wallet Unfrozen"
    }
}

/// Law: a frozen wallet cannot act and an unfrozen one can. After a freeze
/// order the account is not active; after an unfreeze order it is.
pub proof fn lemma_freeze_controls_activity(freeze: bool)
    ensures
        spec_user_is_active(spec_freeze_status(freeze), freeze) == !freeze,
{
    reveal_strlit("FROZEN");
    reveal_strlit("ACTIVE");
    if freeze {
        assert(spec_freeze_status(freeze)[0] != "ACTIVE"@[0]);
    }
}

/// The confirmation of a kill-switch order.
pub fn kill_switch_message(enabled: bool) -> (s: &'static str)
    ensures
        s@ == if enabled {
            "Transactions enabled"@
        } else {
            "Transactions DISABLED"@
        },
{
    if enabled {
        "Transactions enabled"
    } else {
        "Transactions DISABLED"
    }
}

/// The verdict of one diagnostic check.
#[derive(Clone, Copy, PartialEq, Eq, Structural)]
pub enum CheckStatus {
    Pass,
    Warning,
    Fail,
}

impl CheckStatus {
    /// The verdict as the report shows it.
    pub fn as_str(&self) -> (s: &'static str)
        ensures
            s@ == match self {
                CheckStatus::Pass => "PASS"@,
                CheckStatus::Warning => "WARNING"@,
                CheckStatus::Fail => "FAIL"@,
            },
    {
        match self {
            CheckStatus::Pass => "PASS",
            CheckStatus::Warning => "WARNING",
            CheckStatus::Fail => "FAIL",
        }
    }
}

/// The overall health of the system.
#[derive(PartialEq, Eq, Structural)]
pub enum OverallStatus {
    Healthy,
    Warning,
    Critical,
}

impl OverallStatus {
    /// The overall status as the report shows it.
    pub fn as_str(&self) -> (s: &'static str)
        ensures
            s@ == match self {
                OverallStatus::Healthy => "HEALTHY"@,
                OverallStatus::Warning => "WARNING"@,
                OverallStatus::Critical => "CRITICAL"@,
            },
    {
        match self {
            OverallStatus::Healthy => "HEALTHY",
            OverallStatus::Warning => "WARNING",
            OverallStatus::Critical => "CRITICAL",
        }
    }
}

/// What the diagnostics read from the system; a count that could not be read is -1.
pub struct DiagnosticReadings {
    pub db_ok: bool,
    pub user_count: i64,
    pub admin_count: i64,
    pub frozen_count: i64,
    pub active_tokens: i64,
    pub spent_tokens: i64,
    pub total_supply: i64,
    pub tx_count: i64,
    pub defrag_count: i64,
    /// The `transactions_enabled` setting, or the text of the error that kept
    /// it from being read.
    pub kill_switch: Result<String, String>,
    pub orphan_tokens: i64,
    pub pool_size: u32,
    pub idle_connections: usize,
}

/// Pass when `ok`, else fail.
pub open spec fn pass_if(ok: bool) -> CheckStatus {
    if ok {
        CheckStatus::Pass
    } else {
        CheckStatus::Fail
    }
}

/// The verdicts of the nine checks, in report order: database connectivity,
/// users table, admin user exists, tokens table, transactions table, defrag
/// history table, kill switch, orphan tokens, connection pool.
pub open spec fn spec_check_statuses(r: DiagnosticReadings) -> Seq<CheckStatus> {
    seq![
        pass_if(r.db_ok),
        pass_if(r.user_count >= 0),
        pass_if(r.admin_count > 0),
        pass_if(r.active_tokens >= 0),
        pass_if(r.tx_count >= 0),
        pass_if(r.defrag_count >= 0),
        match r.kill_switch {
            Ok(v) => if v@ == "true"@ {
                CheckStatus::Pass
            } else {
                CheckStatus::Warning
            },
            Err(_) => CheckStatus::Fail,
        },
        if r.orphan_tokens == 0 {
            CheckStatus::Pass
        } else if r.orphan_tokens > 0 {
            CheckStatus::Warning
        } else {
            CheckStatus::Fail
        },
        pass_if(r.pool_size > 0),
    ]
}

fn pass_when(ok: bool) -> (s: CheckStatus)
    ensures
        s == pass_if(ok),
{
    if ok {
        CheckStatus::Pass
    } else {
        CheckStatus::Fail
    }
}

/// The verdict of every diagnostic check, from the readings.
pub fn check_statuses(r: &DiagnosticReadings) -> (checks: Vec<CheckStatus>)
    ensures
        checks@ == spec_check_statuses(*r),
{
    let mut checks: Vec<CheckStatus> = Vec::new();
    checks.push(pass_when(r.db_ok));
    checks.push(pass_when(r.user_count >= 0));
    checks.push(pass_when(r.admin_count > 0));
    checks.push(pass_when(r.active_tokens >= 0));
    checks.push(pass_when(r.tx_count >= 0));
    checks.push(pass_when(r.defrag_count >= 0));
    let kill = match &r.kill_switch {
        Ok(v) => if *v == "true".to_string() {
            CheckStatus::Pass
        } else {
            CheckStatus::Warning
        },
        Err(_) => CheckStatus::Fail,
    };
    checks.push(kill);
    let orphans = if r.orphan_tokens == 0 {
        CheckStatus::Pass
    } else if r.orphan_tokens > 0 {
        CheckStatus::Warning
    } else {
        CheckStatus::Fail
    };
    checks.push(orphans);
    checks.push(pass_when(r.pool_size > 0));
    assert(checks@ =~= spec_check_statuses(*r));
    checks
}

/// The names of the nine checks, in report order.
pub open spec fn check_name(i: int) -> Seq<char> {
    if i == 0 {
        "Database Connectivity"@
    } else if i == 1 {
        "Users Table"@
    } else if i == 2 {
        "Admin User Exists"@
    } else if i == 3 {
        "Tokens Table (UTXO Ledger)"@
    } else if i == 4 {
        "Transactions Table"@
    } else if i == 5 {
        "Defrag History Table"@
    } else if i == 6 {
        "System Config (Kill Switch)"@
    } else if i == 7 {
        "Data Integrity (Orphan Tokens)"@
    } else {
        "Connection Pool Health"@
    }
}

/// The details of the nine checks, in report order.
pub open spec fn check_detail(r: DiagnosticReadings, i: int) -> Seq<char> {
    if i == 0 {
        if r.db_ok {
            "PostgreSQL connection is healthy"@
        } else {
            "Connection failed"@
        }
    } else if i == 1 {
        "Total: "@ + signed_decimal(r.user_count as int) + ", Admins: "@ + signed_decimal(r.admin_count as int)
            + ", Frozen: "@ + signed_decimal(r.frozen_count as int)
    } else if i == 2 {
        if r.admin_count > 0 {
            signed_decimal(r.admin_count as int) + " admin user(s) found"@
        } else {
            "WARNING: No admin users in database! Seed data may not be loaded."@
        }
    } else if i == 3 {
        "Active UTXOs: "@ + signed_decimal(r.active_tokens as int) + ", Spent UTXOs: "@ + signed_decimal(
            r.spent_tokens as int,
        ) + ", Total Supply: \u{20b9}"@ + signed_decimal(r.total_supply as int)
    } else if i == 4 {
        "Total transaction records: "@ + signed_decimal(r.tx_count as int)
    } else if i == 5 {
        "Total defrag records: "@ + signed_decimal(r.defrag_count as int)
    } else if i == 6 {
        match r.kill_switch {
            Ok(v) => "transactions_enabled = '"@ + v@ + "'"@ + if v@ == "true"@ {
                Seq::<char>::empty()
            } else {
                " \u{26a0}\u{fe0f} TRANSACTIONS ARE DISABLED!"@
            },
            Err(e) => "Could not read system_config: "@ + e@,
        }
    } else if i == 7 {
        if r.orphan_tokens == 0 {
            "No orphan tokens found (all tokens have valid owners)"@
        } else {
            "\u{26a0}\u{fe0f} "@ + signed_decimal(r.orphan_tokens as int) + " tokens reference non-existent users!"@
        }
    } else {
        "Pool size: "@ + decimal(r.pool_size as nat) + ", Idle connections: "@ + decimal(r.idle_connections as nat)
    }
}

/// The row count that a check reports, for the checks of a table.
pub open spec fn check_row_count(r: DiagnosticReadings, i: int) -> Option<i64> {
    if i == 1 {
        Some(r.user_count)
    } else if i == 3 {
        Some((r.active_tokens + r.spent_tokens) as i64)
    } else if i == 4 {
        Some(r.tx_count)
    } else if i == 5 {
        Some(r.defrag_count)
    } else {
        None
    }
}

/// One line of the diagnostics report.
pub struct DiagnosticCheck {
    pub name: String,
    pub status: CheckStatus,
    pub details: String,
    /// The rows of the table the check looked at, for the checks of a table.
    pub row_count: Option<i64>,
}

/// `a` then the numeral of `n`, then `b`.
fn numeral_between(a: &str, n: i64, b: &str) -> (s: String)
    ensures
        s@ == a@ + signed_decimal(n as int) + b@,
{
    let mut s = String::new();
    append_str(&mut s, a);
    push_signed_decimal(&mut s, n);
    append_str(&mut s, b);
    s
}

fn make_check(name: &str, status: CheckStatus, details: String, row_count: Option<i64>) -> (c: DiagnosticCheck)
    ensures
        c.name@ == name@,
        c.status == status,
        c.details == details,
        c.row_count == row_count,
{
    DiagnosticCheck { name: name.to_string(), status, details, row_count }
}

/// The diagnostics report, from the readings: each check's name, verdict,
/// details and, for the checks of a table, its row count.
pub fn diagnostic_checks(r: &DiagnosticReadings) -> (checks: Vec<DiagnosticCheck>)
    requires
        r.active_tokens + r.spent_tokens <= i64::MAX,
        r.active_tokens + r.spent_tokens >= i64::MIN,
    ensures
        checks.len() == 9,
        forall|i: int|
            0 <= i < 9 ==> {
                &&& #[trigger] checks[i].name@ == check_name(i)
                &&& checks[i].status == spec_check_statuses(*r)[i]
                &&& checks[i].details@ == check_detail(*r, i)
                &&& checks[i].row_count == check_row_count(*r, i)
            },
{
    let statuses = check_statuses(r);
    let mut checks: Vec<DiagnosticCheck> = Vec::new();

    let details = if r.db_ok {
        "PostgreSQL connection is healthy".to_string()
    } else {
        "Connection failed".to_string()
    };
    checks.push(make_check("Database Connectivity", statuses[0], details, None));
    assert(checks@[0].details@ == check_detail(*r, 0));

    let mut details = numeral_between("Total: ", r.user_count, ", Admins: ");
    push_signed_decimal(&mut details, r.admin_count);
    append_str(&mut details, ", Frozen: ");
    push_signed_decimal(&mut details, r.frozen_count);
    assert(details@ =~= check_detail(*r, 1));
    checks.push(make_check("Users Table", statuses[1], details, Some(r.user_count)));

    let details = if r.admin_count > 0 {
        numeral_between("", r.admin_count, " admin user(s) found")
    } else {
        "WARNING: No admin users in database! Seed data may not be loaded.".to_string()
    };
    proof {
        if r.admin_count > 0 {
            reveal_strlit("");
            assert(details@ =~= check_detail(*r, 2));
        }
    }
    checks.push(make_check("Admin User Exists", statuses[2], details, None));

    let mut details = numeral_between("Active UTXOs: ", r.active_tokens, ", Spent UTXOs: ");
    push_signed_decimal(&mut details, r.spent_tokens);
    append_str(&mut details, ", Total Supply: \u{20b9}");
    push_signed_decimal(&mut details, r.total_supply);
    assert(details@ =~= check_detail(*r, 3));
    checks.push(
        make_check("Tokens Table (UTXO Ledger)", statuses[3], details, Some(r.active_tokens + r.spent_tokens)),
    );

    let details = numeral_between("Total transaction records: ", r.tx_count, "");
    proof {
        reveal_strlit("");
        assert(details@ =~= check_detail(*r, 4));
    }
    checks.push(make_check("Transactions Table", statuses[4], details, Some(r.tx_count)));

    let details = numeral_between("Total defrag records: ", r.defrag_count, "");
    proof {
        reveal_strlit("");
        assert(details@ =~= check_detail(*r, 5));
    }
    checks.push(make_check("Defrag History Table", statuses[5], details, Some(r.defrag_count)));

    let mut details = String::new();
    match &r.kill_switch {
        Ok(v) => {
            append_str(&mut details, "transactions_enabled = '");
            append_str(&mut details, v.as_str());
            append_str(&mut details, "'");
            if *v != "true".to_string() {
                append_str(&mut details, " \u{26a0}\u{fe0f} TRANSACTIONS ARE DISABLED!");
            }
        },
        Err(e) => {
            append_str(&mut details, "Could not read system_config: ");
            append_str(&mut details, e.as_str());
        },
    }
    assert(details@ =~= check_detail(*r, 6));
    checks.push(make_check("System Config (Kill Switch)", statuses[6], details, None));

    let details = if r.orphan_tokens == 0 {
        "No orphan tokens found (all tokens have valid owners)".to_string()
    } else {
        numeral_between("\u{26a0}\u{fe0f} ", r.orphan_tokens, " tokens reference non-existent users!")
    };
    assert(details@ =~= check_detail(*r, 7));
    checks.push(make_check("Data Integrity (Orphan Tokens)", statuses[7], details, None));

    let mut details = String::new();
    append_str(&mut details, "Pool size: ");
    push_decimal(&mut details, r.pool_size as u64);
    append_str(&mut details, ", Idle connections: ");
    push_decimal(&mut details, r.idle_connections as u64);
    assert(details@ =~= check_detail(*r, 8));
    checks.push(make_check("Connection Pool Health", statuses[8], details, None));

    checks
}

/// How many of `checks` have verdict `s`.
pub open spec fn count_status(checks: Seq<CheckStatus>, s: CheckStatus) -> nat
    decreases checks.len(),
{
    if checks.len() == 0 {
        0
    } else {
        count_status(checks.drop_last(), s) + if checks.last() == s {
            1nat
        } else {
            0nat
        }
    }
}

/// The summary of a diagnostics run.
pub struct DiagnosticSummary {
    pub total_checks: usize,
    pub passed: usize,
    pub warnings: usize,
    pub failed: usize,
    pub overall: OverallStatus,
}

/// Summarizes diagnostic verdicts: how many passed, warned and failed, and
/// the overall status, critical when any check failed, a warning when any
/// warned, healthy otherwise.
pub fn summarize(checks: &Vec<CheckStatus>) -> (s: DiagnosticSummary)
    ensures
        s.total_checks == checks.len(),
        s.passed == count_status(checks@, CheckStatus::Pass),
        s.warnings == count_status(checks@, CheckStatus::Warning),
        s.failed == count_status(checks@, CheckStatus::Fail),
        s.overall == if s.failed > 0 {
            OverallStatus::Critical
        } else if s.warnings > 0 {
            OverallStatus::Warning
        } else {
            OverallStatus::Healthy
        },
{
    let mut passed: usize = 0;
    let mut warnings: usize = 0;
    let mut failed: usize = 0;
    let mut i: usize = 0;
    while i < checks.len()
        invariant
            0 <= i <= checks.len(),
            passed == count_status(checks@.take(i as int), CheckStatus::Pass),
            warnings == count_status(checks@.take(i as int), CheckStatus::Warning),
            failed == count_status(checks@.take(i as int), CheckStatus::Fail),
            passed + warnings + failed == i,
        decreases checks.len() - i,
    {
        proof {
            assert(checks@.take(i + 1).drop_last() =~= checks@.take(i as int));
            assert(checks@.take(i + 1).last() == checks@[i as int]);
        }
        match checks[i] {
            CheckStatus::Pass => passed = passed + 1,
            CheckStatus::Warning => warnings = warnings + 1,
            CheckStatus::Fail => failed = failed + 1,
        }
        i = i + 1;
    }
    assert(checks@.take(checks.len() as int) =~= checks@);
    let overall = if failed > 0 {
        OverallStatus::Critical
    } else if warnings > 0 {
        OverallStatus::Warning
    } else {
        OverallStatus::Healthy
    };
    DiagnosticSummary { total_checks: checks.len(), passed, warnings, failed, overall }
}

/// Law: only a positive amount can be minted. A mint request passes its
/// checks only when its amount is positive, transactions are enabled and a
/// recipient is named; every amount of zero or less is refused as a bad
/// request.
pub proof fn lemma_mint_needs_positive_amount(amount: i64, enabled: bool, has_id: bool, has_username: bool)
    ensures
        spec_mint_check(amount, enabled, has_id, has_username) is None <==> (amount > 0 && enabled && (has_id
            || has_username)),
        amount <= 0 ==> spec_mint_check(amount, enabled, has_id, has_username) == Some(
            (400u16, "Amount must be positive"@),
        ),
{
}

/// Law: a table check fails only when its count could not be read. The
/// users, tokens, transactions and defrag-history checks pass exactly when
/// their count is zero or more (an empty table passes) and fail when it is
/// negative (unreadable).
pub proof fn lemma_table_checks_fail_only_unread(r: DiagnosticReadings)
    ensures
        spec_check_statuses(r).len() == 9,
        spec_check_statuses(r)[1] == (if r.user_count >= 0 {
            CheckStatus::Pass
        } else {
            CheckStatus::Fail
        }),
        spec_check_statuses(r)[3] == (if r.active_tokens >= 0 {
            CheckStatus::Pass
        } else {
            CheckStatus::Fail
        }),
        spec_check_statuses(r)[4] == (if r.tx_count >= 0 {
            CheckStatus::Pass
        } else {
            CheckStatus::Fail
        }),
        spec_check_statuses(r)[5] == (if r.defrag_count >= 0 {
            CheckStatus::Pass
        } else {
            CheckStatus::Fail
        }),
{
}

/// Law: a fresh, empty ledger is healthy. When the database answers, an admin
/// exists, the kill switch reads "true", no token is orphaned, the pool has
/// connections and every count was read, all nine checks pass, whatever the
/// counts (zero included).
pub proof fn lemma_readable_healthy_ledger_passes(r: DiagnosticReadings)
    requires
        r.db_ok,
        r.user_count >= 0,
        r.admin_count > 0,
        r.active_tokens >= 0,
        r.tx_count >= 0,
        r.defrag_count >= 0,
        r.kill_switch matches Ok(v) && v@ == "true"@,
        r.orphan_tokens == 0,
        r.pool_size > 0,
    ensures
        forall|i: int| 0 <= i < 9 ==> #[trigger] spec_check_statuses(r)[i] == CheckStatus::Pass,
{
}

/// Law: every check is counted once. The passed, warning and failed counts add
/// up to the number of checks.
pub proof fn lemma_verdicts_partition(checks: Seq<CheckStatus>)
    ensures
        count_status(checks, CheckStatus::Pass) + count_status(checks, CheckStatus::Warning)
            + count_status(checks, CheckStatus::Fail) == checks.len(),
    decreases checks.len(),
{
    if checks.len() > 0 {
        lemma_verdicts_partition(checks.drop_last());
    }
}

/// Law: the system is healthy exactly when every check passed.
pub proof fn lemma_healthy_iff_all_pass(checks: Seq<CheckStatus>)
    ensures
        (count_status(checks, CheckStatus::Fail) == 0 && count_status(checks, CheckStatus::Warning) == 0)
            <==> (forall|i: int| 0 <= i < checks.len() ==> #[trigger] checks[i] == CheckStatus::Pass),
    decreases checks.len(),
{
    if checks.len() > 0 {
        let init = checks.drop_last();
        lemma_healthy_iff_all_pass(init);
        if forall|i: int| 0 <= i < checks.len() ==> #[trigger] checks[i] == CheckStatus::Pass {
            assert forall|i: int| 0 <= i < init.len() implies #[trigger] init[i] == CheckStatus::Pass by {
                assert(init[i] == checks[i]);
            }
            assert(checks[checks.len() - 1] == CheckStatus::Pass);
        }
        if count_status(checks, CheckStatus::Fail) == 0 && count_status(checks, CheckStatus::Warning) == 0 {
            assert forall|i: int| 0 <= i < checks.len() implies #[trigger] checks[i] == CheckStatus::Pass by {
                if i < init.len() {
                    assert(init[i] == checks[i]);
                } else {
                    assert(checks[i] == checks.last());
                }
            }
        }
    }
}

} // verus!
