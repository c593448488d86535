use vstd::prelude::*;

verus! {

/// The system setting that holds the kill switch.
pub open spec fn spec_transactions_enabled(setting: Option<Seq<char>>) -> bool {
    match setting {
        Some(v) => v == "true"@,
        None => true,
    }
}

/// Whether transactions are enabled, given the stored `transactions_enabled`
/// setting (`None` when it could not be read). An unreadable setting counts as
/// enabled; a readable one enables transactions only when it is exactly "true".
pub fn transactions_enabled(setting: &Option<String>) -> (res: bool)
    ensures
        res == spec_transactions_enabled(
            match setting {
                Some(v) => Some(v@),
                None => None,
            },
        ),
{
    match setting {
        Some(v) => *v == "true".to_string(),
        None => true,
    }
}

/// The value that the kill switch stores for `enabled`.
pub open spec fn spec_kill_switch_value(enabled: bool) -> Seq<char> {
    if enabled {
        "true"@
    } else {
        "false"@
    }
}

/// The `transactions_enabled` setting that turns transactions on or off.
pub fn kill_switch_value(enabled: bool) -> (res: String)
    ensures
        res@ == spec_kill_switch_value(enabled),
{
    if enabled {
        "true".to_string()
    } else {
        "false".to_string()
    }
}

/// Law: reading the setting back gives what the kill switch wrote.
pub proof fn lemma_kill_switch_round_trip(enabled: bool)
    ensures
        spec_transactions_enabled(Some(spec_kill_switch_value(enabled))) == enabled,
{
    reveal_strlit("true");
    reveal_strlit("false");
    if !enabled {
        assert("false"@[0] != "true"@[0]);
    }
}

/// An account may act when its status is 'ACTIVE' and it is not frozen.
pub open spec fn spec_user_is_active(status: Seq<char>, is_frozen: bool) -> bool {
    status == "ACTIVE"@ && !is_frozen
}

/// Whether an account with `status` and freeze flag `is_frozen` may act.
pub fn user_is_active(status: &String, is_frozen: bool) -> (res: bool)
    ensures
        res == spec_user_is_active(status@, is_frozen),
{
    *status == "ACTIVE".to_string() && !is_frozen
}

} // verus!
