use vstd::prelude::*;
use crate::api::{ApiError, api_error};

verus! {

/// A request to send `amount` to `recipient`, a user id or a username.
pub struct TransferRequest {
    pub recipient: String,
    pub amount: i64,
}

/// A wallet's balance and how many active tokens hold it.
pub struct WalletBalance {
    pub balance: i64,
    pub utxo_count: i64,
}

/// A transfer amount must be positive.
pub fn check_transfer_amount(amount: i64) -> (res: Result<(), ApiError>)
    ensures
        match res {
            Ok(()) => amount > 0,
            Err(e) => amount <= 0 && e.status == 400 && e.message@ == "Amount must be positive"@,
        },
{
    if amount <= 0 {
        return Err(api_error(400, "Amount must be positive"));
    }
    Ok(())
}

/// What `uuid::Uuid::parse_str` parses `text` to, as a 128-bit value; `None`
/// when it is not a UUID.
pub uninterp spec fn uuid_parse(text: Seq<char>) -> Option<u128>;

/// `uuid::Uuid::parse_str(text)` as its 128-bit value (`Uuid::as_u128`).
#[verifier::external_body]
fn parse_uuid(text: &str) -> (res: Option<u128>)
    ensures
        res == uuid_parse(text@),
{
    match uuid::Uuid::parse_str(text) {
        Ok(id) => Some(id.as_u128()),
        Err(_) => None,
    }
}

/// The recipient of a transfer as given: a user id when `recipient` parses as
/// a UUID, otherwise a username to look up.
pub enum RecipientRef {
    Id(u128),
    Username(String),
}

/// Reads the recipient of a transfer request.
pub fn recipient_ref(recipient: &String) -> (r: RecipientRef)
    ensures
        match uuid_parse(recipient@) {
            Some(id) => r == RecipientRef::Id(id),
            None => r matches RecipientRef::Username(name) && name@ == recipient@,
        },
{
    match parse_uuid(recipient.as_str()) {
        Some(id) => RecipientRef::Id(id),
        None => RecipientRef::Username(recipient.clone()),
    }
}

/// A user cannot pay themselves.
pub fn check_not_self(sender: u128, recipient: u128) -> (res: Result<(), ApiError>)
    ensures
        match res {
            Ok(()) => sender != recipient,
            Err(e) => sender == recipient && e.status == 400 && e.message@ == "Cannot transfer to yourself"@,
        },
{
    if sender == recipient {
        return Err(api_error(400, "Cannot transfer to yourself"));
    }
    Ok(())
}

/// Which way a transaction went for a user.
#[derive(PartialEq, Eq, Structural)]
pub enum Direction {
    Sent,
    Received,
}

impl Direction {
    /// The direction as the history shows it.
    pub fn as_str(&self) -> (s: &'static str)
        ensures
            s@ == match self {
                Direction::Sent => "SENT"@,
                Direction::Received => "RECEIVED"@,
            },
    {
        match self {
            Direction::Sent => "SENT",
            Direction::Received => "RECEIVED",
        }
    }
}

/// A transaction was sent by `user_id` when it came from them, and received
/// otherwise.
pub fn direction(from_user: Option<u128>, user_id: u128) -> (d: Direction)
    ensures
        d == if from_user == Some(user_id) {
            Direction::Sent
        } else {
            Direction::Received
        },
{
    match from_user {
        Some(u) => if u == user_id {
            Direction::Sent
        } else {
            Direction::Received
        },
        None => Direction::Received,
    }
}

} // verus!
