//! Checks on the balances observed around a token movement: the contract
//! accepts a transfer or burn only when every balance moved by exactly the
//! requested amount.
use vstd::prelude::*;

verus! {

/// A transfer of `amount` moved the balances as it should: the sender's
/// balance fell by exactly `amount` and the recipient's rose by exactly
/// `amount`.
pub fn transfer_matches(
    sender_before: i128,
    sender_after: i128,
    recipient_before: i128,
    recipient_after: i128,
    amount: i128,
) -> (r: bool)
    ensures
        r == (sender_before - sender_after == amount && recipient_after - recipient_before == amount),
{
    let sent = sender_before.checked_sub(sender_after);
    let received = recipient_after.checked_sub(recipient_before);
    let sent_ok = match sent {
        Some(d) => d == amount,
        None => false,
    };
    let received_ok = match received {
        Some(d) => d == amount,
        None => false,
    };
    sent_ok && received_ok
}

/// A burn of `amount` lowered the holder's balance by exactly `amount`.
pub fn burn_matches(holder_before: i128, holder_after: i128, amount: i128) -> (r: bool)
    ensures
        r == (holder_before - holder_after == amount),
{
    match holder_before.checked_sub(holder_after) {
        Some(d) => d == amount,
        None => false,
    }
}

} // verus!
