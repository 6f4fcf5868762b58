//! The transfer engine: validation of a transfer request against the
//! store, and its atomic execution. Expected business failures are
//! returned as `TransferError` values, never as panics.

use vstd::prelude::*;
use crate::store::{
    Database, Operation, OperationModel, UserModel, apply_transfer, find_user, user_exists,
};

verus! {

/// Why a transfer request was rejected.
#[derive(Clone, Copy, Debug, PartialEq, Eq, Structural)]
pub enum TransferError {
    /// Sender or receiver does not resolve to an account.
    InvalidUser,
    /// The sender's balance is below the requested amount.
    InsufficientFunds,
    /// The requested amount is zero. Zero-value transfers are rejected
    /// by policy rather than applied as silent no-ops.
    ZeroValueOperation,
}

/// The engine's validation, in order: both parties must resolve, the
/// amount must be positive, and the sender must cover it. `None` means
/// the transfer is accepted.
pub open spec fn validate_transfer(
    users: Seq<UserModel>,
    from: Seq<char>,
    to: Seq<char>,
    value: int,
) -> Option<TransferError> {
    if !user_exists(users, from) || !user_exists(users, to) {
        Some(TransferError::InvalidUser)
    } else if value == 0 {
        Some(TransferError::ZeroValueOperation)
    } else if users[find_user(users, from)].balance < value {
        Some(TransferError::InsufficientFunds)
    } else {
        None
    }
}

/// The machine limit on a transfer the validation accepts: crediting
/// the receiver must stay within `u32`.
pub open spec fn credit_fits(
    users: Seq<UserModel>,
    from: Seq<char>,
    to: Seq<char>,
    value: int,
) -> bool {
    validate_transfer(users, from, to, value) is None ==> {
        let i = find_user(users, from);
        let j = find_user(users, to);
        i != j ==> users[j].balance + value <= u32::MAX
    }
}

/// Relies on `chrono::offset::Local::now` for the current local time,
/// rendered through chrono's `Display` for `DateTime`. Nothing is
/// assumed of the returned text.
#[verifier::external_body]
fn current_timestamp() -> String {
    chrono::offset::Local::now().to_string()
}

impl Database {
    /// Validates the request `{from, to, value}` against the store and,
    /// if it is accepted, applies it atomically under the caller's
    /// exclusive access: debit, credit and the history records become
    /// visible as one step. Returns the created operation, carrying the
    /// given timestamp, or the error the validation found; on an error
    /// the store is unchanged.
    pub fn execute_transfer(&mut self, from: &str, to: &str, value: u32, date: String) -> (r:
        Result<Operation, TransferError>)
        requires
            credit_fits(old(self)@, from@, to@, value as int),
        ensures
            match r {
                Ok(op) => {
                    &&& validate_transfer(old(self)@, from@, to@, value as int) is None
                    &&& op@ == (OperationModel {
                        from: from@,
                        to: to@,
                        value: value as int,
                        date: date@,
                    })
                    &&& final(self)@ == apply_transfer(old(self)@, op@)
                },
                Err(e) => {
                    &&& validate_transfer(old(self)@, from@, to@, value as int) == Some(e)
                    &&& final(self)@ == old(self)@
                },
            },
    {
        let from_exists = self.get_user(from).is_some();
        let to_exists = self.get_user(to).is_some();
        if !from_exists || !to_exists {
            return Err(TransferError::InvalidUser);
        }
        if value == 0 {
            return Err(TransferError::ZeroValueOperation);
        }
        let sender = match self.get_user(from) {
            Some(u) => u,
            None => {
                proof {
                    assert(false);
                }
                return Err(TransferError::InvalidUser);
            },
        };
        if sender.balance < value {
            return Err(TransferError::InsufficientFunds);
        }
        let operation = Operation { from: from.to_owned(), to: to.to_owned(), value, date };
        let record = operation.clone();
        self.make_operation(operation);
        Ok(record)
    }

    /// Executes the transfer with the current local time as its
    /// timestamp. Whatever text the clock yields, the store moves by
    /// exactly `apply_transfer` of the returned operation, and the
    /// validation verdict does not depend on the timestamp.
    pub fn execute_transfer_now(&mut self, from: &str, to: &str, value: u32) -> (r: Result<
        Operation,
        TransferError,
    >)
        requires
            credit_fits(old(self)@, from@, to@, value as int),
        ensures
            match r {
                Ok(op) => {
                    &&& validate_transfer(old(self)@, from@, to@, value as int) is None
                    &&& op@.from == from@
                    &&& op@.to == to@
                    &&& op@.value == value as int
                    &&& final(self)@ == apply_transfer(old(self)@, op@)
                },
                Err(e) => {
                    &&& validate_transfer(old(self)@, from@, to@, value as int) == Some(e)
                    &&& final(self)@ == old(self)@
                },
            },
    {
        let date = current_timestamp();
        self.execute_transfer(from, to, value, date)
    }
}

} // verus!
