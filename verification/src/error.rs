use vstd::prelude::*;
use vstd::string::*;

verus! {

/// Why an argument was refused before any work was done.
#[derive(Clone, Copy, Debug, PartialEq, Eq, Structural)]
pub enum ArgumentFault {
    EmptyPoolId,
    EmptyName,
    EmptyValue,
    NameTooLong,
    ValueTooLong,
    LimitTooLarge,
}

/// A failure of a request. Every failure is terminal for that request and
/// leaves the record store as it was.
#[derive(Debug, PartialEq, Eq)]
pub enum PoolError {
    /// An argument was empty, too long, or a page limit was too large.
    InvalidArgument(ArgumentFault),
    /// A verification request did not come back with a definite answer.
    TransportFailure,
    /// The whitelist authority does not approve the pool.
    NotWhitelisted { pool_id: String },
    /// The pool's owner is not the account that asked for the update.
    NotOwner { owner: String, pool_id: String, caller: String },
    /// The resolver was invoked by someone other than the system itself.
    UnauthorizedCallback,
}

/// The mathematical content of a [`PoolError`]: strings as character sequences.
pub enum Fault {
    InvalidArgument(ArgumentFault),
    TransportFailure,
    NotWhitelisted { pool_id: Seq<char> },
    NotOwner { owner: Seq<char>, pool_id: Seq<char>, caller: Seq<char> },
    UnauthorizedCallback,
}

impl View for PoolError {
    type V = Fault;

    open spec fn view(&self) -> Fault {
        match *self {
            PoolError::InvalidArgument(f) => Fault::InvalidArgument(f),
            PoolError::TransportFailure => Fault::TransportFailure,
            PoolError::NotWhitelisted { pool_id } => Fault::NotWhitelisted { pool_id: pool_id@ },
            PoolError::NotOwner { owner, pool_id, caller } => Fault::NotOwner {
                owner: owner@,
                pool_id: pool_id@,
                caller: caller@,
            },
            PoolError::UnauthorizedCallback => Fault::UnauthorizedCallback,
        }
    }
}

/// The text that reports a failure to an operator. A refused pool is named
/// in it, and a refused caller together with the pool and its owner.
pub open spec fn message_text(fault: Fault) -> Seq<char> {
    match fault {
        Fault::InvalidArgument(ArgumentFault::EmptyPoolId) => "Abort. Pool ID is empty"@,
        Fault::InvalidArgument(ArgumentFault::EmptyName) => "Abort. Name is empty"@,
        Fault::InvalidArgument(ArgumentFault::EmptyValue) => "Abort. Value is empty"@,
        Fault::InvalidArgument(ArgumentFault::NameTooLong) => {
            "Abort. Name is longer then 2000 characters"@
        },
        Fault::InvalidArgument(ArgumentFault::ValueTooLong) => {
            "Abort. Value is longer then 4000 characters"@
        },
        Fault::InvalidArgument(ArgumentFault::LimitTooLarge) => "Abort. Limit > 100"@,
        Fault::TransportFailure => "Abort. A verification request did not complete"@,
        Fault::NotWhitelisted { pool_id } => "Abort. Pool "@ + pool_id + " was not whitelisted."@,
        Fault::NotOwner { owner, pool_id, caller } => {
            "You are not the owner of pool. Login as "@ + owner + " in order to update "@ + pool_id
                + ". Your current account is "@ + caller
        },
        Fault::UnauthorizedCallback => "Abort. The callback was not invoked by the system itself"@,
    }
}

impl PoolError {
    /// The text that reports this failure to an operator.
    pub fn message(&self) -> (r: String)
        ensures
            r@ == message_text(self@),
    {
        match self {
            PoolError::InvalidArgument(ArgumentFault::EmptyPoolId) => {
                "Abort. Pool ID is empty".to_owned()
            },
            PoolError::InvalidArgument(ArgumentFault::EmptyName) => {
                "Abort. Name is empty".to_owned()
            },
            PoolError::InvalidArgument(ArgumentFault::EmptyValue) => {
                "Abort. Value is empty".to_owned()
            },
            PoolError::InvalidArgument(ArgumentFault::NameTooLong) => {
                "Abort. Name is longer then 2000 characters".to_owned()
            },
            PoolError::InvalidArgument(ArgumentFault::ValueTooLong) => {
                "Abort. Value is longer then 4000 characters".to_owned()
            },
            PoolError::InvalidArgument(ArgumentFault::LimitTooLarge) => {
                "Abort. Limit > 100".to_owned()
            },
            PoolError::TransportFailure => {
                "Abort. A verification request did not complete".to_owned()
            },
            PoolError::NotWhitelisted { pool_id } => {
                let mut text = "Abort. Pool ".to_owned();
                text.append(pool_id.as_str());
                text.append(" was not whitelisted.");
                text
            },
            PoolError::NotOwner { owner, pool_id, caller } => {
                let mut text = "You are not the owner of pool. Login as ".to_owned();
                text.append(owner.as_str());
                text.append(" in order to update ");
                text.append(pool_id.as_str());
                text.append(". Your current account is ");
                text.append(caller.as_str());
                text
            },
            PoolError::UnauthorizedCallback => {
                "Abort. The callback was not invoked by the system itself".to_owned()
            },
        }
    }
}

} // verus!
