use crate::error::{ArgumentFault, Fault, PoolError};
use vstd::prelude::*;
use vstd::string::*;

verus! {

/// The work that one verification request may spend.
pub const BASE: u64 = 25_000_000_000_000;

/// The work reserved for the resolver, which handles two results and may
/// write to the store.
pub const CALLBACK: u64 = BASE * 2;

/// The largest number of characters in a field's name.
pub const MAX_NAME_LEN: usize = 2000;

/// The largest number of characters in a field's value.
pub const MAX_VALUE_LEN: usize = 4000;

/// The account of the whitelist authority.
pub open spec fn whitelist_authority() -> Seq<char> {
    "whitelist.f863973.m0"@
}

/// The account of the whitelist authority.
pub fn whitelist_account_id() -> (r: String)
    ensures
        r@ == whitelist_authority(),
{
    "whitelist.f863973.m0".to_owned()
}

/// A question to one of the two outside authorities.
#[derive(Debug, PartialEq, Eq)]
pub enum VerificationRequest {
    /// To the whitelist authority: is this pool an approved target?
    IsWhitelisted { authority: String, staking_pool_account_id: String, gas: u64 },
    /// To the pool itself: who is your owner?
    GetOwnerId { pool_id: String, gas: u64 },
}

/// The mathematical content of a [`VerificationRequest`].
pub enum Query {
    IsWhitelisted { authority: Seq<char>, staking_pool_account_id: Seq<char>, gas: u64 },
    GetOwnerId { pool_id: Seq<char>, gas: u64 },
}

impl View for VerificationRequest {
    type V = Query;

    open spec fn view(&self) -> Query {
        match *self {
            VerificationRequest::IsWhitelisted { authority, staking_pool_account_id, gas } => {
                Query::IsWhitelisted {
                    authority: authority@,
                    staking_pool_account_id: staking_pool_account_id@,
                    gas,
                }
            },
            VerificationRequest::GetOwnerId { pool_id, gas } => Query::GetOwnerId {
                pool_id: pool_id@,
                gas,
            },
        }
    }
}

/// What an accepted request carries to the resolver: who asked, and for
/// which write.
#[derive(Debug, PartialEq, Eq)]
pub struct PendingAuthorization {
    pub current_user_account_id: String,
    pub pool_id: String,
    pub name: String,
    pub value: String,
}

/// The mathematical content of a [`PendingAuthorization`].
pub struct Pending {
    pub caller: Seq<char>,
    pub pool_id: Seq<char>,
    pub name: Seq<char>,
    pub value: Seq<char>,
}

impl View for PendingAuthorization {
    type V = Pending;

    open spec fn view(&self) -> Pending {
        Pending {
            caller: self.current_user_account_id@,
            pool_id: self.pool_id@,
            name: self.name@,
            value: self.value@,
        }
    }
}

/// An accepted request: the verification requests to send, all of which must
/// come back before the resolver runs, and what the resolver is then given.
#[derive(Debug, PartialEq, Eq)]
pub struct Dispatch {
    pub requests: Vec<VerificationRequest>,
    pub pending: PendingAuthorization,
    pub callback_gas: u64,
}

/// The verification requests for a write to `pool_id`: the whitelist
/// authority is asked about the pool, and the pool about its owner.
pub open spec fn requests_for(pool_id: Seq<char>) -> Seq<Query> {
    seq![
        Query::IsWhitelisted {
            authority: whitelist_authority(),
            staking_pool_account_id: pool_id,
            gas: BASE,
        },
        Query::GetOwnerId { pool_id, gas: BASE },
    ]
}

impl Dispatch {
    /// The verification requests, as values and in order.
    pub open spec fn queries(&self) -> Seq<Query> {
        Seq::new(self.requests@.len(), |i: int| self.requests@[i]@)
    }

    /// This is the dispatch for the write of `value` under `name` for
    /// `pool_id` that `caller` asked for: exactly two requests, and the
    /// request's four parts as the resolver's state.
    pub open spec fn is_for(
        &self,
        caller: Seq<char>,
        pool_id: Seq<char>,
        name: Seq<char>,
        value: Seq<char>,
    ) -> bool {
        &&& self.requests@.len() == 2
        &&& self.queries() == requests_for(pool_id)
        &&& self.pending@ == (Pending { caller, pool_id, name, value })
        &&& self.callback_gas == CALLBACK
    }
}

/// The first reason, if any, for which a write of `value` under `name` for
/// `pool_id` is refused: each of the three must be non-empty, the name at
/// most [`MAX_NAME_LEN`] characters, the value at most [`MAX_VALUE_LEN`].
pub open spec fn argument_fault(pool_id: Seq<char>, name: Seq<char>, value: Seq<char>) -> Option<
    ArgumentFault,
> {
    if pool_id.len() == 0 {
        Some(ArgumentFault::EmptyPoolId)
    } else if name.len() == 0 {
        Some(ArgumentFault::EmptyName)
    } else if value.len() == 0 {
        Some(ArgumentFault::EmptyValue)
    } else if name.len() > MAX_NAME_LEN {
        Some(ArgumentFault::NameTooLong)
    } else if value.len() > MAX_VALUE_LEN {
        Some(ArgumentFault::ValueTooLong)
    } else {
        None
    }
}

/// Checks the arguments of a write.
pub fn validate(pool_id: &String, name: &String, value: &String) -> (r: Result<(), ArgumentFault>)
    ensures
        match r {
            Ok(_) => argument_fault(pool_id@, name@, value@) is None,
            Err(f) => argument_fault(pool_id@, name@, value@) == Some(f),
        },
{
    let name_len: usize = name.as_str().unicode_len();
    let value_len: usize = value.as_str().unicode_len();
    if pool_id.as_str().unicode_len() == 0 {
        Err(ArgumentFault::EmptyPoolId)
    } else if name_len == 0 {
        Err(ArgumentFault::EmptyName)
    } else if value_len == 0 {
        Err(ArgumentFault::EmptyValue)
    } else if name_len > MAX_NAME_LEN {
        Err(ArgumentFault::NameTooLong)
    } else if value_len > MAX_VALUE_LEN {
        Err(ArgumentFault::ValueTooLong)
    } else {
        Ok(())
    }
}

/// Accepts or refuses a write that `caller` asks for. A refused write
/// names no verification request; an accepted one names exactly two, and
/// nothing is written until the resolver has seen both answers.
pub fn request_update(caller: String, pool_id: String, name: String, value: String) -> (r: Result<
    Dispatch,
    PoolError,
>)
    ensures
        r is Ok <==> pool_id@.len() > 0 && 0 < name@.len() <= MAX_NAME_LEN && 0 < value@.len()
            <= MAX_VALUE_LEN,
        match r {
            Ok(d) => argument_fault(pool_id@, name@, value@) is None && d.is_for(
                caller@,
                pool_id@,
                name@,
                value@,
            ),
            Err(e) => argument_fault(pool_id@, name@, value@) matches Some(f) && e@
                == Fault::InvalidArgument(f),
        },
{
    match validate(&pool_id, &name, &value) {
        Err(f) => Err(PoolError::InvalidArgument(f)),
        Ok(_) => {
            let mut requests: Vec<VerificationRequest> = Vec::new();
            requests.push(
                VerificationRequest::IsWhitelisted {
                    authority: whitelist_account_id(),
                    staking_pool_account_id: pool_id.clone(),
                    gas: BASE,
                },
            );
            requests.push(VerificationRequest::GetOwnerId { pool_id: pool_id.clone(), gas: BASE });
            let d = Dispatch {
                requests,
                pending: PendingAuthorization {
                    current_user_account_id: caller,
                    pool_id,
                    name,
                    value,
                },
                callback_gas: CALLBACK,
            };
            assert(d.queries() =~= requests_for(pool_id@));
            Ok(d)
        },
    }
}

} // verus!
