use crate::error::{Fault, PoolError};
use crate::store::{with_field, Entry};
use vstd::prelude::*;
use vstd::string::*;

verus! {

/// An optional string as a value.
pub open spec fn text_of(s: Option<String>) -> Option<Seq<char>> {
    match s {
        Some(t) => Some(t@),
        None => None,
    }
}

/// The reason, if any, for which the resolver refuses to write.
///
/// `sender` invoked the resolver, `system` is the system's own identity;
/// `whitelisted` and `owner` are the two verification results, `None` where
/// a request did not come back with an answer; `caller` asked for the write
/// to `pool_id`. The guard on the sender comes before everything else.
pub open spec fn rejection(
    sender: Seq<char>,
    system: Seq<char>,
    whitelisted: Option<bool>,
    owner: Option<Seq<char>>,
    caller: Seq<char>,
    pool_id: Seq<char>,
) -> Option<Fault> {
    if sender != system {
        Some(Fault::UnauthorizedCallback)
    } else if whitelisted is None || owner is None {
        Some(Fault::TransportFailure)
    } else if !whitelisted->0 {
        Some(Fault::NotWhitelisted { pool_id })
    } else if owner->0 != caller {
        Some(Fault::NotOwner { owner: owner->0, pool_id, caller })
    } else {
        None
    }
}

/// The store after the resolver ran: written to where nothing spoke
/// against it, and else as it was.
pub open spec fn resolved(
    store: Seq<Entry>,
    sender: Seq<char>,
    system: Seq<char>,
    whitelisted: Option<bool>,
    owner: Option<Seq<char>>,
    caller: Seq<char>,
    pool_id: Seq<char>,
    name: Seq<char>,
    value: Seq<char>,
) -> Seq<Entry> {
    if rejection(sender, system, whitelisted, owner, caller, pool_id) is None {
        with_field(store, pool_id, name, value)
    } else {
        store
    }
}

/// Decides whether the resolver may write: the sender must be the system
/// itself, both results must have come back, the pool must be whitelisted
/// and its owner must be the caller.
pub fn authorize(
    sender: &String,
    system: &String,
    is_whitelisted: Option<bool>,
    owner_id: Option<String>,
    caller: &String,
    pool_id: &String,
) -> (r: Result<(), PoolError>)
    ensures
        match r {
            Ok(_) => rejection(
                sender@,
                system@,
                is_whitelisted,
                text_of(owner_id),
                caller@,
                pool_id@,
            ) is None,
            Err(e) => rejection(
                sender@,
                system@,
                is_whitelisted,
                text_of(owner_id),
                caller@,
                pool_id@,
            ) == Some(e@),
        },
{
    if *sender != *system {
        return Err(PoolError::UnauthorizedCallback);
    }
    match (is_whitelisted, owner_id) {
        (Some(whitelisted), Some(owner)) => {
            if !whitelisted {
                Err(PoolError::NotWhitelisted { pool_id: pool_id.clone() })
            } else if owner != *caller {
                Err(PoolError::NotOwner { owner, pool_id: pool_id.clone(), caller: caller.clone() })
            } else {
                Ok(())
            }
        },
        _ => Err(PoolError::TransportFailure),
    }
}

/// The text of the event that records a write: it names the field and the
/// pool.
pub open spec fn event_text(name: Seq<char>, pool_id: Seq<char>) -> Seq<char> {
    "Field "@ + name + " added for pool "@ + pool_id
}

/// The event to emit for a write of the field `name` for `pool_id`.
pub fn field_added_event(name: &String, pool_id: &String) -> (r: String)
    ensures
        r@ == event_text(name@, pool_id@),
{
    let mut text = "Field ".to_owned();
    text.append(name.as_str());
    text.append(" added for pool ");
    text.append(pool_id.as_str());
    text
}

} // verus!
