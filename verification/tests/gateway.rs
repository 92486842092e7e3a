use pool_details::gateway::{request_update, validate, whitelist_account_id, MAX_NAME_LEN, MAX_VALUE_LEN};
use pool_details::{ArgumentFault, PoolDetails, PoolError, VerificationRequest, BASE, CALLBACK};

fn s(text: &str) -> String {
    text.to_string()
}

#[test]
fn budgets_are_fixed() {
    assert_eq!(BASE, 25_000_000_000_000);
    assert_eq!(CALLBACK, 50_000_000_000_000);
    assert_eq!(MAX_NAME_LEN, 2000);
    assert_eq!(MAX_VALUE_LEN, 4000);
    assert_eq!(whitelist_account_id(), "whitelist.f863973.m0");
}

#[test]
fn valid_request_names_exactly_two_verifications() {
    let mut details = PoolDetails::new();
    let d = details
        .update_field(s("alice"), s("pool-7"), s("rate"), s("0.05"))
        .unwrap();
    assert_eq!(d.requests.len(), 2);
    assert_eq!(
        d.requests[0],
        VerificationRequest::IsWhitelisted {
            authority: s("whitelist.f863973.m0"),
            staking_pool_account_id: s("pool-7"),
            gas: 25_000_000_000_000,
        }
    );
    assert_eq!(
        d.requests[1],
        VerificationRequest::GetOwnerId { pool_id: s("pool-7"), gas: 25_000_000_000_000 }
    );
    assert_eq!(d.pending.current_user_account_id, "alice");
    assert_eq!(d.pending.pool_id, "pool-7");
    assert_eq!(d.pending.name, "rate");
    assert_eq!(d.pending.value, "0.05");
    assert_eq!(d.callback_gas, 50_000_000_000_000);
}

#[test]
fn accepting_a_request_writes_nothing() {
    let mut details = PoolDetails::new();
    assert!(details.update_field(s("alice"), s("pool-7"), s("rate"), s("0.05")).is_ok());
    assert_eq!(details.get_num_pools(), 0);
    assert!(details.get_fields_by_pool(s("pool-7")).is_none());
}

#[test]
fn empty_pool_id_is_refused() {
    let mut details = PoolDetails::new();
    assert_eq!(
        details.update_field(s("alice"), s(""), s("rate"), s("0.05")),
        Err(PoolError::InvalidArgument(ArgumentFault::EmptyPoolId))
    );
}

#[test]
fn empty_name_is_refused() {
    let mut details = PoolDetails::new();
    assert_eq!(
        details.update_field(s("alice"), s("pool-7"), s(""), s("0.05")),
        Err(PoolError::InvalidArgument(ArgumentFault::EmptyName))
    );
}

#[test]
fn empty_value_is_refused() {
    let mut details = PoolDetails::new();
    assert_eq!(
        details.update_field(s("alice"), s("pool-7"), s("rate"), s("")),
        Err(PoolError::InvalidArgument(ArgumentFault::EmptyValue))
    );
}

#[test]
fn name_length_bound_is_inclusive() {
    let mut details = PoolDetails::new();
    assert!(details.update_field(s("alice"), s("p"), "n".repeat(2000), s("v")).is_ok());
    assert_eq!(
        details.update_field(s("alice"), s("p"), "n".repeat(2001), s("v")),
        Err(PoolError::InvalidArgument(ArgumentFault::NameTooLong))
    );
}

#[test]
fn value_length_bound_is_inclusive() {
    let mut details = PoolDetails::new();
    assert!(details.update_field(s("alice"), s("p"), s("n"), "v".repeat(4000)).is_ok());
    assert_eq!(
        details.update_field(s("alice"), s("p"), s("n"), "v".repeat(4001)),
        Err(PoolError::InvalidArgument(ArgumentFault::ValueTooLong))
    );
}

#[test]
fn lengths_count_characters() {
    assert_eq!(validate(&s("p"), &"\u{e9}".repeat(2000), &"\u{4e2d}".repeat(4000)), Ok(()));
    assert_eq!(
        validate(&s("p"), &"\u{e9}".repeat(2001), &s("v")),
        Err(ArgumentFault::NameTooLong)
    );
    assert_eq!(
        validate(&s("p"), &s("n"), &"\u{4e2d}".repeat(4001)),
        Err(ArgumentFault::ValueTooLong)
    );
}

#[test]
fn faults_are_reported_in_order() {
    assert_eq!(validate(&s(""), &s(""), &s("")), Err(ArgumentFault::EmptyPoolId));
    assert_eq!(validate(&s("p"), &s(""), &s("")), Err(ArgumentFault::EmptyName));
    assert_eq!(validate(&s("p"), &"n".repeat(2001), &s("")), Err(ArgumentFault::EmptyValue));
    assert_eq!(
        validate(&s("p"), &"n".repeat(2001), &"v".repeat(4001)),
        Err(ArgumentFault::NameTooLong)
    );
    assert_eq!(validate(&s("p"), &s("n"), &s("v")), Ok(()));
}

#[test]
fn gateway_alone_gives_the_same_dispatch() {
    let mut details = PoolDetails::new();
    let through = details.update_field(s("carol"), s("pool-1"), s("url"), s("https://x")).unwrap();
    let direct = request_update(s("carol"), s("pool-1"), s("url"), s("https://x")).unwrap();
    assert_eq!(through, direct);
    assert_eq!(
        request_update(s("carol"), s("pool-1"), s(""), s("https://x")),
        Err(PoolError::InvalidArgument(ArgumentFault::EmptyName))
    );
}
