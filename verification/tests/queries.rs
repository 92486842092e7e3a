use pool_details::store::{page_range, MAX_PAGE};
use pool_details::{ArgumentFault, FieldMap, PoolDetails, PoolError, RecordStore};

fn s(text: &str) -> String {
    text.to_string()
}

fn write(details: &mut PoolDetails, pool: &str, name: &str, value: &str) {
    let r = details.on_get_owner_id(
        s("details.near"),
        s("details.near"),
        Some(true),
        Some(s("owner")),
        s("owner"),
        s(pool),
        s(name),
        s(value),
    );
    assert_eq!(r, Ok(true));
}

fn filled(pools: u64) -> PoolDetails {
    let mut details = PoolDetails::new();
    for i in 0..pools {
        write(&mut details, &format!("pool-{}", i), "rate", &format!("{}", i));
    }
    details
}

#[test]
fn pages_of_a_store_of_250_pools() {
    let details = filled(250);
    assert_eq!(details.get_num_pools(), 250);
    let mut seen: Vec<String> = Vec::new();
    for (from_index, expected) in [(0u64, 100usize), (100, 100), (200, 50)] {
        let page = details.get_all_fields(from_index, 100).unwrap();
        assert_eq!(page.len(), expected);
        for (offset, record) in page.iter().enumerate() {
            let index = from_index + offset as u64;
            assert_eq!(record.pool_id, format!("pool-{}", index));
            assert_eq!(record.fields.to_vec(), vec![(s("rate"), format!("{}", index))]);
            assert!(!seen.contains(&record.pool_id));
            seen.push(record.pool_id.clone());
        }
    }
    assert_eq!(seen.len(), 250);
    for i in 0..250 {
        assert!(seen.contains(&format!("pool-{}", i)));
    }
}

#[test]
fn limit_over_100_is_refused() {
    let details = filled(3);
    assert_eq!(
        details.get_all_fields(0, 101).err(),
        Some(PoolError::InvalidArgument(ArgumentFault::LimitTooLarge))
    );
    assert_eq!(
        details.get_all_fields(7, u64::MAX).err(),
        Some(PoolError::InvalidArgument(ArgumentFault::LimitTooLarge))
    );
    assert_eq!(details.get_all_fields(0, 100).unwrap().len(), 3);
    assert_eq!(MAX_PAGE, 100);
}

#[test]
fn page_past_the_end_is_empty() {
    let details = filled(3);
    assert_eq!(details.get_all_fields(3, 10).unwrap().len(), 0);
    assert_eq!(details.get_all_fields(4, 10).unwrap().len(), 0);
    assert_eq!(details.get_all_fields(u64::MAX, 100).unwrap().len(), 0);
    assert_eq!(PoolDetails::new().get_all_fields(0, 100).unwrap().len(), 0);
}

#[test]
fn page_is_cut_at_the_limit_and_at_the_end() {
    let details = filled(5);
    let page = details.get_all_fields(1, 2).unwrap();
    assert_eq!(page.len(), 2);
    assert_eq!(page[0].pool_id, "pool-1");
    assert_eq!(page[1].pool_id, "pool-2");
    let page = details.get_all_fields(3, 100).unwrap();
    assert_eq!(page.len(), 2);
    assert_eq!(page[0].pool_id, "pool-3");
    assert_eq!(page[1].pool_id, "pool-4");
    assert_eq!(details.get_all_fields(2, 0).unwrap().len(), 0);
}

#[test]
fn page_range_formula() {
    assert_eq!(page_range(250, 0, 100), Ok((0, 100)));
    assert_eq!(page_range(250, 200, 100), Ok((200, 250)));
    assert_eq!(page_range(250, 250, 100), Ok((250, 250)));
    assert_eq!(page_range(250, 900, 100), Ok((250, 250)));
    assert_eq!(page_range(u64::MAX, u64::MAX - 1, 100), Ok((u64::MAX - 1, u64::MAX)));
    assert_eq!(
        page_range(250, 0, 101),
        Err(PoolError::InvalidArgument(ArgumentFault::LimitTooLarge))
    );
}

#[test]
fn count_is_the_number_of_distinct_pools() {
    let mut details = PoolDetails::new();
    assert_eq!(details.get_num_pools(), 0);
    write(&mut details, "a", "x", "1");
    write(&mut details, "a", "y", "2");
    write(&mut details, "b", "x", "3");
    write(&mut details, "a", "x", "4");
    assert_eq!(details.get_num_pools(), 2);
}

#[test]
fn unknown_pool_has_no_fields() {
    let details = filled(2);
    assert!(details.get_fields_by_pool(s("pool-2")).is_none());
    assert!(details.get_fields_by_pool(s("")).is_none());
    assert!(details.get_fields_by_pool(s("pool-1")).is_some());
}

#[test]
fn overwriting_keeps_the_pool_in_its_place() {
    let mut details = filled(3);
    write(&mut details, "pool-0", "rate", "changed");
    write(&mut details, "pool-0", "url", "https://example");
    let page = details.get_all_fields(0, 100).unwrap();
    assert_eq!(page.len(), 3);
    assert_eq!(page[0].pool_id, "pool-0");
    assert_eq!(page[0].fields.get(&s("rate")), Some(s("changed")));
    assert_eq!(page[0].fields.get(&s("url")), Some(s("https://example")));
    assert_eq!(page[0].fields.len(), 2);
    assert_eq!(page[1].pool_id, "pool-1");
    assert_eq!(page[1].fields.get(&s("rate")), Some(s("1")));
    assert_eq!(page[1].fields.get(&s("url")), None);
}

#[test]
fn default_is_empty() {
    let details = PoolDetails::default();
    assert_eq!(details.get_num_pools(), 0);
}

#[test]
fn record_store_alone() {
    let mut store = RecordStore::new();
    assert_eq!(store.count(), 0);
    assert!(store.get(&s("p")).is_none());
    store.upsert(s("p"), s("a"), s("1"));
    store.upsert(s("q"), s("a"), s("2"));
    store.upsert(s("p"), s("b"), s("3"));
    assert_eq!(store.count(), 2);
    let p = store.get(&s("p")).unwrap();
    assert_eq!(p.get(&s("a")), Some(s("1")));
    assert_eq!(p.get(&s("b")), Some(s("3")));
    assert_eq!(store.get(&s("q")).unwrap().to_vec(), vec![(s("a"), s("2"))]);
    let page = store.page(1, 5).unwrap();
    assert_eq!(page.len(), 1);
    assert_eq!(page[0].pool_id, "q");
}

#[test]
fn field_map_alone() {
    let mut fields = FieldMap::new();
    assert_eq!(fields.len(), 0);
    assert!(!fields.contains(&s("a")));
    assert_eq!(fields.get(&s("a")), None);
    fields.insert(s("a"), s("1"));
    fields.insert(s("b"), s("2"));
    fields.insert(s("a"), s("3"));
    assert_eq!(fields.len(), 2);
    assert!(fields.contains(&s("a")));
    assert_eq!(fields.get(&s("a")), Some(s("3")));
    assert_eq!(fields.get(&s("b")), Some(s("2")));
    let copy = fields.duplicate();
    fields.insert(s("b"), s("9"));
    assert_eq!(copy.get(&s("b")), Some(s("2")));
    assert_eq!(copy.to_vec(), vec![(s("a"), s("3")), (s("b"), s("2"))]);
}
