use crate::error::Fault;
use crate::resolver::{rejection, resolved};
use crate::store::{distinct_pools, fields_of, has_pool, lemma_pool_slot, page_of, pool_slot, with_field, Entry};
use vstd::prelude::*;

verus! {

/// After a field was written, a lookup of its pool finds it under its name
/// with the written value, and the pool's other fields as they were.
pub proof fn law_written_field_is_read(
    store: Seq<Entry>,
    pool_id: Seq<char>,
    name: Seq<char>,
    value: Seq<char>,
)
    requires
        distinct_pools(store),
    ensures
        distinct_pools(with_field(store, pool_id, name, value)),
        fields_of(with_field(store, pool_id, name, value), pool_id) == Some(
            match fields_of(store, pool_id) {
                Some(fields) => fields.insert(name, value),
                None => Map::<Seq<char>, Seq<char>>::empty().insert(name, value),
            },
        ),
{
    let after = with_field(store, pool_id, name, value);
    crate::store::lemma_with_field_distinct(store, pool_id, name, value);
    let at = if has_pool(store, pool_id) {
        pool_slot(store, pool_id)
    } else {
        store.len() as int
    };
    assert(0 <= at < after.len() && after[at].0 == pool_id);
    lemma_pool_slot(after, at);
}

/// Writing a field leaves every other pool's fields as they were.
pub proof fn law_other_pools_untouched(
    store: Seq<Entry>,
    pool_id: Seq<char>,
    name: Seq<char>,
    value: Seq<char>,
    other: Seq<char>,
)
    requires
        distinct_pools(store),
        other != pool_id,
    ensures
        fields_of(with_field(store, pool_id, name, value), other) == fields_of(store, other),
{
    let after = with_field(store, pool_id, name, value);
    crate::store::lemma_with_field_distinct(store, pool_id, name, value);
    if has_pool(store, other) {
        let j = pool_slot(store, other);
        assert(after[j] == store[j]);
        lemma_pool_slot(after, j);
    } else if has_pool(after, other) {
        let j = pool_slot(after, other);
        if j < store.len() {
            assert(store[j].0 == other);
        }
    }
}

/// Writing the same field twice is the same as writing it once.
pub proof fn law_write_idempotent(
    store: Seq<Entry>,
    pool_id: Seq<char>,
    name: Seq<char>,
    value: Seq<char>,
)
    requires
        distinct_pools(store),
    ensures
        with_field(with_field(store, pool_id, name, value), pool_id, name, value) == with_field(
            store,
            pool_id,
            name,
            value,
        ),
{
    let once = with_field(store, pool_id, name, value);
    let twice = with_field(once, pool_id, name, value);
    crate::store::lemma_with_field_distinct(store, pool_id, name, value);
    let at = if has_pool(store, pool_id) {
        pool_slot(store, pool_id)
    } else {
        store.len() as int
    };
    assert(0 <= at < once.len() && once[at].0 == pool_id);
    lemma_pool_slot(once, at);
    assert(once[at].1.insert(name, value) =~= once[at].1);
    assert(twice =~= once);
}

/// Running the resolver a second time on the same invocation and the same
/// results leaves the store as the first run left it.
pub proof fn law_resolve_idempotent(
    store: Seq<Entry>,
    sender: Seq<char>,
    system: Seq<char>,
    whitelisted: Option<bool>,
    owner: Option<Seq<char>>,
    caller: Seq<char>,
    pool_id: Seq<char>,
    name: Seq<char>,
    value: Seq<char>,
)
    requires
        distinct_pools(store),
    ensures
        resolved(
            resolved(store, sender, system, whitelisted, owner, caller, pool_id, name, value),
            sender,
            system,
            whitelisted,
            owner,
            caller,
            pool_id,
            name,
            value,
        ) == resolved(store, sender, system, whitelisted, owner, caller, pool_id, name, value),
{
    law_write_idempotent(store, pool_id, name, value);
}

/// A resolver that the system itself invoked writes if and only if the
/// whitelist result is a definite yes and the owner that came back is the
/// caller; in every other case the store stays as it was.
pub proof fn law_authorization_conjunction(
    store: Seq<Entry>,
    system: Seq<char>,
    whitelisted: Option<bool>,
    owner: Option<Seq<char>>,
    caller: Seq<char>,
    pool_id: Seq<char>,
    name: Seq<char>,
    value: Seq<char>,
)
    ensures
        rejection(system, system, whitelisted, owner, caller, pool_id) is None <==> whitelisted
            == Some(true) && owner == Some(caller),
        whitelisted == Some(true) && owner == Some(caller) ==> resolved(
            store,
            system,
            system,
            whitelisted,
            owner,
            caller,
            pool_id,
            name,
            value,
        ) == with_field(store, pool_id, name, value),
        !(whitelisted == Some(true) && owner == Some(caller)) ==> resolved(
            store,
            system,
            system,
            whitelisted,
            owner,
            caller,
            pool_id,
            name,
            value,
        ) == store,
{
}

/// A write shows: where the pool was unknown, or had no such field, or had
/// it with another value, the store after the write differs from the store
/// before it.
pub proof fn law_write_is_visible(
    store: Seq<Entry>,
    pool_id: Seq<char>,
    name: Seq<char>,
    value: Seq<char>,
)
    requires
        distinct_pools(store),
        match fields_of(store, pool_id) {
            Some(fields) => !fields.contains_key(name) || fields[name] != value,
            None => true,
        },
    ensures
        with_field(store, pool_id, name, value) != store,
{
    let after = with_field(store, pool_id, name, value);
    if has_pool(store, pool_id) {
        let i = pool_slot(store, pool_id);
        assert(after[i].1.contains_key(name) && after[i].1[name] == value);
    } else {
        assert(after.len() == store.len() + 1);
    }
}

/// A resolver whose sender is not the system itself refuses as an
/// unauthorized callback and leaves the store as it was, whatever the two
/// verification results are.
pub proof fn law_self_call_guard(
    store: Seq<Entry>,
    sender: Seq<char>,
    system: Seq<char>,
    whitelisted: Option<bool>,
    owner: Option<Seq<char>>,
    caller: Seq<char>,
    pool_id: Seq<char>,
    name: Seq<char>,
    value: Seq<char>,
)
    requires
        sender != system,
    ensures
        rejection(sender, system, whitelisted, owner, caller, pool_id) == Some(
            Fault::UnauthorizedCallback,
        ),
        resolved(store, sender, system, whitelisted, owner, caller, pool_id, name, value)
            == store,
{
}

/// A page holds `limit` records, or as many as are left from `from_index`
/// on where those are fewer.
pub proof fn law_page_len(store: Seq<Entry>, from_index: nat, limit: nat)
    ensures
        page_of(store, from_index, limit).len() == if from_index >= store.len() {
            0
        } else if store.len() - from_index < limit {
            store.len() - from_index
        } else {
            limit as int
        },
{
}

/// Two pages in a row are one page: the page of `second` records that starts
/// where a page of `first` records from `from_index` ends continues it
/// without a gap and without a repeat.
pub proof fn law_pages_join(store: Seq<Entry>, from_index: nat, first: nat, second: nat)
    ensures
        page_of(store, from_index, first) + page_of(
            store,
            from_index + first,
            second,
        ) == page_of(store, from_index, first + second),
{
    assert(page_of(store, from_index, first) + page_of(
        store,
        from_index + first,
        second,
    ) =~= page_of(store, from_index, first + second));
}

/// A page from the start that is as long as the store is the whole store,
/// and no pool occurs twice in any page.
pub proof fn law_pages_cover(store: Seq<Entry>, from_index: nat, limit: nat)
    requires
        distinct_pools(store),
    ensures
        limit >= store.len() ==> page_of(store, 0, limit) == store,
        distinct_pools(page_of(store, from_index, limit)),
{
    if limit >= store.len() {
        assert(page_of(store, 0, limit) =~= store);
    }
    let page = page_of(store, from_index, limit);
    assert forall|i: int, j: int| 0 <= i < j < page.len() implies (#[trigger] page[i]).0 != (
    #[trigger] page[j]).0 by {
        assert(page[i] == store[from_index + i]);
        assert(page[j] == store[from_index + j]);
    }
}

} // verus!
