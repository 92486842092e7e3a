use crate::error::{ArgumentFault, Fault, PoolError};
use crate::fields::FieldMap;
use crate::gateway::{
    argument_fault, request_update, validate, Dispatch, MAX_NAME_LEN, MAX_VALUE_LEN,
};
use crate::resolver::{authorize, rejection, resolved, text_of};
use crate::store::{entries_of, fields_of, page_of, with_field, Entry, PoolRecord, RecordStore, MAX_PAGE};
use vstd::prelude::*;

verus! {

/// A staking pool, as far as this system asks it anything.
pub trait ExtStakingPool {
    /// The account that owns the pool, as a value.
    spec fn owner(&self) -> Seq<char>;

    /// The account that owns the pool.
    fn get_owner_id(&self) -> (r: String)
        ensures
            r@ == self.owner(),
    ;
}

/// The whitelist authority.
pub trait ExtWhitelist {
    /// Whether the authority approves `pool` as a target.
    spec fn approves(&self, pool: Seq<char>) -> bool;

    /// Whether the pool is an approved target.
    fn is_whitelisted(&self, staking_pool_account_id: String) -> (r: bool)
        ensures
            r == self.approves(staking_pool_account_id@),
    ;
}

/// The details of staking pools: named fields per pool, which only the
/// pool's owner can write and anyone can read.
#[derive(Debug)]
pub struct PoolDetails {
    fields_by_pool: RecordStore,
}

impl View for PoolDetails {
    type V = Seq<Entry>;

    closed spec fn view(&self) -> Seq<Entry> {
        self.fields_by_pool@
    }
}

impl Default for PoolDetails {
    fn default() -> (r: PoolDetails)
        ensures
            r.wf(),
            r@ == Seq::<Entry>::empty(),
    {
        PoolDetails::new()
    }
}

impl PoolDetails {
    /// The invariant of the type: that of its record store.
    pub closed spec fn wf(&self) -> bool {
        self.fields_by_pool.wf()
    }

    /// What the invariant says of the store as a value: pools are distinct,
    /// and every pool has at least one field and finitely many.
    pub proof fn lemma_wf(&self)
        requires
            self.wf(),
        ensures
            crate::store::distinct_pools(self@),
            forall|i: int| 0 <= i < self@.len() ==> (#[trigger] self@[i]).1.dom().finite(),
            forall|i: int| 0 <= i < self@.len() ==> (#[trigger] self@[i]).1.len() > 0,
    {
        self.fields_by_pool.lemma_wf();
    }

    /// A system with no record.
    pub fn new() -> (r: PoolDetails)
        ensures
            r.wf(),
            r@ == Seq::<Entry>::empty(),
    {
        PoolDetails { fields_by_pool: RecordStore::new() }
    }

    /// Takes a request of `caller` to write `value` under `name` for
    /// `pool_id`. An empty or oversized argument is refused and names no
    /// verification request. Any other request is accepted: the result names
    /// the two verification requests to send and what to hand to
    /// [`PoolDetails::on_get_owner_id`] with their answers. Nothing is
    /// written here.
    pub fn update_field(
        &mut self,
        caller: String,
        pool_id: String,
        name: String,
        value: String,
    ) -> (r: Result<Dispatch, PoolError>)
        ensures
            *final(self) == *old(self),
            r is Ok <==> pool_id@.len() > 0 && 0 < name@.len() <= MAX_NAME_LEN && 0 < value@.len()
                <= MAX_VALUE_LEN,
            match r {
                Ok(d) => argument_fault(pool_id@, name@, value@) is None && d.is_for(
                    caller@,
                    pool_id@,
                    name@,
                    value@,
                ),
                Err(e) => argument_fault(pool_id@, name@, value@) matches Some(f) && e@
                    == Fault::InvalidArgument(f),
            },
    {
        request_update(caller, pool_id, name, value)
    }

    /// One page of the records, in the store's order: those from position
    /// `from_index` on, at most `limit` of them. A `limit` over 100 is
    /// refused; a `from_index` past the end gives an empty page.
    pub fn get_all_fields(&self, from_index: u64, limit: u64) -> (r: Result<
        Vec<PoolRecord>,
        PoolError,
    >)
        requires
            self.wf(),
        ensures
            limit > MAX_PAGE <==> r is Err,
            r matches Err(e) ==> e@ == Fault::InvalidArgument(ArgumentFault::LimitTooLarge),
            r matches Ok(page) ==> {
                &&& entries_of(page@) == page_of(self@, from_index as nat, limit as nat)
                &&& page@.len() == page_of(self@, from_index as nat, limit as nat).len()
                &&& page@.len() <= MAX_PAGE
                &&& forall|i: int| 0 <= i < page@.len() ==> (#[trigger] page@[i]).fields.wf()
            },
    {
        self.fields_by_pool.page(from_index, limit)
    }

    /// The number of pools that have at least one field.
    pub fn get_num_pools(&self) -> (r: u64)
        ensures
            r == self@.len(),
    {
        self.fields_by_pool.count()
    }

    /// The fields of `pool_id`, or `None` where the pool is unknown.
    pub fn get_fields_by_pool(&self, pool_id: String) -> (r: Option<FieldMap>)
        requires
            self.wf(),
        ensures
            match r {
                Some(f) => f.wf() && fields_of(self@, pool_id@) == Some(f@),
                None => fields_of(self@, pool_id@) is None,
            },
    {
        self.fields_by_pool.get(&pool_id)
    }

    /// The resolver: runs once both verification results are in, and is the
    /// only way to write.
    ///
    /// `predecessor_account_id` is who invoked it and `current_account_id`
    /// the system's own identity: unless they are equal nothing else is
    /// looked at. `is_whitelisted` and `owner_id` are the two results, `None`
    /// where a request did not come back with an answer. The other four
    /// arguments are those of the accepted request. The field is written if
    /// and only if nothing speaks against it; otherwise the store stays as
    /// it was and the error says what spoke against it.
    pub fn on_get_owner_id(
        &mut self,
        predecessor_account_id: String,
        current_account_id: String,
        is_whitelisted: Option<bool>,
        owner_id: Option<String>,
        current_user_account_id: String,
        pool_id: String,
        name: String,
        value: String,
    ) -> (r: Result<bool, PoolError>)
        requires
            old(self).wf(),
        ensures
            final(self).wf(),
            final(self)@ == resolved(
                old(self)@,
                predecessor_account_id@,
                current_account_id@,
                is_whitelisted,
                text_of(owner_id),
                current_user_account_id@,
                pool_id@,
                name@,
                value@,
            ),
            match r {
                Ok(done) => done && rejection(
                    predecessor_account_id@,
                    current_account_id@,
                    is_whitelisted,
                    text_of(owner_id),
                    current_user_account_id@,
                    pool_id@,
                ) is None,
                Err(e) => rejection(
                    predecessor_account_id@,
                    current_account_id@,
                    is_whitelisted,
                    text_of(owner_id),
                    current_user_account_id@,
                    pool_id@,
                ) == Some(e@),
            },
    {
        match authorize(
            &predecessor_account_id,
            &current_account_id,
            is_whitelisted,
            owner_id,
            &current_user_account_id,
            &pool_id,
        ) {
            Err(e) => Err(e),
            Ok(_) => {
                self.fields_by_pool.upsert(pool_id, name, value);
                Ok(true)
            },
        }
    }

    /// Runs a whole update against authorities that answer at once: the
    /// request is validated, the whitelist authority is asked about the
    /// pool and the pool about its owner, and the resolver decides on their
    /// answers.
    ///
    /// The field is written if and only if the arguments are valid, the
    /// whitelist authority approves the pool and the pool's owner is the
    /// caller. Otherwise the store stays as it was, and the error is the
    /// first of: the argument's fault, the pool not being whitelisted, the
    /// caller not being the owner.
    pub fn update_field_with<W: ExtWhitelist, P: ExtStakingPool>(
        &mut self,
        whitelist: &W,
        pool: &P,
        caller: String,
        pool_id: String,
        name: String,
        value: String,
    ) -> (r: Result<bool, PoolError>)
        requires
            old(self).wf(),
        ensures
            final(self).wf(),
            r is Ok <==> argument_fault(pool_id@, name@, value@) is None && whitelist.approves(
                pool_id@,
            ) && pool.owner() == caller@,
            match r {
                Ok(done) => done && final(self)@ == with_field(
                    old(self)@,
                    pool_id@,
                    name@,
                    value@,
                ),
                Err(e) => final(self)@ == old(self)@ && e@ == (match argument_fault(
                    pool_id@,
                    name@,
                    value@,
                ) {
                    Some(f) => Fault::InvalidArgument(f),
                    None => if !whitelist.approves(pool_id@) {
                        Fault::NotWhitelisted { pool_id: pool_id@ }
                    } else {
                        Fault::NotOwner { owner: pool.owner(), pool_id: pool_id@, caller: caller@ }
                    },
                }),
            },
    {
        match validate(&pool_id, &name, &value) {
            Err(f) => Err(PoolError::InvalidArgument(f)),
            Ok(_) => {
                let whitelisted = whitelist.is_whitelisted(pool_id.clone());
                let owner = pool.get_owner_id();
                let system = String::new();
                self.on_get_owner_id(
                    system.clone(),
                    system,
                    Some(whitelisted),
                    Some(owner),
                    caller,
                    pool_id,
                    name,
                    value,
                )
            },
        }
    }
}

} // verus!
