//! The record store and the lifecycle it enforces. Each address holds at
//! most one record; a record is created exactly once, stays owned by its
//! creator, and is only ever replaced whole — there is no partial update
//! and no deletion. The store stands for the host ledger's atomically
//! committed storage: every operation here either completes in full or
//! leaves the store untouched.

use vstd::prelude::*;
use vstd::pervasive::unreached;
use crate::auth::{authorize, authorized};
use crate::errors::ProtocolError;
use crate::identity::{Identity, KEY_BYTES, bytes_eq, copy_bytes};
use crate::address::DerivedAddress;
use crate::records::{
    RecordValue, RecordValueView, record_conforms, same_shape, schema_of, check_conforms,
    make_favorites_schema, make_stake_user_schema, lemma_favorites_budget, lemma_stake_user_budget,
    encoded_record, lemma_encoded_size_within_budget,
};
use crate::schema::{schema_size, size_of};

verus! {

/// The lifecycle stage of an existing record: created once, then replaced
/// in place any number of times.
#[derive(Clone, Copy, Debug, PartialEq, Eq, Structural)]
pub enum LifecycleState {
    /// The record was created and not yet replaced.
    Initialized,
    /// The record's value was replaced at least once.
    Mutated,
}

/// One allocated record: its address, its owner, the byte budget paid at
/// creation, its lifecycle stage, and its current value.
pub struct Entry {
    pub address: Vec<u8>,
    pub owner: Vec<u8>,
    pub space: u64,
    pub state: LifecycleState,
    pub value: RecordValue,
}

/// A well-formed entry: full-length keys, a conforming value, and exactly
/// the byte budget its schema was sized at.
pub open spec fn entry_wf(e: Entry) -> bool {
    &&& e.address@.len() == KEY_BYTES
    &&& e.owner@.len() == KEY_BYTES
    &&& record_conforms(e.value@)
    &&& e.space == schema_size(schema_of(e.value@))
}

/// A well-formed entry's persisted bytes never exceed the budget paid at
/// its creation.
pub proof fn lemma_entry_within_budget(e: Entry)
    requires
        entry_wf(e),
    ensures
        encoded_record(e.value@).len() <= e.space,
{
    lemma_encoded_size_within_budget(e.value@);
}

/// The first index at or after `i` whose entry sits at `addr`.
pub open spec fn find_from(entries: Seq<Entry>, addr: Seq<u8>, i: int) -> Option<int>
    decreases entries.len() - i,
{
    if i < 0 || i >= entries.len() {
        None
    } else if entries[i].address@ == addr {
        Some(i)
    } else {
        find_from(entries, addr, i + 1)
    }
}

/// The index of the record at `addr`, if one exists.
pub open spec fn find_entry(entries: Seq<Entry>, addr: Seq<u8>) -> Option<int> {
    find_from(entries, addr, 0)
}

/// Whether a record occupies `addr`.
pub open spec fn occupied(entries: Seq<Entry>, addr: Seq<u8>) -> bool {
    find_entry(entries, addr) is Some
}

/// What a search outcome means for the entries themselves.
pub proof fn lemma_find_from(entries: Seq<Entry>, addr: Seq<u8>, i: int)
    requires
        0 <= i <= entries.len(),
    ensures
        match find_from(entries, addr, i) {
            Some(j) => i <= j < entries.len() && entries[j].address@ == addr && forall|k: int|
                i <= k < j ==> (#[trigger] entries[k]).address@ != addr,
            None => forall|k: int| i <= k < entries.len() ==> (#[trigger] entries[k]).address@
                != addr,
        },
    decreases entries.len() - i,
{
    if i < entries.len() && entries[i].address@ != addr {
        lemma_find_from(entries, addr, i + 1);
    }
}

/// Two entry sequences with pointwise equal addresses are searched alike.
proof fn lemma_find_same_addresses(a: Seq<Entry>, b: Seq<Entry>, addr: Seq<u8>, i: int)
    requires
        a.len() == b.len(),
        forall|k: int| 0 <= k < a.len() ==> (#[trigger] a[k]).address@ == b[k].address@,
        0 <= i <= a.len(),
    ensures
        find_from(a, addr, i) == find_from(b, addr, i),
    decreases a.len() - i,
{
    if i < a.len() {
        lemma_find_same_addresses(a, b, addr, i + 1);
    }
}

/// The exact outcome of a creation attempt: occupied addresses are
/// refused first, then the payer's funds are held against the schema's
/// byte budget, then the value against its declared maxima.
pub open spec fn init_result(
    entries: Seq<Entry>,
    addr: Seq<u8>,
    payer_funds: u64,
    v: RecordValueView,
) -> Result<(), ProtocolError> {
    if occupied(entries, addr) {
        Err(ProtocolError::AlreadyInitialized)
    } else if payer_funds < schema_size(schema_of(v)) {
        Err(ProtocolError::InsufficientFunds)
    } else if !record_conforms(v) {
        Err(ProtocolError::ValueExceedsSchema)
    } else {
        Ok(())
    }
}

/// How a successful creation extends the entries: everything kept, plus
/// one new entry at `addr`, owned by `owner`, holding `v`, in the
/// `Initialized` stage, budgeted at its schema's size.
pub open spec fn initialized_at(
    pre: Seq<Entry>,
    post: Seq<Entry>,
    addr: Seq<u8>,
    owner: Seq<u8>,
    v: RecordValueView,
) -> bool {
    &&& post.len() == pre.len() + 1
    &&& forall|k: int| 0 <= k < pre.len() ==> post[k] == pre[k]
    &&& post.last().address@ == addr
    &&& post.last().owner@ == owner
    &&& post.last().space == schema_size(schema_of(v))
    &&& post.last().state == LifecycleState::Initialized
    &&& post.last().value@ == v
}

/// The exact outcome of a mutation attempt: a missing record is reported
/// first, then the requester is held against the owner, then the value
/// against the record's schema.
pub open spec fn mutate_result(
    entries: Seq<Entry>,
    addr: Seq<u8>,
    requester: Seq<u8>,
    signed: bool,
    v: RecordValueView,
) -> Result<(), ProtocolError> {
    match find_entry(entries, addr) {
        None => Err(ProtocolError::NotFound),
        Some(j) => if !authorized(entries[j].owner@, requester, signed) {
            Err(ProtocolError::Unauthorized)
        } else if !(same_shape(v, entries[j].value@) && record_conforms(v)) {
            Err(ProtocolError::ValueExceedsSchema)
        } else {
            Ok(())
        },
    }
}

/// How a successful mutation rewrites the entries: the record at `j` keeps
/// its address, owner and budget, moves to the `Mutated` stage and holds
/// exactly `v`; every other entry is untouched.
pub open spec fn mutated_at(pre: Seq<Entry>, post: Seq<Entry>, j: int, v: RecordValueView) -> bool {
    &&& 0 <= j < pre.len()
    &&& post.len() == pre.len()
    &&& forall|k: int| 0 <= k < pre.len() && k != j ==> post[k] == pre[k]
    &&& post[j].address@ == pre[j].address@
    &&& post[j].owner@ == pre[j].owner@
    &&& post[j].space == pre[j].space
    &&& post[j].state == LifecycleState::Mutated
    &&& post[j].value@ == v
}

/// The record store: at most one record per address. It stands for the
/// host's atomically committed storage; each method is one indivisible
/// transaction.
pub struct Ledger {
    entries: Vec<Entry>,
}

impl View for Ledger {
    type V = Seq<Entry>;

    closed spec fn view(&self) -> Seq<Entry> {
        self.entries@
    }
}

/// Values of the same shape are stored under the same schema.
pub proof fn lemma_same_shape_same_schema(a: RecordValueView, b: RecordValueView)
    requires
        same_shape(a, b),
    ensures
        schema_of(a) == schema_of(b),
{
}

/// Decides `same_shape` for two concrete values.
fn check_same_shape(a: &RecordValue, b: &RecordValue) -> (r: bool)
    ensures
        r == same_shape(a@, b@),
{
    match (a, b) {
        (RecordValue::Favorites(_), RecordValue::Favorites(_)) => true,
        (RecordValue::StakeUser(_), RecordValue::StakeUser(_)) => true,
        _ => false,
    }
}

/// The byte budget a value's schema demands of the payer.
fn required_space(value: &RecordValue) -> (r: u64)
    ensures
        r == schema_size(schema_of(value@)),
{
    let schema = match value {
        RecordValue::Favorites(_) => make_favorites_schema(),
        RecordValue::StakeUser(_) => make_stake_user_schema(),
    };
    proof {
        lemma_favorites_budget();
        lemma_stake_user_budget();
    }
    match size_of(&schema) {
        Ok(n) => n,
        Err(_) => unreached(),
    }
}

impl Ledger {
    /// A well-formed store: every entry well-formed, no address occupied
    /// twice.
    pub open spec fn wf(&self) -> bool {
        &&& forall|i: int| 0 <= i < self@.len() ==> entry_wf(#[trigger] self@[i])
        &&& forall|i: int, j: int|
            0 <= i < j < self@.len() ==> (#[trigger] self@[i]).address@ != (
            #[trigger] self@[j]).address@
    }

    /// An empty store: no address is occupied.
    pub fn new() -> (r: Ledger)
        ensures
            r.wf(),
            r@.len() == 0,
    {
        Ledger { entries: Vec::new() }
    }

    /// The position of the record at `address`, if any.
    fn find_index(&self, address: &Vec<u8>) -> (r: Option<usize>)
        ensures
            match r {
                Some(j) => find_entry(self@, address@) == Some(j as int),
                None => find_entry(self@, address@) is None,
            },
    {
        let mut i: usize = 0;
        while i < self.entries.len()
            invariant
                i <= self.entries.len(),
                find_from(self@, address@, 0) == find_from(self@, address@, i as int),
            decreases self.entries.len() - i,
        {
            if bytes_eq(&self.entries[i].address, address) {
                return Some(i);
            }
            i += 1;
        }
        None
    }

    /// Whether any record occupies `address`.
    pub fn is_occupied(&self, address: &DerivedAddress) -> (r: bool)
        ensures
            r == occupied(self@, address@),
    {
        match self.find_index(&address.bytes) {
            Some(_) => true,
            None => false,
        }
    }

    /// Creates the record at `address`: checks the address is free, that
    /// `payer_funds` cover the schema's byte budget and that `value` keeps
    /// its declared maxima, then — and only then — allocates the record,
    /// owned by `owner`, in the `Initialized` stage. A failed attempt
    /// reports its exact reason and leaves the store untouched.
    pub fn initialize(
        &mut self,
        address: DerivedAddress,
        owner: &Identity,
        payer_funds: u64,
        value: RecordValue,
    ) -> (r: Result<(), ProtocolError>)
        requires
            old(self).wf(),
            address.wf(),
            owner.wf(),
        ensures
            final(self).wf(),
            r == init_result(old(self)@, address@, payer_funds, value@),
            r is Err ==> final(self)@ == old(self)@,
            r is Ok ==> initialized_at(old(self)@, final(self)@, address@, owner@, value@),
    {
        match self.find_index(&address.bytes) {
            Some(_) => {
                return Err(ProtocolError::AlreadyInitialized);
            },
            None => {},
        }
        let space = required_space(&value);
        if payer_funds < space {
            return Err(ProtocolError::InsufficientFunds);
        }
        if !check_conforms(&value) {
            return Err(ProtocolError::ValueExceedsSchema);
        }
        proof {
            lemma_find_from(self@, address@, 0);
        }
        let entry = Entry {
            address: address.bytes,
            owner: copy_bytes(&owner.bytes),
            space,
            state: LifecycleState::Initialized,
            value,
        };
        self.entries.push(entry);
        Ok(())
    }

    /// Replaces the record at `address` whole: checks the record exists,
    /// that the request is signed by the record's owner, and that `value`
    /// matches the record's shape and keeps its declared maxima, then —
    /// and only then — installs `value` and moves the record to the
    /// `Mutated` stage. A failed attempt reports its exact reason and
    /// leaves the store untouched.
    pub fn mutate(
        &mut self,
        address: &DerivedAddress,
        requester: &Identity,
        requester_signed: bool,
        value: RecordValue,
    ) -> (r: Result<(), ProtocolError>)
        requires
            old(self).wf(),
        ensures
            final(self).wf(),
            r == mutate_result(old(self)@, address@, requester@, requester_signed, value@),
            r is Err ==> final(self)@ == old(self)@,
            r is Ok ==> match find_entry(old(self)@, address@) {
                Some(j) => mutated_at(old(self)@, final(self)@, j, value@),
                None => false,
            },
    {
        let j = match self.find_index(&address.bytes) {
            Some(j) => j,
            None => {
                return Err(ProtocolError::NotFound);
            },
        };
        proof {
            lemma_find_from(self@, address@, 0);
        }
        if !authorize(&self.entries[j].owner, requester, requester_signed) {
            return Err(ProtocolError::Unauthorized);
        }
        if !check_same_shape(&value, &self.entries[j].value) {
            return Err(ProtocolError::ValueExceedsSchema);
        }
        if !check_conforms(&value) {
            return Err(ProtocolError::ValueExceedsSchema);
        }
        proof {
            lemma_same_shape_same_schema(value@, self@[j as int].value@);
        }
        let new_entry = Entry {
            address: copy_bytes(&self.entries[j].address),
            owner: copy_bytes(&self.entries[j].owner),
            space: self.entries[j].space,
            state: LifecycleState::Mutated,
            value,
        };
        let slot = &mut self.entries[j];
        *slot = new_entry;
        Ok(())
    }

    /// Returns the record at `address` exactly as last written, or
    /// `NotFound` when no record occupies the address.
    pub fn read(&self, address: &DerivedAddress) -> (r: Result<&RecordValue, ProtocolError>)
        ensures
            match find_entry(self@, address@) {
                Some(j) => r matches Ok(v) && v@ == self@[j].value@,
                None => r == Err::<&RecordValue, _>(ProtocolError::NotFound),
            },
    {
        match self.find_index(&address.bytes) {
            Some(j) => {
                proof {
                    lemma_find_from(self@, address@, 0);
                }
                Ok(&self.entries[j].value)
            },
            None => Err(ProtocolError::NotFound),
        }
    }
}

/// Creation is at most once: at an occupied address every creation
/// attempt fails with `AlreadyInitialized`, whatever funds and value come
/// with it — and a failed attempt leaves the store unchanged.
pub proof fn lemma_initialize_at_most_once(
    entries: Seq<Entry>,
    addr: Seq<u8>,
    payer_funds: u64,
    v: RecordValueView,
)
    requires
        occupied(entries, addr),
    ensures
        init_result(entries, addr, payer_funds, v) == Err::<(), ProtocolError>(
            ProtocolError::AlreadyInitialized,
        ),
{
}

/// A successful creation occupies its address, so any later creation
/// there fails.
pub proof fn lemma_initialized_occupies(
    pre: Seq<Entry>,
    post: Seq<Entry>,
    addr: Seq<u8>,
    owner: Seq<u8>,
    v: RecordValueView,
)
    requires
        initialized_at(pre, post, addr, owner, v),
    ensures
        occupied(post, addr),
{
    lemma_find_from(post, addr, 0);
    if find_entry(post, addr) is None {
        assert(post[post.len() - 1].address@ != addr);
    }
}

/// Only the owner mutates: a request that is unsigned, or made by any
/// identity other than the record's owner, fails with `Unauthorized` —
/// and a failed attempt leaves the store unchanged.
pub proof fn lemma_mutate_requires_owner(
    entries: Seq<Entry>,
    addr: Seq<u8>,
    requester: Seq<u8>,
    signed: bool,
    v: RecordValueView,
)
    requires
        match find_entry(entries, addr) {
            Some(j) => !authorized(entries[j].owner@, requester, signed),
            None => false,
        },
    ensures
        mutate_result(entries, addr, requester, signed, v) == Err::<(), ProtocolError>(
            ProtocolError::Unauthorized,
        ),
{
}

/// The owner's signed, conforming, shape-keeping replacement always
/// succeeds.
pub proof fn lemma_mutate_by_owner_succeeds(
    entries: Seq<Entry>,
    addr: Seq<u8>,
    requester: Seq<u8>,
    signed: bool,
    v: RecordValueView,
)
    requires
        match find_entry(entries, addr) {
            Some(j) => authorized(entries[j].owner@, requester, signed) && same_shape(
                v,
                entries[j].value@,
            ) && record_conforms(v),
            None => false,
        },
    ensures
        mutate_result(entries, addr, requester, signed, v) == Ok::<(), ProtocolError>(()),
{
}

/// A read after a replacement sees exactly the replacing value: the
/// record is found at the same position and holds `v` whole, no field of
/// the previous value surviving.
pub proof fn lemma_read_back(
    pre: Seq<Entry>,
    post: Seq<Entry>,
    j: int,
    addr: Seq<u8>,
    v: RecordValueView,
)
    requires
        find_entry(pre, addr) == Some(j),
        mutated_at(pre, post, j, v),
    ensures
        find_entry(post, addr) == Some(j),
        post[j].value@ == v,
{
    lemma_find_from(pre, addr, 0);
    assert(forall|k: int| 0 <= k < pre.len() ==> (#[trigger] pre[k]).address@ == post[k].address@);
    lemma_find_same_addresses(pre, post, addr, 0);
}

} // verus!
