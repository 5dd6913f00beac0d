//! The set of tokens that may pass, shared between one writer and its readers.
//!
//! The identifiers live in a concurrent hash set. [`AuthorizationSet`] is the
//! only handle that changes it, and there is one such handle per set, so what
//! the writer knows of the members stays true between its own calls. Any
//! number of [`AuthorizationReader`] handles look identifiers up while the
//! writer works; each lookup sees the set as it is at that moment.

use crate::identifier::{listed_in, OneWireId};
use dashmap::DashSet;
use std::sync::Arc;
use vstd::prelude::*;

verus! {

/// `dashmap::DashSet`, a concurrent hash set. Nothing inside it is visible
/// here: what it holds is known through [`held`] alone.
#[verifier::external_type_specification]
#[verifier::external_body]
#[verifier::reject_recursive_types(K)]
#[verifier::reject_recursive_types(S)]
pub struct ExDashSet<K, S>(DashSet<K, S>);

/// The identifiers that a `DashSet` holds.
pub uninterp spec fn held(set: DashSet<OneWireId>) -> Set<OneWireId>;

/// `DashSet::new`: a set that holds nothing.
#[verifier::external_body]
fn set_new() -> (set: DashSet<OneWireId>)
    ensures
        held(set) == Set::<OneWireId>::empty(),
{
    DashSet::new()
}

/// `DashSet::contains`, called by the writer: whether the set holds `id`.
#[verifier::external_body]
fn set_contains(set: &Arc<DashSet<OneWireId>>, id: &OneWireId) -> (found: bool)
    ensures
        found == held(**set).contains(*id),
{
    set.contains(id)
}

/// `DashSet::insert`: adds `id`, and returns whether it was absent before.
/// It does not panic.
#[verifier::external_body]
fn set_insert(set: &mut Arc<DashSet<OneWireId>>, id: OneWireId) -> (fresh: bool)
    ensures
        held(**final(set)) == held(**old(set)).insert(id),
        fresh == !held(**old(set)).contains(id),
    no_unwind
{
    set.insert(id)
}

/// `DashSet::retain`, with membership in `keep` as the predicate: the
/// identifiers that occur in `keep` stay, the others leave. It does not
/// panic.
#[verifier::external_body]
fn set_retain(set: &mut Arc<DashSet<OneWireId>>, keep: &Vec<OneWireId>)
    ensures
        held(**final(set)) == held(**old(set)).intersect(keep@.to_set()),
    no_unwind
{
    set.retain(|id| listed_in(keep, id))
}

/// `DashSet::len`: the number of identifiers held.
#[verifier::external_body]
fn set_len(set: &Arc<DashSet<OneWireId>>) -> (n: usize)
    ensures
        n == held(**set).len(),
{
    set.len()
}

/// `DashSet::iter`: every identifier held, once each, in an order that is
/// left open.
#[verifier::external_body]
fn set_items(set: &Arc<DashSet<OneWireId>>) -> (items: Vec<OneWireId>)
    ensures
        items@.no_duplicates(),
        items@.to_set() == held(**set),
{
    set.iter().map(|id| *id).collect()
}

/// `DashSet::contains`, called by a reader while the writer may be at
/// work: nothing is promised of the answer.
#[verifier::external_body]
fn set_glimpse(set: &Arc<DashSet<OneWireId>>, id: &OneWireId) -> (found: bool) {
    set.contains(id)
}

/// The writer's handle on the set of authorized identifiers.
pub struct AuthorizationSet {
    shared: Arc<DashSet<OneWireId>>,
}

/// A reader's handle on a set that an [`AuthorizationSet`] writes.
pub struct AuthorizationReader {
    shared: Arc<DashSet<OneWireId>>,
}

impl AuthorizationSet {
    /// The identifiers that are authorized.
    pub closed spec fn members(&self) -> Set<OneWireId> {
        held(*self.shared)
    }

    /// The members are finitely many.
    #[verifier::type_invariant]
    spec fn finite(&self) -> bool {
        self.members().finite()
    }

    /// A set with no member.
    pub fn new() -> (set: Self)
        ensures
            set.members() == Set::<OneWireId>::empty(),
    {
        AuthorizationSet { shared: Arc::new(set_new()) }
    }

    /// Whether `id` is authorized.
    pub fn contains(&self, id: &OneWireId) -> (listed: bool)
        ensures
            listed == self.members().contains(*id),
    {
        set_contains(&self.shared, id)
    }

    /// Authorizes `id`; returns whether it was not authorized before.
    pub fn insert(&mut self, id: OneWireId) -> (fresh: bool)
        ensures
            final(self).members() == old(self).members().insert(id),
            fresh == !old(self).members().contains(id),
    {
        proof {
            use_type_invariant(&*self);
        }
        set_insert(&mut self.shared, id)
    }

    /// Drops every member that does not occur in `desired`.
    pub fn retain_listed(&mut self, desired: &Vec<OneWireId>)
        ensures
            final(self).members() == old(self).members().intersect(desired@.to_set()),
    {
        proof {
            use_type_invariant(&*self);
        }
        set_retain(&mut self.shared, desired)
    }

    /// The number of members.
    pub fn len(&self) -> (n: usize)
        ensures
            self.members().finite(),
            n == self.members().len(),
    {
        proof {
            use_type_invariant(self);
        }
        set_len(&self.shared)
    }

    /// The members, once each, in an order that is left open.
    pub fn to_vec(&self) -> (ids: Vec<OneWireId>)
        ensures
            ids@.no_duplicates(),
            ids@.to_set() == self.members(),
    {
        set_items(&self.shared)
    }

    /// A handle for a reader that runs beside this writer: a second handle
    /// on this very set, which holds the present members when it is made.
    pub fn reader(&self) -> (reader: AuthorizationReader)
        ensures
            reader.members_when_made() == self.members(),
    {
        AuthorizationReader { shared: self.shared.clone() }
    }
}

impl AuthorizationReader {
    /// The members that the set held when this reader was made. The writer
    /// goes on changing the set, and a lookup answers for the set as it is
    /// when the lookup is made.
    pub closed spec fn members_when_made(&self) -> Set<OneWireId> {
        held(*self.shared)
    }

    /// Whether `id` is authorized at the moment of the call. The writer may
    /// be changing the set at that moment, so the answer is not bound to any
    /// set that the caller can name.
    pub fn contains(&self, id: &OneWireId) -> (listed: bool) {
        set_glimpse(&self.shared, id)
    }
}

} // verus!
