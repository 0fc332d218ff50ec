//! The storage contract: per-entity create / delete / get operations plus
//! the two relationship queries, stated over map and sequence models. Any
//! backing store qualifies if it meets these contracts.
//!
//! A store may fail at any moment with an opaque fault (a network or driver
//! error); the contracts therefore pin the successful outcomes exactly and
//! say, of every failure, how the store's state may relate to the old one.
//! A store whose `reliable()` holds never faults, so on such a store every
//! operation's outcome is fully determined.

use vstd::prelude::*;

use crate::entities::group::{Group, GroupID, GroupView};
use crate::entities::payment::{Payment, PaymentID, PaymentView};
use crate::entities::user::{User, UserID, UserView};

verus! {

/// A failure of the backing store.
#[derive(Debug, Clone, Copy, PartialEq, Eq, Structural)]
pub enum StoreError {
    /// A delete was asked of an identifier that is not present.
    NotFound,
    /// An opaque store fault (driver error, broken connection, duplicate
    /// key on insert); the engine propagates it unchanged.
    Fault,
}

/// Some element of `s` carries the group identifier `id`.
pub open spec fn contains_group_id(s: Seq<Group>, id: Seq<char>) -> bool {
    exists|a: int| 0 <= a < s.len() && (#[trigger] s[a])@.id == id
}

/// Some element of `s` carries the payment identifier `id`.
pub open spec fn contains_payment_id(s: Seq<Payment>, id: Seq<char>) -> bool {
    exists|a: int| 0 <= a < s.len() && (#[trigger] s[a])@.id == id
}

/// No payment inside `m` references group `gid`.
pub open spec fn no_payments_of_group(m: Map<Seq<char>, PaymentView>, gid: Seq<char>) -> bool {
    forall|k: Seq<char>| #[trigger] m.contains_key(k) ==> m[k].group != gid
}

/// Appending keeps every identifier already listed and lists the new one.
pub proof fn lemma_contains_group_id_push(s: Seq<Group>, g: Group, id: Seq<char>)
    ensures
        contains_group_id(s, id) ==> contains_group_id(s.push(g), id),
        contains_group_id(s.push(g), g@.id),
        !contains_group_id(s.push(g), id) ==> !contains_group_id(s, id) && g@.id != id,
{
    if contains_group_id(s, id) {
        let a = choose|a: int| 0 <= a < s.len() && (#[trigger] s[a])@.id == id;
        assert(s.push(g)[a] == s[a]);
    }
    assert(s.push(g)[s.len() as int] == g);
    if contains_group_id(s, id) || g@.id == id {
        assert(contains_group_id(s.push(g), id));
    }
}

/// Appending keeps every identifier already listed and lists the new one.
pub proof fn lemma_contains_payment_id_push(s: Seq<Payment>, p: Payment, id: Seq<char>)
    ensures
        contains_payment_id(s, id) ==> contains_payment_id(s.push(p), id),
        contains_payment_id(s.push(p), p@.id),
        !contains_payment_id(s.push(p), id) ==> !contains_payment_id(s, id) && p@.id != id,
{
    if contains_payment_id(s, id) {
        let a = choose|a: int| 0 <= a < s.len() && (#[trigger] s[a])@.id == id;
        assert(s.push(p)[a] == s[a]);
    }
    assert(s.push(p)[s.len() as int] == p);
    if contains_payment_id(s, id) || p@.id == id {
        assert(contains_payment_id(s.push(p), id));
    }
}

/// The storage contract. Entities live in three collections keyed by their
/// identifier strings; `wf` is the store's own well-formedness, which every
/// operation preserves, and `reliable` marks a store that never faults.
pub trait Repository: Sized {
    /// The groups collection, keyed by group identifier.
    spec fn groups(&self) -> Map<Seq<char>, GroupView>;

    /// The payments collection, keyed by payment identifier.
    spec fn payments(&self) -> Map<Seq<char>, PaymentView>;

    /// The users collection, keyed by user identifier.
    spec fn users(&self) -> Map<Seq<char>, UserView>;

    /// The store's internal well-formedness.
    spec fn wf(&self) -> bool;

    /// A reliable store never reports `StoreError::Fault`.
    spec fn reliable(&self) -> bool;

    /// Persist a freshly created group and hand it back unchanged.
    fn create_group(&mut self, group: Group) -> (r: Result<Group, StoreError>)
        requires
            old(self).wf(),
        ensures
            final(self).wf(),
            final(self).reliable() == old(self).reliable(),
            final(self).payments() == old(self).payments(),
            final(self).users() == old(self).users(),
            match r {
                Ok(g) => {
                    &&& g@ == group@
                    &&& !old(self).groups().contains_key(group@.id)
                    &&& final(self).groups() == old(self).groups().insert(group@.id, group@)
                },
                Err(e) => {
                    &&& e is Fault
                    &&& final(self).groups() == old(self).groups() || final(self).groups() == old(self).groups().insert(group@.id, group@)
                    &&& old(self).reliable() ==> old(self).groups().contains_key(group@.id)
                        && final(self).groups() == old(self).groups()
                },
            },
    ;

    /// Delete the group with the given identifier; deleting an absent
    /// identifier is an error, never a silent success.
    fn delete_group(&mut self, id: &GroupID) -> (r: Result<(), StoreError>)
        requires
            old(self).wf(),
        ensures
            final(self).wf(),
            final(self).reliable() == old(self).reliable(),
            final(self).payments() == old(self).payments(),
            final(self).users() == old(self).users(),
            match r {
                Ok(()) => {
                    &&& old(self).groups().contains_key(id@)
                    &&& final(self).groups() == old(self).groups().remove(id@)
                },
                Err(e) => {
                    &&& final(self).groups() == old(self).groups() || final(self).groups() == old(self).groups().remove(id@)
                    &&& e is NotFound ==> !old(self).groups().contains_key(id@) && final(self).groups() == old(self).groups()
                    &&& old(self).reliable() ==> e is NotFound
                },
            },
    ;

    /// Look a group up by its identifier; an absent identifier is an
    /// explicit absence, never an error.
    fn get_group(&self, id: &GroupID) -> (r: Result<Option<Group>, StoreError>)
        requires
            self.wf(),
        ensures
            match r {
                Ok(Some(g)) => self.groups().contains_key(id@) && g@ == self.groups()[id@]
                    && g@.id == id@,
                Ok(None) => !self.groups().contains_key(id@),
                Err(_) => !self.reliable(),
            },
    ;

    /// The groups the given user participates in, each exactly once:
    /// every listed group is a current entry with the user among its
    /// participants, and every such entry is listed.
    fn get_groups_by_user(&self, id: &UserID) -> (r: Result<Vec<Group>, StoreError>)
        requires
            self.wf(),
        ensures
            match r {
                Ok(gs) => {
                    &&& forall|i: int|
                        0 <= i < gs@.len() ==> {
                            &&& self.groups().contains_key((#[trigger] gs@[i])@.id)
                            &&& self.groups()[gs@[i]@.id] == gs@[i]@
                            &&& gs@[i]@.participants.contains(id@)
                        }
                    &&& forall|k: Seq<char>|
                        #[trigger] self.groups().contains_key(k)
                            && self.groups()[k].participants.contains(id@) ==> contains_group_id(
                            gs@,
                            k,
                        )
                    &&& forall|i: int, j: int|
                        0 <= i < j < gs@.len() ==> (#[trigger] gs@[i])@.id != (#[trigger] gs@[j])@.id
                },
                Err(_) => !self.reliable(),
            },
    ;

    /// Persist a freshly created payment and hand it back unchanged.
    fn create_payment(&mut self, payment: Payment) -> (r: Result<Payment, StoreError>)
        requires
            old(self).wf(),
        ensures
            final(self).wf(),
            final(self).reliable() == old(self).reliable(),
            final(self).groups() == old(self).groups(),
            final(self).users() == old(self).users(),
            match r {
                Ok(p) => {
                    &&& p@ == payment@
                    &&& !old(self).payments().contains_key(payment@.id)
                    &&& final(self).payments() == old(self).payments().insert(payment@.id, payment@)
                },
                Err(e) => {
                    &&& e is Fault
                    &&& final(self).payments() == old(self).payments() || final(self).payments()
                        == old(self).payments().insert(payment@.id, payment@)
                    &&& old(self).reliable() ==> old(self).payments().contains_key(payment@.id)
                        && final(self).payments() == old(self).payments()
                },
            },
    ;

    /// Delete the payment with the given identifier; deleting an absent
    /// identifier is an error, never a silent success.
    fn delete_payment(&mut self, id: &PaymentID) -> (r: Result<(), StoreError>)
        requires
            old(self).wf(),
        ensures
            final(self).wf(),
            final(self).reliable() == old(self).reliable(),
            final(self).groups() == old(self).groups(),
            final(self).users() == old(self).users(),
            match r {
                Ok(()) => {
                    &&& old(self).payments().contains_key(id@)
                    &&& final(self).payments() == old(self).payments().remove(id@)
                },
                Err(e) => {
                    &&& final(self).payments() == old(self).payments() || final(self).payments()
                        == old(self).payments().remove(id@)
                    &&& e is NotFound ==> !old(self).payments().contains_key(id@) && final(self).payments() == old(self).payments()
                    &&& old(self).reliable() ==> e is NotFound
                },
            },
    ;

    /// Look a payment up by its identifier; an absent identifier is an
    /// explicit absence, never an error.
    fn get_payment(&self, id: &PaymentID) -> (r: Result<Option<Payment>, StoreError>)
        requires
            self.wf(),
        ensures
            match r {
                Ok(Some(p)) => self.payments().contains_key(id@) && p@ == self.payments()[id@]
                    && p@.id == id@,
                Ok(None) => !self.payments().contains_key(id@),
                Err(_) => !self.reliable(),
            },
    ;

    /// The payments of the given group, each exactly once: every listed
    /// payment is a current entry referencing the group, and every such
    /// entry is listed.
    fn get_payments_by_group(&self, group: &GroupID) -> (r: Result<Vec<Payment>, StoreError>)
        requires
            self.wf(),
        ensures
            match r {
                Ok(ps) => {
                    &&& forall|i: int|
                        0 <= i < ps@.len() ==> {
                            &&& self.payments().contains_key((#[trigger] ps@[i])@.id)
                            &&& self.payments()[ps@[i]@.id] == ps@[i]@
                            &&& ps@[i]@.group == group@
                        }
                    &&& forall|k: Seq<char>|
                        #[trigger] self.payments().contains_key(k) && self.payments()[k].group
                            == group@ ==> contains_payment_id(ps@, k)
                    &&& forall|i: int, j: int|
                        0 <= i < j < ps@.len() ==> (#[trigger] ps@[i])@.id != (#[trigger] ps@[j])@.id
                },
                Err(_) => !self.reliable(),
            },
    ;

    /// Persist a freshly created user and hand it back unchanged.
    fn create_user(&mut self, user: User) -> (r: Result<User, StoreError>)
        requires
            old(self).wf(),
        ensures
            final(self).wf(),
            final(self).reliable() == old(self).reliable(),
            final(self).groups() == old(self).groups(),
            final(self).payments() == old(self).payments(),
            match r {
                Ok(u) => {
                    &&& u@ == user@
                    &&& !old(self).users().contains_key(user@.id)
                    &&& final(self).users() == old(self).users().insert(user@.id, user@)
                },
                Err(e) => {
                    &&& e is Fault
                    &&& final(self).users() == old(self).users() || final(self).users() == old(self).users().insert(user@.id, user@)
                    &&& old(self).reliable() ==> old(self).users().contains_key(user@.id) && final(self).users() == old(self).users()
                },
            },
    ;

    /// Delete the user with the given identifier; deleting an absent
    /// identifier is an error, never a silent success.
    fn delete_user(&mut self, id: &UserID) -> (r: Result<(), StoreError>)
        requires
            old(self).wf(),
        ensures
            final(self).wf(),
            final(self).reliable() == old(self).reliable(),
            final(self).groups() == old(self).groups(),
            final(self).payments() == old(self).payments(),
            match r {
                Ok(()) => {
                    &&& old(self).users().contains_key(id@)
                    &&& final(self).users() == old(self).users().remove(id@)
                },
                Err(e) => {
                    &&& final(self).users() == old(self).users() || final(self).users() == old(self).users().remove(id@)
                    &&& e is NotFound ==> !old(self).users().contains_key(id@) && final(self).users() == old(self).users()
                    &&& old(self).reliable() ==> e is NotFound
                },
            },
    ;

    /// Look a user up by its identifier; an absent identifier is an
    /// explicit absence, never an error.
    fn get_user(&self, id: &UserID) -> (r: Result<Option<User>, StoreError>)
        requires
            self.wf(),
        ensures
            match r {
                Ok(Some(u)) => self.users().contains_key(id@) && u@ == self.users()[id@]
                    && u@.id == id@,
                Ok(None) => !self.users().contains_key(id@),
                Err(_) => !self.reliable(),
            },
    ;
}

} // verus!
