//! The authorization-aware use-case engine: one operation per user-facing
//! action. Each operation validates the caller's `AuthState` against the
//! target resource before touching the store, and composes several store
//! calls where one action spans several entities (the cascading group
//! delete).
//!
//! Authority is always re-derived by fetching the owning group at decision
//! time, never cached. An unauthenticated caller always sees `UnAuthorized`,
//! whether or not the resource exists; `NotFound` is disclosed only to
//! callers entitled to a definitive answer.

use vstd::prelude::*;

use crate::entities::auth::AuthState;
use crate::entities::group::{Group, GroupID, GroupView};
use crate::entities::payment::{Payment, PaymentID, PaymentView};
use crate::entities::user::{User, UserID, UserView};
use crate::repositories::{contains_group_id, contains_payment_id, no_payments_of_group, Repository, StoreError};

verus! {

/// A failure of a use-case operation.
#[derive(Debug, Clone, Copy, PartialEq, Eq, Structural)]
pub enum UseCaseError {
    /// The target exists but the caller is not entitled to a definite
    /// answer about it, or the caller presented no verified identity.
    UnAuthorized,
    /// The target does not exist; said only once authority is settled.
    NotFound,
    /// A store failure, propagated unchanged.
    Store(StoreError),
}

/// Whether `sub` is a participant of the group.
pub open spec fn member(g: GroupView, sub: Seq<char>) -> bool {
    g.participants.contains(sub)
}

/// Payments may only have been removed, and only those of group `gid`.
pub open spec fn payments_shrunk_within(
    old_m: Map<Seq<char>, PaymentView>,
    new_m: Map<Seq<char>, PaymentView>,
    gid: Seq<char>,
) -> bool {
    &&& forall|k: Seq<char>| #[trigger]
        new_m.contains_key(k) ==> old_m.contains_key(k) && new_m[k] == old_m[k]
    &&& forall|k: Seq<char>| #[trigger]
        old_m.contains_key(k) && old_m[k].group != gid ==> new_m.contains_key(k)
}

/// The use-case engine over a pluggable store.
pub struct UseCase<R> {
    pub repository: R,
}

impl<R: Repository> UseCase<R> {
    pub fn new(repository: R) -> (u: UseCase<R>)
        ensures
            u.repository == repository,
    {
        UseCase { repository }
    }

    /// Create a group titled `title`; the caller becomes its sole
    /// participant.
    pub fn create_group(&mut self, title: String, auth: &AuthState) -> (r: Result<
        Group,
        UseCaseError,
    >)
        requires
            old(self).repository.wf(),
        ensures
            final(self).repository.wf(),
            final(self).repository.reliable() == old(self).repository.reliable(),
            final(self).repository.payments() == old(self).repository.payments(),
            final(self).repository.users() == old(self).repository.users(),
            match r {
                Ok(g) => {
                    &&& auth@.is_authorized()
                    &&& g@.title == title@
                    &&& g@.participants == seq![auth@.subject()]
                    &&& !old(self).repository.groups().contains_key(g@.id)
                    &&& final(self).repository.groups() == old(self).repository.groups().insert(
                        g@.id,
                        g@,
                    )
                },
                Err(UseCaseError::UnAuthorized) => {
                    &&& !auth@.is_authorized()
                    &&& final(self).repository.groups() == old(self).repository.groups()
                },
                Err(UseCaseError::NotFound) => false,
                Err(UseCaseError::Store(_)) => {
                    &&& auth@.is_authorized()
                    &&& (final(self).repository.groups() == old(self).repository.groups() || exists|gv: GroupView|
                        gv.participants == seq![auth@.subject()] && gv.title == title@ && final(self).repository.groups() == old(self).repository.groups().insert(gv.id, gv))
                    &&& old(self).repository.reliable() ==> final(self).repository.groups() == old(self).repository.groups() && (exists|gv: GroupView|
                        gv.participants == seq![auth@.subject()] && gv.title == title@ && old(self).repository.groups().contains_key(gv.id))
                },
            },
    {
        match auth {
            AuthState::Authorized(claims) => {
                let group = Group::new(title, claims);
                let ghost gv = group@;
                match self.repository.create_group(group) {
                    Ok(g) => Ok(g),
                    Err(e) => {
                        proof {
                            assert(gv.participants == seq![auth@.subject()]);
                            assert(gv.title == title@);
                            if self.repository.groups() != old(self).repository.groups() {
                                assert(self.repository.groups() == old(self).repository.groups().insert(gv.id, gv));
                            }
                            if old(self).repository.reliable() {
                                assert(old(self).repository.groups().contains_key(gv.id));
                            }
                        }
                        Err(UseCaseError::Store(e))
                    },
                }
            },
            AuthState::UnAuthorized => Err(UseCaseError::UnAuthorized),
        }
    }

    /// Look a group up, disclosing it only to its participants; absence is
    /// an explicit `None`, disclosed only to an authenticated caller.
    pub fn get_group_opt(&self, id: &GroupID, auth: &AuthState) -> (r: Result<
        Option<Group>,
        UseCaseError,
    >)
        requires
            self.repository.wf(),
        ensures
            match r {
                Ok(Some(g)) => {
                    &&& auth@.is_authorized()
                    &&& self.repository.groups().contains_key(id@)
                    &&& g@ == self.repository.groups()[id@]
                    &&& member(g@, auth@.subject())
                },
                Ok(None) => auth@.is_authorized() && !self.repository.groups().contains_key(id@),
                Err(UseCaseError::UnAuthorized) => !auth@.is_authorized() || (
                self.repository.groups().contains_key(id@) && !member(
                    self.repository.groups()[id@],
                    auth@.subject(),
                )),
                Err(UseCaseError::NotFound) => false,
                Err(UseCaseError::Store(_)) => auth@.is_authorized()
                    && !self.repository.reliable(),
            },
    {
        match auth {
            AuthState::Authorized(claims) => {
                match self.repository.get_group(id) {
                    Ok(Some(group)) => {
                        if group.has_participant(&claims.sub) {
                            Ok(Some(group))
                        } else {
                            Err(UseCaseError::UnAuthorized)
                        }
                    },
                    Ok(None) => Ok(None),
                    Err(e) => Err(UseCaseError::Store(e)),
                }
            },
            AuthState::UnAuthorized => Err(UseCaseError::UnAuthorized),
        }
    }

    /// Look a group up, disclosing it only to its participants; absence is
    /// `NotFound`.
    pub fn get_group(&self, id: &GroupID, auth: &AuthState) -> (r: Result<Group, UseCaseError>)
        requires
            self.repository.wf(),
        ensures
            match r {
                Ok(g) => {
                    &&& auth@.is_authorized()
                    &&& self.repository.groups().contains_key(id@)
                    &&& g@ == self.repository.groups()[id@]
                    &&& member(g@, auth@.subject())
                },
                Err(UseCaseError::UnAuthorized) => !auth@.is_authorized() || (
                self.repository.groups().contains_key(id@) && !member(
                    self.repository.groups()[id@],
                    auth@.subject(),
                )),
                Err(UseCaseError::NotFound) => auth@.is_authorized()
                    && !self.repository.groups().contains_key(id@),
                Err(UseCaseError::Store(_)) => auth@.is_authorized()
                    && !self.repository.reliable(),
            },
    {
        match self.get_group_opt(id, auth) {
            Ok(Some(g)) => Ok(g),
            Ok(None) => Err(UseCaseError::NotFound),
            Err(e) => Err(e),
        }
    }

    /// Whether the caller is authenticated and a participant of the group;
    /// any failure along the way counts as no authority.
    pub fn have_authority_group(&self, id: &GroupID, auth: &AuthState) -> (r: bool)
        requires
            self.repository.wf(),
        ensures
            r ==> auth@.is_authorized() && self.repository.groups().contains_key(id@) && member(
                self.repository.groups()[id@],
                auth@.subject(),
            ),
            self.repository.reliable() ==> r == (auth@.is_authorized()
                && self.repository.groups().contains_key(id@) && member(
                self.repository.groups()[id@],
                auth@.subject(),
            )),
    {
        if let AuthState::Authorized(claims) = auth {
            if let Ok(Some(group)) = self.repository.get_group(id) {
                return group.has_participant(&claims.sub);
            }
        }
        false
    }

    /// Every group the caller participates in.
    pub fn get_groups_by_user(&self, auth: &AuthState) -> (r: Result<Vec<Group>, UseCaseError>)
        requires
            self.repository.wf(),
        ensures
            match r {
                Ok(gs) => {
                    &&& auth@.is_authorized()
                    &&& forall|i: int|
                        0 <= i < gs@.len() ==> {
                            &&& self.repository.groups().contains_key((#[trigger] gs@[i])@.id)
                            &&& self.repository.groups()[gs@[i]@.id] == gs@[i]@
                            &&& member(gs@[i]@, auth@.subject())
                        }
                    &&& forall|k: Seq<char>|
                        #[trigger] self.repository.groups().contains_key(k) && member(
                            self.repository.groups()[k],
                            auth@.subject(),
                        ) ==> contains_group_id(gs@, k)
                    &&& forall|i: int, j: int|
                        0 <= i < j < gs@.len() ==> (#[trigger] gs@[i])@.id != (#[trigger] gs@[j])@.id
                },
                Err(UseCaseError::UnAuthorized) => !auth@.is_authorized(),
                Err(UseCaseError::NotFound) => false,
                Err(UseCaseError::Store(_)) => auth@.is_authorized()
                    && !self.repository.reliable(),
            },
    {
        match auth {
            AuthState::Authorized(claims) => {
                let uid = UserID(claims.sub.clone());
                match self.repository.get_groups_by_user(&uid) {
                    Ok(gs) => Ok(gs),
                    Err(e) => Err(UseCaseError::Store(e)),
                }
            },
            AuthState::UnAuthorized => Err(UseCaseError::UnAuthorized),
        }
    }

    /// Delete a group the caller participates in, first deleting every
    /// payment that references it; the group itself is deleted only after
    /// the whole cascade went through.
    pub fn delete_group(&mut self, id: &GroupID, auth: &AuthState) -> (r: Result<
        GroupID,
        UseCaseError,
    >)
        requires
            old(self).repository.wf(),
        ensures
            final(self).repository.wf(),
            final(self).repository.reliable() == old(self).repository.reliable(),
            final(self).repository.users() == old(self).repository.users(),
            match r {
                Ok(gid) => {
                    &&& gid@ == id@
                    &&& auth@.is_authorized()
                    &&& old(self).repository.groups().contains_key(id@)
                    &&& member(old(self).repository.groups()[id@], auth@.subject())
                    &&& final(self).repository.groups() == old(self).repository.groups().remove(
                        id@,
                    )
                    &&& payments_shrunk_within(
                        old(self).repository.payments(),
                        final(self).repository.payments(),
                        id@,
                    )
                    &&& no_payments_of_group(final(self).repository.payments(), id@)
                },
                Err(UseCaseError::UnAuthorized) => {
                    &&& !auth@.is_authorized() || (old(self).repository.groups().contains_key(id@)
                        && !member(old(self).repository.groups()[id@], auth@.subject()))
                    &&& final(self).repository.groups() == old(self).repository.groups()
                    &&& final(self).repository.payments() == old(self).repository.payments()
                },
                Err(UseCaseError::NotFound) => {
                    &&& auth@.is_authorized()
                    &&& !old(self).repository.groups().contains_key(id@)
                    &&& final(self).repository.groups() == old(self).repository.groups()
                    &&& final(self).repository.payments() == old(self).repository.payments()
                },
                Err(UseCaseError::Store(_)) => {
                    &&& auth@.is_authorized()
                    &&& !old(self).repository.reliable()
                    &&& payments_shrunk_within(
                        old(self).repository.payments(),
                        final(self).repository.payments(),
                        id@,
                    )
                    &&& (final(self).repository.groups() == old(self).repository.groups() || {
                        &&& final(self).repository.groups() == old(self).repository.groups().remove(id@)
                        &&& old(self).repository.groups().contains_key(id@)
                        &&& member(old(self).repository.groups()[id@], auth@.subject())
                        &&& no_payments_of_group(final(self).repository.payments(), id@)
                    })
                },
            },
    {
        let claims = match auth {
            AuthState::Authorized(c) => c,
            AuthState::UnAuthorized => {
                return Err(UseCaseError::UnAuthorized);
            },
        };
        let group = match self.repository.get_group(id) {
            Ok(Some(g)) => g,
            Ok(None) => {
                return Err(UseCaseError::NotFound);
            },
            Err(e) => {
                return Err(UseCaseError::Store(e));
            },
        };
        if !group.has_participant(&claims.sub) {
            return Err(UseCaseError::UnAuthorized);
        }
        let payments = match self.repository.get_payments_by_group(id) {
            Ok(ps) => ps,
            Err(e) => {
                return Err(UseCaseError::Store(e));
            },
        };
        let n = payments.len();
        let mut k: usize = 0;
        while k < n
            invariant
                self.repository.wf(),
                self.repository.reliable() == old(self).repository.reliable(),
                self.repository.groups() == old(self).repository.groups(),
                self.repository.users() == old(self).repository.users(),
                n == payments@.len(),
                k <= n,
                auth@.is_authorized(),
                old(self).repository.groups().contains_key(id@),
                member(old(self).repository.groups()[id@], auth@.subject()),
                payments_shrunk_within(
                    old(self).repository.payments(),
                    self.repository.payments(),
                    id@,
                ),
                forall|t: int|
                    0 <= t < n ==> {
                        &&& (#[trigger] payments@[t])@.group == id@
                        &&& old(self).repository.payments().contains_key(payments@[t]@.id)
                        &&& old(self).repository.payments()[payments@[t]@.id] == payments@[t]@
                    },
                forall|t: int, u: int|
                    0 <= t < u < n ==> (#[trigger] payments@[t])@.id != (
                    #[trigger] payments@[u])@.id,
                forall|key: Seq<char>|
                    #[trigger] old(self).repository.payments().contains_key(key) && old(
                        self,
                    ).repository.payments()[key].group == id@ ==> contains_payment_id(
                        payments@,
                        key,
                    ),
                forall|t: int|
                    0 <= t < k ==> !self.repository.payments().contains_key(
                        (#[trigger] payments@[t])@.id,
                    ),
                forall|t: int|
                    k <= t < n ==> self.repository.payments().contains_key(
                        (#[trigger] payments@[t])@.id,
                    ) && self.repository.payments()[payments@[t]@.id] == payments@[t]@,
            decreases n - k,
        {
            match self.repository.delete_payment(&payments[k].id) {
                Ok(()) => {},
                Err(e) => {
                    return Err(UseCaseError::Store(e));
                },
            }
            k = k + 1;
        }
        proof {
            assert forall|key: Seq<char>| #[trigger]
                self.repository.payments().contains_key(key) implies self.repository.payments(
            )[key].group != id@ by {
                if self.repository.payments()[key].group == id@ {
                    assert(old(self).repository.payments().contains_key(key) && old(
                        self,
                    ).repository.payments()[key] == self.repository.payments()[key]);
                    let t = choose|t: int|
                        0 <= t < payments@.len() && (#[trigger] payments@[t])@.id == key;
                    assert(!self.repository.payments().contains_key(payments@[t]@.id));
                }
            }
        }
        match self.repository.delete_group(id) {
            Ok(()) => Ok(id.clone()),
            Err(e) => Err(UseCaseError::Store(e)),
        }
    }

    /// Create a payment in a group the caller participates in; the supplied
    /// creditor and debtors are stored unchanged, without their own
    /// membership being checked.
    pub fn create_payment(
        &mut self,
        title: String,
        group: GroupID,
        creditor: UserID,
        debtors: Vec<UserID>,
        auth: &AuthState,
    ) -> (r: Result<Payment, UseCaseError>)
        requires
            old(self).repository.wf(),
        ensures
            final(self).repository.wf(),
            final(self).repository.reliable() == old(self).repository.reliable(),
            final(self).repository.groups() == old(self).repository.groups(),
            final(self).repository.users() == old(self).repository.users(),
            match r {
                Ok(p) => {
                    &&& auth@.is_authorized()
                    &&& old(self).repository.groups().contains_key(group@)
                    &&& member(old(self).repository.groups()[group@], auth@.subject())
                    &&& p@.title == title@
                    &&& p@.group == group@
                    &&& p@.creditor == creditor@
                    &&& p@.debtors == debtors@.map_values(|u: UserID| u@)
                    &&& !old(self).repository.payments().contains_key(p@.id)
                    &&& final(self).repository.payments() == old(self).repository.payments().insert(p@.id, p@)
                },
                Err(UseCaseError::UnAuthorized) => {
                    &&& final(self).repository.payments() == old(self).repository.payments()
                    &&& old(self).repository.reliable() ==> !(auth@.is_authorized() && old(self).repository.groups().contains_key(group@) && member(
                        old(self).repository.groups()[group@],
                        auth@.subject(),
                    ))
                },
                Err(UseCaseError::NotFound) => false,
                Err(UseCaseError::Store(_)) => {
                    &&& auth@.is_authorized()
                    &&& old(self).repository.groups().contains_key(group@)
                    &&& member(old(self).repository.groups()[group@], auth@.subject())
                    &&& (final(self).repository.payments() == old(self).repository.payments()
                        || exists|pv: PaymentView|
                        pv.title == title@ && pv.group == group@ && pv.creditor == creditor@
                            && pv.debtors == debtors@.map_values(|u: UserID| u@) && final(self).repository.payments() == old(self).repository.payments().insert(pv.id, pv))
                    &&& old(self).repository.reliable() ==> final(self).repository.payments()
                        == old(self).repository.payments() && (exists|pv: PaymentView|
                        pv.title == title@ && pv.group == group@ && old(self).repository.payments().contains_key(pv.id))
                },
            },
    {
        if self.have_authority_group(&group, auth) {
            let payment = Payment::new(title, group, creditor, debtors);
            let ghost pv = payment@;
            match self.repository.create_payment(payment) {
                Ok(p) => Ok(p),
                Err(e) => {
                    proof {
                        assert(pv.title == title@ && pv.group == group@ && pv.creditor
                            == creditor@);
                        assert(pv.debtors == debtors@.map_values(|u: UserID| u@));
                        if self.repository.payments() != old(self).repository.payments() {
                            assert(self.repository.payments() == old(self).repository.payments().insert(pv.id, pv));
                        }
                        if old(self).repository.reliable() {
                            assert(old(self).repository.payments().contains_key(pv.id));
                        }
                    }
                    Err(UseCaseError::Store(e))
                },
            }
        } else {
            Err(UseCaseError::UnAuthorized)
        }
    }

    /// Look a payment up, disclosing it only to participants of its group;
    /// absence is an explicit `None`, disclosed only to an authenticated
    /// caller.
    pub fn get_payment_opt(&self, id: &PaymentID, auth: &AuthState) -> (r: Result<
        Option<Payment>,
        UseCaseError,
    >)
        requires
            self.repository.wf(),
        ensures
            match r {
                Ok(Some(p)) => {
                    &&& auth@.is_authorized()
                    &&& self.repository.payments().contains_key(id@)
                    &&& p@ == self.repository.payments()[id@]
                    &&& self.repository.groups().contains_key(p@.group)
                    &&& member(self.repository.groups()[p@.group], auth@.subject())
                },
                Ok(None) => auth@.is_authorized() && !self.repository.payments().contains_key(id@),
                Err(UseCaseError::UnAuthorized) => {
                    &&& !auth@.is_authorized() || (self.repository.payments().contains_key(id@)
                        && self.repository.reliable() ==> !(
                    self.repository.groups().contains_key(self.repository.payments()[id@].group)
                        && member(
                        self.repository.groups()[self.repository.payments()[id@].group],
                        auth@.subject(),
                    )))
                    &&& auth@.is_authorized() ==> self.repository.payments().contains_key(id@)
                },
                Err(UseCaseError::NotFound) => false,
                Err(UseCaseError::Store(_)) => auth@.is_authorized()
                    && !self.repository.reliable(),
            },
    {
        match auth {
            AuthState::Authorized(_) => {
                match self.repository.get_payment(id) {
                    Ok(Some(payment)) => {
                        if self.have_authority_group(&payment.group, auth) {
                            Ok(Some(payment))
                        } else {
                            Err(UseCaseError::UnAuthorized)
                        }
                    },
                    Ok(None) => Ok(None),
                    Err(e) => Err(UseCaseError::Store(e)),
                }
            },
            AuthState::UnAuthorized => Err(UseCaseError::UnAuthorized),
        }
    }

    /// Look a payment up, disclosing it only to participants of its group;
    /// absence is `NotFound`.
    pub fn get_payment(&self, id: &PaymentID, auth: &AuthState) -> (r: Result<
        Payment,
        UseCaseError,
    >)
        requires
            self.repository.wf(),
        ensures
            match r {
                Ok(p) => {
                    &&& auth@.is_authorized()
                    &&& self.repository.payments().contains_key(id@)
                    &&& p@ == self.repository.payments()[id@]
                    &&& self.repository.groups().contains_key(p@.group)
                    &&& member(self.repository.groups()[p@.group], auth@.subject())
                },
                Err(UseCaseError::UnAuthorized) => {
                    &&& auth@.is_authorized() ==> self.repository.payments().contains_key(id@)
                    &&& !auth@.is_authorized() || (self.repository.payments().contains_key(id@)
                        && self.repository.reliable() ==> !(
                    self.repository.groups().contains_key(self.repository.payments()[id@].group)
                        && member(
                        self.repository.groups()[self.repository.payments()[id@].group],
                        auth@.subject(),
                    )))
                },
                Err(UseCaseError::NotFound) => auth@.is_authorized()
                    && !self.repository.payments().contains_key(id@),
                Err(UseCaseError::Store(_)) => auth@.is_authorized()
                    && !self.repository.reliable(),
            },
    {
        match self.get_payment_opt(id, auth) {
            Ok(Some(p)) => Ok(p),
            Ok(None) => Err(UseCaseError::NotFound),
            Err(e) => Err(e),
        }
    }

    /// Whether the caller is authenticated and a participant of the group
    /// owning the payment; any failure along the way counts as no
    /// authority.
    pub fn have_authority_payment(&self, id: &PaymentID, auth: &AuthState) -> (r: bool)
        requires
            self.repository.wf(),
        ensures
            r ==> auth@.is_authorized() && self.repository.payments().contains_key(id@) && {
                let g = self.repository.payments()[id@].group;
                &&& self.repository.groups().contains_key(g)
                &&& member(self.repository.groups()[g], auth@.subject())
            },
            self.repository.reliable() ==> r == (auth@.is_authorized()
                && self.repository.payments().contains_key(id@) && {
                let g = self.repository.payments()[id@].group;
                &&& self.repository.groups().contains_key(g)
                &&& member(self.repository.groups()[g], auth@.subject())
            }),
    {
        match self.repository.get_payment(id) {
            Ok(Some(payment)) => self.have_authority_group(&payment.group, auth),
            _ => false,
        }
    }

    /// Delete a payment; allowed to participants of its owning group, and
    /// `NotFound` once the payment is gone.
    pub fn delete_payment(&mut self, id: &PaymentID, auth: &AuthState) -> (r: Result<
        PaymentID,
        UseCaseError,
    >)
        requires
            old(self).repository.wf(),
        ensures
            final(self).repository.wf(),
            final(self).repository.reliable() == old(self).repository.reliable(),
            final(self).repository.groups() == old(self).repository.groups(),
            final(self).repository.users() == old(self).repository.users(),
            match r {
                Ok(pid) => {
                    &&& pid@ == id@
                    &&& auth@.is_authorized()
                    &&& old(self).repository.payments().contains_key(id@)
                    &&& {
                        let g = old(self).repository.payments()[id@].group;
                        &&& old(self).repository.groups().contains_key(g)
                        &&& member(old(self).repository.groups()[g], auth@.subject())
                    }
                    &&& final(self).repository.payments() == old(self).repository.payments().remove(id@)
                },
                Err(UseCaseError::UnAuthorized) => {
                    &&& final(self).repository.payments() == old(self).repository.payments()
                    &&& auth@.is_authorized() ==> old(self).repository.payments().contains_key(id@)
                    &&& !auth@.is_authorized() || (old(self).repository.payments().contains_key(
                        id@,
                    ) && old(self).repository.reliable() ==> !{
                        let g = old(self).repository.payments()[id@].group;
                        &&& old(self).repository.groups().contains_key(g)
                        &&& member(old(self).repository.groups()[g], auth@.subject())
                    })
                },
                Err(UseCaseError::NotFound) => {
                    &&& auth@.is_authorized()
                    &&& !old(self).repository.payments().contains_key(id@)
                    &&& final(self).repository.payments() == old(self).repository.payments()
                },
                Err(UseCaseError::Store(_)) => {
                    &&& auth@.is_authorized()
                    &&& !old(self).repository.reliable()
                    &&& (final(self).repository.payments() == old(self).repository.payments()
                        || final(self).repository.payments() == old(self).repository.payments().remove(id@))
                },
            },
    {
        let claims = match auth {
            AuthState::Authorized(c) => c,
            AuthState::UnAuthorized => {
                return Err(UseCaseError::UnAuthorized);
            },
        };
        let payment = match self.repository.get_payment(id) {
            Ok(Some(p)) => p,
            Ok(None) => {
                return Err(UseCaseError::NotFound);
            },
            Err(e) => {
                return Err(UseCaseError::Store(e));
            },
        };
        if !self.have_authority_group(&payment.group, auth) {
            return Err(UseCaseError::UnAuthorized);
        }
        match self.repository.delete_payment(id) {
            Ok(()) => Ok(id.clone()),
            Err(e) => Err(UseCaseError::Store(e)),
        }
    }

    /// Every payment of a group, disclosed only to its participants.
    pub fn get_payments_by_group(&self, group: &GroupID, auth: &AuthState) -> (r: Result<
        Vec<Payment>,
        UseCaseError,
    >)
        requires
            self.repository.wf(),
        ensures
            match r {
                Ok(ps) => {
                    &&& auth@.is_authorized()
                    &&& self.repository.groups().contains_key(group@)
                    &&& member(self.repository.groups()[group@], auth@.subject())
                    &&& forall|i: int|
                        0 <= i < ps@.len() ==> {
                            &&& self.repository.payments().contains_key((#[trigger] ps@[i])@.id)
                            &&& self.repository.payments()[ps@[i]@.id] == ps@[i]@
                            &&& ps@[i]@.group == group@
                        }
                    &&& forall|k: Seq<char>|
                        #[trigger] self.repository.payments().contains_key(k)
                            && self.repository.payments()[k].group == group@
                            ==> contains_payment_id(ps@, k)
                    &&& forall|i: int, j: int|
                        0 <= i < j < ps@.len() ==> (#[trigger] ps@[i])@.id != (#[trigger] ps@[j])@.id
                },
                Err(UseCaseError::UnAuthorized) => self.repository.reliable() ==> !(
                auth@.is_authorized() && self.repository.groups().contains_key(group@) && member(
                    self.repository.groups()[group@],
                    auth@.subject(),
                )),
                Err(UseCaseError::NotFound) => false,
                Err(UseCaseError::Store(_)) => auth@.is_authorized()
                    && !self.repository.reliable(),
            },
    {
        if !self.have_authority_group(group, auth) {
            return Err(UseCaseError::UnAuthorized);
        }
        match self.repository.get_payments_by_group(group) {
            Ok(ps) => Ok(ps),
            Err(e) => Err(UseCaseError::Store(e)),
        }
    }

    /// Create the caller's own user record; its identifier is the caller's
    /// verified subject.
    pub fn create_user(&mut self, auth: &AuthState) -> (r: Result<User, UseCaseError>)
        requires
            old(self).repository.wf(),
        ensures
            final(self).repository.wf(),
            final(self).repository.reliable() == old(self).repository.reliable(),
            final(self).repository.groups() == old(self).repository.groups(),
            final(self).repository.payments() == old(self).repository.payments(),
            match r {
                Ok(u) => {
                    &&& auth@.is_authorized()
                    &&& u@.id == auth@.subject()
                    &&& !old(self).repository.users().contains_key(u@.id)
                    &&& final(self).repository.users() == old(self).repository.users().insert(
                        u@.id,
                        u@,
                    )
                },
                Err(UseCaseError::UnAuthorized) => {
                    &&& !auth@.is_authorized()
                    &&& final(self).repository.users() == old(self).repository.users()
                },
                Err(UseCaseError::NotFound) => false,
                Err(UseCaseError::Store(_)) => {
                    &&& auth@.is_authorized()
                    &&& (final(self).repository.users() == old(self).repository.users() || final(self).repository.users() == old(self).repository.users().insert(
                        auth@.subject(),
                        (UserView { id: auth@.subject() }),
                    ))
                    &&& old(self).repository.reliable() ==> old(self).repository.users().contains_key(auth@.subject()) && final(self).repository.users() == old(self).repository.users()
                },
            },
    {
        match auth {
            AuthState::Authorized(claims) => {
                let user = User::new(claims);
                let ghost uv = user@;
                match self.repository.create_user(user) {
                    Ok(u) => Ok(u),
                    Err(e) => {
                        proof {
                            assert(uv == (UserView { id: auth@.subject() }));
                        }
                        Err(UseCaseError::Store(e))
                    },
                }
            },
            AuthState::UnAuthorized => Err(UseCaseError::UnAuthorized),
        }
    }

    /// Delete a user record; only its owner — the caller whose subject is
    /// that same identifier — may do so, and only while the record exists.
    pub fn delete_user(&mut self, id: &UserID, auth: &AuthState) -> (r: Result<
        UserID,
        UseCaseError,
    >)
        requires
            old(self).repository.wf(),
        ensures
            final(self).repository.wf(),
            final(self).repository.reliable() == old(self).repository.reliable(),
            final(self).repository.groups() == old(self).repository.groups(),
            final(self).repository.payments() == old(self).repository.payments(),
            match r {
                Ok(uid) => {
                    &&& uid@ == id@
                    &&& auth@.is_authorized()
                    &&& auth@.subject() == id@
                    &&& old(self).repository.users().contains_key(id@)
                    &&& final(self).repository.users() == old(self).repository.users().remove(id@)
                },
                Err(UseCaseError::UnAuthorized) => {
                    &&& final(self).repository.users() == old(self).repository.users()
                    &&& old(self).repository.reliable() ==> !(auth@.is_authorized()
                        && auth@.subject() == id@ && old(self).repository.users().contains_key(
                        id@,
                    ))
                },
                Err(UseCaseError::NotFound) => false,
                Err(UseCaseError::Store(_)) => {
                    &&& auth@.is_authorized()
                    &&& !old(self).repository.reliable()
                    &&& (final(self).repository.users() == old(self).repository.users() || final(self).repository.users() == old(self).repository.users().remove(id@))
                },
            },
    {
        if self.have_authority_user(id, auth) {
            match self.repository.delete_user(id) {
                Ok(()) => Ok(id.clone()),
                Err(e) => Err(UseCaseError::Store(e)),
            }
        } else {
            Err(UseCaseError::UnAuthorized)
        }
    }

    /// Look a user up; any authenticated caller may, and absence is an
    /// explicit `None`.
    pub fn get_user_opt(&self, id: &UserID, auth: &AuthState) -> (r: Result<
        Option<User>,
        UseCaseError,
    >)
        requires
            self.repository.wf(),
        ensures
            match r {
                Ok(Some(u)) => {
                    &&& auth@.is_authorized()
                    &&& self.repository.users().contains_key(id@)
                    &&& u@ == self.repository.users()[id@]
                    &&& u@.id == id@
                },
                Ok(None) => auth@.is_authorized() && !self.repository.users().contains_key(id@),
                Err(UseCaseError::UnAuthorized) => !auth@.is_authorized(),
                Err(UseCaseError::NotFound) => false,
                Err(UseCaseError::Store(_)) => auth@.is_authorized()
                    && !self.repository.reliable(),
            },
    {
        match auth {
            AuthState::Authorized(_) => {
                match self.repository.get_user(id) {
                    Ok(u) => Ok(u),
                    Err(e) => Err(UseCaseError::Store(e)),
                }
            },
            AuthState::UnAuthorized => Err(UseCaseError::UnAuthorized),
        }
    }

    /// Look a user up; any authenticated caller may, and absence is
    /// `NotFound`.
    pub fn get_user(&self, id: &UserID, auth: &AuthState) -> (r: Result<User, UseCaseError>)
        requires
            self.repository.wf(),
        ensures
            match r {
                Ok(u) => {
                    &&& auth@.is_authorized()
                    &&& self.repository.users().contains_key(id@)
                    &&& u@ == self.repository.users()[id@]
                    &&& u@.id == id@
                },
                Err(UseCaseError::UnAuthorized) => !auth@.is_authorized(),
                Err(UseCaseError::NotFound) => auth@.is_authorized()
                    && !self.repository.users().contains_key(id@),
                Err(UseCaseError::Store(_)) => auth@.is_authorized()
                    && !self.repository.reliable(),
            },
    {
        match self.get_user_opt(id, auth) {
            Ok(Some(u)) => Ok(u),
            Ok(None) => Err(UseCaseError::NotFound),
            Err(e) => Err(e),
        }
    }

    /// Resolve a list of user identifiers, in the order given, failing as a
    /// whole if any one of them cannot be resolved.
    pub fn get_users(&self, ids: &[UserID], auth: &AuthState) -> (r: Result<
        Vec<User>,
        UseCaseError,
    >)
        requires
            self.repository.wf(),
        ensures
            match r {
                Ok(us) => {
                    &&& auth@.is_authorized()
                    &&& us@.len() == ids@.len()
                    &&& forall|i: int|
                        0 <= i < ids@.len() ==> {
                            &&& self.repository.users().contains_key((#[trigger] ids@[i])@)
                            &&& us@[i]@ == self.repository.users()[ids@[i]@]
                            &&& us@[i]@.id == ids@[i]@
                        }
                },
                Err(UseCaseError::UnAuthorized) => !auth@.is_authorized(),
                Err(UseCaseError::NotFound) => auth@.is_authorized() && exists|i: int|
                    0 <= i < ids@.len() && !self.repository.users().contains_key(
                        (#[trigger] ids@[i])@,
                    ),
                Err(UseCaseError::Store(_)) => auth@.is_authorized()
                    && !self.repository.reliable() && ids@.len() > 0,
            },
    {
        match auth {
            AuthState::Authorized(_) => {
                let mut out: Vec<User> = Vec::new();
                let n = ids.len();
                let mut i: usize = 0;
                while i < n
                    invariant
                        self.repository.wf(),
                        n == ids@.len(),
                        i <= n,
                        auth@.is_authorized(),
                        out@.len() == i,
                        forall|t: int|
                            0 <= t < i ==> {
                                &&& self.repository.users().contains_key((#[trigger] ids@[t])@)
                                &&& out@[t]@ == self.repository.users()[ids@[t]@]
                                &&& out@[t]@.id == ids@[t]@
                            },
                    decreases n - i,
                {
                    match self.get_user(&ids[i], auth) {
                        Ok(u) => out.push(u),
                        Err(e) => {
                            return Err(e);
                        },
                    }
                    i = i + 1;
                }
                Ok(out)
            },
            AuthState::UnAuthorized => Err(UseCaseError::UnAuthorized),
        }
    }

    /// Whether the caller is authenticated, the record exists, and the
    /// caller owns it; any failure along the way counts as no authority.
    pub fn have_authority_user(&self, id: &UserID, auth: &AuthState) -> (r: bool)
        requires
            self.repository.wf(),
        ensures
            r ==> auth@.is_authorized() && auth@.subject() == id@
                && self.repository.users().contains_key(id@),
            self.repository.reliable() ==> r == (auth@.is_authorized() && auth@.subject() == id@
                && self.repository.users().contains_key(id@)),
    {
        if let AuthState::Authorized(claims) = auth {
            if let Ok(Some(user)) = self.repository.get_user(id) {
                return user.id.0 == claims.sub;
            }
        }
        false
    }
}

} // verus!
