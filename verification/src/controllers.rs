//! The API surface: one query and one mutation type per resource, each
//! method a use-case call under the caller's `AuthState`, promising exactly
//! what the engine promises. Transport wiring (request parsing, schema
//! glue) lives outside this library; these types carry the operations it
//! exposes.

use vstd::prelude::*;

use crate::entities::auth::AuthState;
use crate::entities::group::{Group, GroupID, GroupView};
use crate::entities::payment::{Payment, PaymentID, PaymentView};
use crate::entities::user::{User, UserID, UserView};
use crate::repositories::{no_payments_of_group, Repository};
use crate::usecases::{member, payments_shrunk_within, UseCase, UseCaseError};

verus! {

/// Group lookups.
pub struct GroupQuery;

/// Group creation and deletion.
pub struct GroupMutation;

/// Payment lookups.
pub struct PaymentQuery;

/// Payment creation and deletion.
pub struct PaymentMutation;

/// User lookups.
pub struct UserQuery;

/// User creation and deletion.
pub struct UserMutation;

impl GroupQuery {
    /// Look a group up for the caller; absence is an explicit `None`,
    /// disclosed only to an authenticated caller.
    pub fn get_group<R: Repository>(
        &self,
        uc: &UseCase<R>,
        id: &GroupID,
        auth: &AuthState,
    ) -> (r: Result<Option<Group>, UseCaseError>)
        requires
            uc.repository.wf(),
        ensures
            match r {
                Ok(Some(g)) => {
                    &&& auth@.is_authorized()
                    &&& uc.repository.groups().contains_key(id@)
                    &&& g@ == uc.repository.groups()[id@]
                    &&& member(g@, auth@.subject())
                },
                Ok(None) => auth@.is_authorized() && !uc.repository.groups().contains_key(id@),
                Err(UseCaseError::UnAuthorized) => !auth@.is_authorized() || (
                uc.repository.groups().contains_key(id@) && !member(
                    uc.repository.groups()[id@],
                    auth@.subject(),
                )),
                Err(UseCaseError::NotFound) => false,
                Err(UseCaseError::Store(_)) => auth@.is_authorized()
                    && !uc.repository.reliable(),
            },
    {
        uc.get_group_opt(id, auth)
    }
}

impl GroupMutation {
    /// Create a group with the caller as sole participant.
    pub fn create_group<R: Repository>(
        &self,
        uc: &mut UseCase<R>,
        title: String,
        auth: &AuthState,
    ) -> (r: Result<Group, UseCaseError>)
        requires
            old(uc).repository.wf(),
        ensures
            final(uc).repository.wf(),
            final(uc).repository.reliable() == old(uc).repository.reliable(),
            final(uc).repository.payments() == old(uc).repository.payments(),
            final(uc).repository.users() == old(uc).repository.users(),
            match r {
                Ok(g) => {
                    &&& auth@.is_authorized()
                    &&& g@.title == title@
                    &&& g@.participants == seq![auth@.subject()]
                    &&& !old(uc).repository.groups().contains_key(g@.id)
                    &&& final(uc).repository.groups() == old(uc).repository.groups().insert(
                        g@.id,
                        g@,
                    )
                },
                Err(UseCaseError::UnAuthorized) => {
                    &&& !auth@.is_authorized()
                    &&& final(uc).repository.groups() == old(uc).repository.groups()
                },
                Err(UseCaseError::NotFound) => false,
                Err(UseCaseError::Store(_)) => {
                    &&& auth@.is_authorized()
                    &&& (final(uc).repository.groups() == old(uc).repository.groups() || exists|gv: GroupView|
                        gv.participants == seq![auth@.subject()] && gv.title == title@ && final(uc).repository.groups() == old(uc).repository.groups().insert(gv.id, gv))
                    &&& old(uc).repository.reliable() ==> final(uc).repository.groups() == old(uc).repository.groups() && (exists|gv: GroupView|
                        gv.participants == seq![auth@.subject()] && gv.title == title@ && old(uc).repository.groups().contains_key(gv.id))
                },
            },
    {
        uc.create_group(title, auth)
    }

    /// Delete a group the caller participates in, cascading over its
    /// payments.
    pub fn delete_group<R: Repository>(
        &self,
        uc: &mut UseCase<R>,
        id: &GroupID,
        auth: &AuthState,
    ) -> (r: Result<GroupID, UseCaseError>)
        requires
            old(uc).repository.wf(),
        ensures
            final(uc).repository.wf(),
            final(uc).repository.reliable() == old(uc).repository.reliable(),
            final(uc).repository.users() == old(uc).repository.users(),
            match r {
                Ok(gid) => {
                    &&& gid@ == id@
                    &&& auth@.is_authorized()
                    &&& old(uc).repository.groups().contains_key(id@)
                    &&& member(old(uc).repository.groups()[id@], auth@.subject())
                    &&& final(uc).repository.groups() == old(uc).repository.groups().remove(
                        id@,
                    )
                    &&& payments_shrunk_within(
                        old(uc).repository.payments(),
                        final(uc).repository.payments(),
                        id@,
                    )
                    &&& no_payments_of_group(final(uc).repository.payments(), id@)
                },
                Err(UseCaseError::UnAuthorized) => {
                    &&& !auth@.is_authorized() || (old(uc).repository.groups().contains_key(id@)
                        && !member(old(uc).repository.groups()[id@], auth@.subject()))
                    &&& final(uc).repository.groups() == old(uc).repository.groups()
                    &&& final(uc).repository.payments() == old(uc).repository.payments()
                },
                Err(UseCaseError::NotFound) => {
                    &&& auth@.is_authorized()
                    &&& !old(uc).repository.groups().contains_key(id@)
                    &&& final(uc).repository.groups() == old(uc).repository.groups()
                    &&& final(uc).repository.payments() == old(uc).repository.payments()
                },
                Err(UseCaseError::Store(_)) => {
                    &&& auth@.is_authorized()
                    &&& !old(uc).repository.reliable()
                    &&& payments_shrunk_within(
                        old(uc).repository.payments(),
                        final(uc).repository.payments(),
                        id@,
                    )
                    &&& (final(uc).repository.groups() == old(uc).repository.groups() || {
                        &&& final(uc).repository.groups() == old(uc).repository.groups().remove(id@)
                        &&& old(uc).repository.groups().contains_key(id@)
                        &&& member(old(uc).repository.groups()[id@], auth@.subject())
                        &&& no_payments_of_group(final(uc).repository.payments(), id@)
                    })
                },
            },
    {
        uc.delete_group(id, auth)
    }
}

impl PaymentQuery {
    /// Look a payment up for the caller; absence is an explicit `None`,
    /// disclosed only to an authenticated caller.
    pub fn get_payment<R: Repository>(
        &self,
        uc: &UseCase<R>,
        id: &PaymentID,
        auth: &AuthState,
    ) -> (r: Result<Option<Payment>, UseCaseError>)
        requires
            uc.repository.wf(),
        ensures
            match r {
                Ok(Some(p)) => {
                    &&& auth@.is_authorized()
                    &&& uc.repository.payments().contains_key(id@)
                    &&& p@ == uc.repository.payments()[id@]
                    &&& uc.repository.groups().contains_key(p@.group)
                    &&& member(uc.repository.groups()[p@.group], auth@.subject())
                },
                Ok(None) => auth@.is_authorized() && !uc.repository.payments().contains_key(id@),
                Err(UseCaseError::UnAuthorized) => {
                    &&& !auth@.is_authorized() || (uc.repository.payments().contains_key(id@)
                        && uc.repository.reliable() ==> !(
                    uc.repository.groups().contains_key(uc.repository.payments()[id@].group)
                        && member(
                        uc.repository.groups()[uc.repository.payments()[id@].group],
                        auth@.subject(),
                    )))
                    &&& auth@.is_authorized() ==> uc.repository.payments().contains_key(id@)
                },
                Err(UseCaseError::NotFound) => false,
                Err(UseCaseError::Store(_)) => auth@.is_authorized()
                    && !uc.repository.reliable(),
            },
    {
        uc.get_payment_opt(id, auth)
    }
}

impl PaymentMutation {
    /// Create a payment in a group the caller participates in.
    pub fn create_payment<R: Repository>(
        &self,
        uc: &mut UseCase<R>,
        title: String,
        group: GroupID,
        creditor: UserID,
        debtors: Vec<UserID>,
        auth: &AuthState,
    ) -> (r: Result<Payment, UseCaseError>)
        requires
            old(uc).repository.wf(),
        ensures
            final(uc).repository.wf(),
            final(uc).repository.reliable() == old(uc).repository.reliable(),
            final(uc).repository.groups() == old(uc).repository.groups(),
            final(uc).repository.users() == old(uc).repository.users(),
            match r {
                Ok(p) => {
                    &&& auth@.is_authorized()
                    &&& old(uc).repository.groups().contains_key(group@)
                    &&& member(old(uc).repository.groups()[group@], auth@.subject())
                    &&& p@.title == title@
                    &&& p@.group == group@
                    &&& p@.creditor == creditor@
                    &&& p@.debtors == debtors@.map_values(|u: UserID| u@)
                    &&& !old(uc).repository.payments().contains_key(p@.id)
                    &&& final(uc).repository.payments() == old(uc).repository.payments().insert(p@.id, p@)
                },
                Err(UseCaseError::UnAuthorized) => {
                    &&& final(uc).repository.payments() == old(uc).repository.payments()
                    &&& old(uc).repository.reliable() ==> !(auth@.is_authorized() && old(uc).repository.groups().contains_key(group@) && member(
                        old(uc).repository.groups()[group@],
                        auth@.subject(),
                    ))
                },
                Err(UseCaseError::NotFound) => false,
                Err(UseCaseError::Store(_)) => {
                    &&& auth@.is_authorized()
                    &&& old(uc).repository.groups().contains_key(group@)
                    &&& member(old(uc).repository.groups()[group@], auth@.subject())
                    &&& (final(uc).repository.payments() == old(uc).repository.payments()
                        || exists|pv: PaymentView|
                        pv.title == title@ && pv.group == group@ && pv.creditor == creditor@
                            && pv.debtors == debtors@.map_values(|u: UserID| u@) && final(uc).repository.payments() == old(uc).repository.payments().insert(pv.id, pv))
                    &&& old(uc).repository.reliable() ==> final(uc).repository.payments()
                        == old(uc).repository.payments() && (exists|pv: PaymentView|
                        pv.title == title@ && pv.group == group@ && old(uc).repository.payments().contains_key(pv.id))
                },
            },
    {
        uc.create_payment(title, group, creditor, debtors, auth)
    }

    /// Delete a payment of a group the caller participates in.
    pub fn delete_payment<R: Repository>(
        &self,
        uc: &mut UseCase<R>,
        id: &PaymentID,
        auth: &AuthState,
    ) -> (r: Result<PaymentID, UseCaseError>)
        requires
            old(uc).repository.wf(),
        ensures
            final(uc).repository.wf(),
            final(uc).repository.reliable() == old(uc).repository.reliable(),
            final(uc).repository.groups() == old(uc).repository.groups(),
            final(uc).repository.users() == old(uc).repository.users(),
            match r {
                Ok(pid) => {
                    &&& pid@ == id@
                    &&& auth@.is_authorized()
                    &&& old(uc).repository.payments().contains_key(id@)
                    &&& {
                        let g = old(uc).repository.payments()[id@].group;
                        &&& old(uc).repository.groups().contains_key(g)
                        &&& member(old(uc).repository.groups()[g], auth@.subject())
                    }
                    &&& final(uc).repository.payments() == old(uc).repository.payments().remove(id@)
                },
                Err(UseCaseError::UnAuthorized) => {
                    &&& final(uc).repository.payments() == old(uc).repository.payments()
                    &&& auth@.is_authorized() ==> old(uc).repository.payments().contains_key(id@)
                    &&& !auth@.is_authorized() || (old(uc).repository.payments().contains_key(
                        id@,
                    ) && old(uc).repository.reliable() ==> !{
                        let g = old(uc).repository.payments()[id@].group;
                        &&& old(uc).repository.groups().contains_key(g)
                        &&& member(old(uc).repository.groups()[g], auth@.subject())
                    })
                },
                Err(UseCaseError::NotFound) => {
                    &&& auth@.is_authorized()
                    &&& !old(uc).repository.payments().contains_key(id@)
                    &&& final(uc).repository.payments() == old(uc).repository.payments()
                },
                Err(UseCaseError::Store(_)) => {
                    &&& auth@.is_authorized()
                    &&& !old(uc).repository.reliable()
                    &&& (final(uc).repository.payments() == old(uc).repository.payments()
                        || final(uc).repository.payments() == old(uc).repository.payments().remove(id@))
                },
            },
    {
        uc.delete_payment(id, auth)
    }
}

impl UserQuery {
    /// Look a user up for any authenticated caller; absence is an
    /// explicit `None`.
    pub fn get_user<R: Repository>(&self, uc: &UseCase<R>, id: &UserID, auth: &AuthState) -> (r:
        Result<Option<User>, UseCaseError>)
        requires
            uc.repository.wf(),
        ensures
            match r {
                Ok(Some(u)) => {
                    &&& auth@.is_authorized()
                    &&& uc.repository.users().contains_key(id@)
                    &&& u@ == uc.repository.users()[id@]
                    &&& u@.id == id@
                },
                Ok(None) => auth@.is_authorized() && !uc.repository.users().contains_key(id@),
                Err(UseCaseError::UnAuthorized) => !auth@.is_authorized(),
                Err(UseCaseError::NotFound) => false,
                Err(UseCaseError::Store(_)) => auth@.is_authorized()
                    && !uc.repository.reliable(),
            },
    {
        uc.get_user_opt(id, auth)
    }
}

impl UserMutation {
    /// Create the caller's own user record.
    pub fn create_user<R: Repository>(&self, uc: &mut UseCase<R>, auth: &AuthState) -> (r: Result<
        User,
        UseCaseError,
    >)
        requires
            old(uc).repository.wf(),
        ensures
            final(uc).repository.wf(),
            final(uc).repository.reliable() == old(uc).repository.reliable(),
            final(uc).repository.groups() == old(uc).repository.groups(),
            final(uc).repository.payments() == old(uc).repository.payments(),
            match r {
                Ok(u) => {
                    &&& auth@.is_authorized()
                    &&& u@.id == auth@.subject()
                    &&& !old(uc).repository.users().contains_key(u@.id)
                    &&& final(uc).repository.users() == old(uc).repository.users().insert(
                        u@.id,
                        u@,
                    )
                },
                Err(UseCaseError::UnAuthorized) => {
                    &&& !auth@.is_authorized()
                    &&& final(uc).repository.users() == old(uc).repository.users()
                },
                Err(UseCaseError::NotFound) => false,
                Err(UseCaseError::Store(_)) => {
                    &&& auth@.is_authorized()
                    &&& (final(uc).repository.users() == old(uc).repository.users() || final(uc).repository.users() == old(uc).repository.users().insert(
                        auth@.subject(),
                        (UserView { id: auth@.subject() }),
                    ))
                    &&& old(uc).repository.reliable() ==> old(uc).repository.users().contains_key(auth@.subject()) && final(uc).repository.users() == old(uc).repository.users()
                },
            },
    {
        uc.create_user(auth)
    }

    /// Delete the caller's own user record.
    pub fn delete_user<R: Repository>(
        &self,
        uc: &mut UseCase<R>,
        id: &UserID,
        auth: &AuthState,
    ) -> (r: Result<UserID, UseCaseError>)
        requires
            old(uc).repository.wf(),
        ensures
            final(uc).repository.wf(),
            final(uc).repository.reliable() == old(uc).repository.reliable(),
            final(uc).repository.groups() == old(uc).repository.groups(),
            final(uc).repository.payments() == old(uc).repository.payments(),
            match r {
                Ok(uid) => {
                    &&& uid@ == id@
                    &&& auth@.is_authorized()
                    &&& auth@.subject() == id@
                    &&& old(uc).repository.users().contains_key(id@)
                    &&& final(uc).repository.users() == old(uc).repository.users().remove(id@)
                },
                Err(UseCaseError::UnAuthorized) => {
                    &&& final(uc).repository.users() == old(uc).repository.users()
                    &&& old(uc).repository.reliable() ==> !(auth@.is_authorized()
                        && auth@.subject() == id@ && old(uc).repository.users().contains_key(
                        id@,
                    ))
                },
                Err(UseCaseError::NotFound) => false,
                Err(UseCaseError::Store(_)) => {
                    &&& auth@.is_authorized()
                    &&& !old(uc).repository.reliable()
                    &&& (final(uc).repository.users() == old(uc).repository.users() || final(uc).repository.users() == old(uc).repository.users().remove(id@))
                },
            },
    {
        uc.delete_user(id, auth)
    }
}

} // verus!
