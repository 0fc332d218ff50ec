//! Payments: a titled debt record owned by a group, naming a creditor and
//! the debtors it is split over.

use vstd::prelude::*;

use crate::entities::fresh::{fresh_id, now_millis};
use crate::entities::group::{clone_user_ids, GroupID};
use crate::entities::user::UserID;

verus! {

/// An opaque payment identifier; equality is value equality on the string.
#[derive(Debug, PartialEq, Eq)]
pub struct PaymentID(pub String);

impl View for PaymentID {
    type V = Seq<char>;

    open spec fn view(&self) -> Seq<char> {
        self.0@
    }
}

impl Clone for PaymentID {
    fn clone(&self) -> (r: Self)
        ensures
            r@ == self@,
    {
        PaymentID(self.0.clone())
    }
}

impl PaymentID {
    pub fn new(id: &str) -> (r: Self)
        ensures
            r@ == id@,
    {
        PaymentID(id.to_owned())
    }

    /// The identifier as an owned string.
    pub fn to_string(&self) -> (r: String)
        ensures
            r@ == self@,
    {
        self.0.clone()
    }

    pub fn eq_id(&self, other: &PaymentID) -> (r: bool)
        ensures
            r == (self@ == other@),
    {
        self.0 == other.0
    }
}

/// The mathematical shape of a `Payment`.
pub struct PaymentView {
    pub id: Seq<char>,
    pub created_at: int,
    pub title: Seq<char>,
    pub group: Seq<char>,
    pub creditor: Seq<char>,
    pub debtors: Seq<Seq<char>>,
}

/// A payment inside a group. The engine checks that the *caller* is a
/// participant of the referenced group; it does not validate that the
/// creditor or the debtors are themselves participants.
#[derive(Debug, PartialEq, Eq)]
pub struct Payment {
    pub id: PaymentID,
    /// Creation time, milliseconds since the Unix epoch.
    pub created_at: i64,
    pub title: String,
    pub group: GroupID,
    pub creditor: UserID,
    pub debtors: Vec<UserID>,
}

impl View for Payment {
    type V = PaymentView;

    open spec fn view(&self) -> PaymentView {
        PaymentView {
            id: self.id@,
            created_at: self.created_at as int,
            title: self.title@,
            group: self.group@,
            creditor: self.creditor@,
            debtors: self.debtors@.map_values(|u: UserID| u@),
        }
    }
}

impl Clone for Payment {
    fn clone(&self) -> (r: Self)
        ensures
            r@ == self@,
    {
        let debtors = clone_user_ids(&self.debtors);
        Payment {
            id: self.id.clone(),
            created_at: self.created_at,
            title: self.title.clone(),
            group: self.group.clone(),
            creditor: self.creditor.clone(),
            debtors,
        }
    }
}

impl Payment {
    /// A new payment: fresh identifier, current time, and the caller-supplied
    /// title, owning group, creditor and debtors, kept unchanged.
    pub fn new(title: String, group: GroupID, creditor: UserID, debtors: Vec<UserID>) -> (p:
        Payment)
        ensures
            p@.title == title@,
            p@.group == group@,
            p@.creditor == creditor@,
            p@.debtors == debtors@.map_values(|u: UserID| u@),
    {
        let id = PaymentID(fresh_id());
        let created_at = now_millis();
        Payment { id, created_at, title, group, creditor, debtors }
    }
}

} // verus!
