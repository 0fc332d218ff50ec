//! Groups: a titled collection of participants that owns payments.

use vstd::prelude::*;

use crate::entities::auth::Claims;
use crate::entities::fresh::{fresh_id, now_millis};
use crate::entities::user::UserID;

verus! {

/// An opaque group identifier; equality is value equality on the string.
#[derive(Debug, PartialEq, Eq)]
pub struct GroupID(pub String);

impl View for GroupID {
    type V = Seq<char>;

    open spec fn view(&self) -> Seq<char> {
        self.0@
    }
}

impl Clone for GroupID {
    fn clone(&self) -> (r: Self)
        ensures
            r@ == self@,
    {
        GroupID(self.0.clone())
    }
}

impl GroupID {
    pub fn new(id: &str) -> (r: Self)
        ensures
            r@ == id@,
    {
        GroupID(id.to_owned())
    }

    /// The identifier as an owned string.
    pub fn to_string(&self) -> (r: String)
        ensures
            r@ == self@,
    {
        self.0.clone()
    }

    pub fn eq_id(&self, other: &GroupID) -> (r: bool)
        ensures
            r == (self@ == other@),
    {
        self.0 == other.0
    }
}

/// The mathematical shape of a `Group`.
pub struct GroupView {
    pub id: Seq<char>,
    pub created_at: int,
    pub title: Seq<char>,
    pub participants: Seq<Seq<char>>,
}

/// A group of participants. `participants` is non-empty at creation: the
/// creator is inserted as the first (and initially only) participant, and no
/// operation removes participants.
#[derive(Debug, PartialEq, Eq)]
pub struct Group {
    pub id: GroupID,
    /// Creation time, milliseconds since the Unix epoch.
    pub created_at: i64,
    pub title: String,
    pub participants: Vec<UserID>,
}

impl View for Group {
    type V = GroupView;

    open spec fn view(&self) -> GroupView {
        GroupView {
            id: self.id@,
            created_at: self.created_at as int,
            title: self.title@,
            participants: self.participants@.map_values(|u: UserID| u@),
        }
    }
}

impl Clone for Group {
    fn clone(&self) -> (r: Self)
        ensures
            r@ == self@,
    {
        let participants = clone_user_ids(&self.participants);
        Group {
            id: self.id.clone(),
            created_at: self.created_at,
            title: self.title.clone(),
            participants,
        }
    }
}

/// Clone a participant list, element by element.
pub fn clone_user_ids(v: &Vec<UserID>) -> (r: Vec<UserID>)
    ensures
        r@.map_values(|u: UserID| u@) == v@.map_values(|u: UserID| u@),
{
    let mut r: Vec<UserID> = Vec::new();
    let n = v.len();
    let mut i: usize = 0;
    while i < n
        invariant
            n == v@.len(),
            i <= n,
            r@.len() == i,
            forall|j: int| 0 <= j < i ==> r@[j]@ == v@[j]@,
        decreases n - i,
    {
        r.push(v[i].clone());
        i = i + 1;
    }
    proof {
        assert(r@.map_values(|u: UserID| u@) =~= v@.map_values(|u: UserID| u@));
    }
    r
}

impl Group {
    /// A new group created by the authenticated caller: fresh identifier,
    /// current time, the given title, and the caller's subject as the sole
    /// participant.
    pub fn new(title: String, auth: &Claims) -> (g: Group)
        ensures
            g@.title == title@,
            g@.participants == seq![auth@.sub],
    {
        let id = GroupID(fresh_id());
        let created_at = now_millis();
        let mut participants: Vec<UserID> = Vec::new();
        participants.push(UserID(auth.sub.clone()));
        let g = Group { id, created_at, title, participants };
        proof {
            assert(g@.participants =~= seq![auth@.sub]);
        }
        g
    }

    /// Whether `sub` names one of this group's participants.
    pub fn has_participant(&self, sub: &String) -> (b: bool)
        ensures
            b == self@.participants.contains(sub@),
    {
        let n = self.participants.len();
        let mut i: usize = 0;
        while i < n
            invariant
                n == self.participants@.len(),
                i <= n,
                forall|j: int| 0 <= j < i ==> self@.participants[j] != sub@,
            decreases n - i,
        {
            if self.participants[i].0 == *sub {
                assert(self@.participants[i as int] == sub@);
                return true;
            }
            i = i + 1;
        }
        false
    }
}

} // verus!
