//! An in-memory store meeting the `Repository` contract: each collection is
//! a vector of records with pairwise-distinct identifiers, viewed as a map
//! from identifier to record. It never faults, so it is `reliable`.

use vstd::prelude::*;

use crate::entities::group::{Group, GroupID, GroupView};
use crate::entities::payment::{Payment, PaymentID, PaymentView};
use crate::entities::user::{User, UserID, UserView};
use crate::repositories::{contains_group_id, contains_payment_id, lemma_contains_group_id_push, lemma_contains_payment_id_push, Repository, StoreError};

verus! {

/// The map held by an association list of key/value pairs; a later pair
/// with the same key would win, so callers keep keys distinct.
pub open spec fn assoc_map<V>(s: Seq<(Seq<char>, V)>) -> Map<Seq<char>, V>
    decreases s.len(),
{
    if s.len() == 0 {
        Map::empty()
    } else {
        assoc_map(s.drop_last()).insert(s.last().0, s.last().1)
    }
}

/// The keys of the pairs are pairwise distinct.
pub open spec fn distinct_keys<V>(s: Seq<(Seq<char>, V)>) -> bool {
    forall|i: int, j: int| 0 <= i < j < s.len() ==> (#[trigger] s[i]).0 != (#[trigger] s[j]).0
}

/// A key is in the map exactly when some pair carries it.
pub proof fn lemma_assoc_map_contains<V>(s: Seq<(Seq<char>, V)>, k: Seq<char>)
    ensures
        assoc_map(s).contains_key(k) <==> exists|i: int| 0 <= i < s.len() && (#[trigger] s[i]).0
            == k,
    decreases s.len(),
{
    if s.len() == 0 {
    } else {
        lemma_assoc_map_contains(s.drop_last(), k);
        if s.last().0 == k {
            assert(s[s.len() - 1].0 == k);
        } else {
            if exists|i: int| 0 <= i < s.len() && (#[trigger] s[i]).0 == k {
                let i = choose|i: int| 0 <= i < s.len() && (#[trigger] s[i]).0 == k;
                assert(s.drop_last()[i] == s[i]);
            }
            if assoc_map(s.drop_last()).contains_key(k) {
                let i = choose|i: int|
                    0 <= i < s.drop_last().len() && (#[trigger] s.drop_last()[i]).0 == k;
                assert(s[i] == s.drop_last()[i]);
            }
        }
    }
}

/// With distinct keys, the pair at any index is the map entry of its key.
pub proof fn lemma_assoc_map_index<V>(s: Seq<(Seq<char>, V)>, i: int)
    requires
        distinct_keys(s),
        0 <= i < s.len(),
    ensures
        assoc_map(s).contains_key(s[i].0),
        assoc_map(s)[s[i].0] == s[i].1,
    decreases s.len(),
{
    if i == s.len() - 1 {
    } else {
        assert(s[i].0 != s.last().0);
        assert(distinct_keys(s.drop_last())) by {
            assert(forall|a: int, b: int|
                0 <= a < b < s.drop_last().len() ==> (#[trigger] s.drop_last()[a]).0 != (
                #[trigger] s.drop_last()[b]).0) by {
                assert(forall|a: int|
                    0 <= a < s.drop_last().len() ==> #[trigger] s.drop_last()[a] == s[a]);
            }
        }
        assert(s.drop_last()[i] == s[i]);
        lemma_assoc_map_index(s.drop_last(), i);
    }
}

/// Appending a pair inserts its key.
pub proof fn lemma_assoc_map_push<V>(s: Seq<(Seq<char>, V)>, p: (Seq<char>, V))
    ensures
        assoc_map(s.push(p)) == assoc_map(s).insert(p.0, p.1),
{
    assert(s.push(p).drop_last() =~= s);
    assert(s.push(p).last() == p);
}

/// With distinct keys, removing the pair at an index removes its key.
pub proof fn lemma_assoc_map_remove<V>(s: Seq<(Seq<char>, V)>, i: int)
    requires
        distinct_keys(s),
        0 <= i < s.len(),
    ensures
        assoc_map(s.remove(i)) == assoc_map(s).remove(s[i].0),
    decreases s.len(),
{
    if i == s.len() - 1 {
        assert(s.remove(i) =~= s.drop_last());
        lemma_assoc_map_contains(s.drop_last(), s.last().0);
        assert(forall|a: int|
            0 <= a < s.drop_last().len() ==> #[trigger] s.drop_last()[a] == s[a]);
        assert(!assoc_map(s.drop_last()).contains_key(s.last().0));
        assert(assoc_map(s.remove(i)) =~= assoc_map(s).remove(s[i].0));
    } else {
        let dl = s.drop_last();
        assert(forall|a: int| 0 <= a < dl.len() ==> #[trigger] dl[a] == s[a]);
        assert(distinct_keys(dl));
        lemma_assoc_map_remove(dl, i);
        assert(s.remove(i).drop_last() =~= dl.remove(i));
        assert(s.remove(i).last() == s.last());
        assert(s[i].0 != s.last().0);
        assert(assoc_map(s.remove(i)) == assoc_map(dl.remove(i)).insert(s.last().0, s.last().1));
        assert(assoc_map(s.remove(i)) =~= assoc_map(s).remove(s[i].0));
    }
}

/// Appending a pair with a fresh key keeps the keys distinct.
pub proof fn lemma_distinct_push<V>(s: Seq<(Seq<char>, V)>, p: (Seq<char>, V))
    requires
        distinct_keys(s),
        forall|j: int| 0 <= j < s.len() ==> (#[trigger] s[j]).0 != p.0,
    ensures
        distinct_keys(s.push(p)),
{
    assert forall|a: int, b: int| 0 <= a < b < s.push(p).len() implies (#[trigger] s.push(p)[a]).0
        != (#[trigger] s.push(p)[b]).0 by {
        if b < s.len() {
            assert(s.push(p)[a] == s[a]);
            assert(s.push(p)[b] == s[b]);
        } else {
            assert(s.push(p)[a] == s[a]);
            assert(s.push(p)[b] == p);
        }
    }
}

/// Removing a pair keeps the keys distinct.
pub proof fn lemma_distinct_remove<V>(s: Seq<(Seq<char>, V)>, i: int)
    requires
        distinct_keys(s),
        0 <= i < s.len(),
    ensures
        distinct_keys(s.remove(i)),
{
    assert forall|a: int, b: int| 0 <= a < b < s.remove(i).len() implies (
    #[trigger] s.remove(i)[a]).0 != (#[trigger] s.remove(i)[b]).0 by {
        assert(s.remove(i)[a] == if a < i {
            s[a]
        } else {
            s[a + 1]
        });
        assert(s.remove(i)[b] == if b < i {
            s[b]
        } else {
            s[b + 1]
        });
    }
}

/// The key/value pairs a group vector stands for.
pub open spec fn group_entries(s: Seq<Group>) -> Seq<(Seq<char>, GroupView)> {
    s.map_values(|g: Group| (g@.id, g@))
}

/// The key/value pairs a payment vector stands for.
pub open spec fn payment_entries(s: Seq<Payment>) -> Seq<(Seq<char>, PaymentView)> {
    s.map_values(|p: Payment| (p@.id, p@))
}

/// The key/value pairs a user vector stands for.
pub open spec fn user_entries(s: Seq<User>) -> Seq<(Seq<char>, UserView)> {
    s.map_values(|u: User| (u@.id, u@))
}

/// An in-memory `Repository`: three vectors of records with pairwise
/// distinct identifiers.
pub struct MemoryRepository {
    groups: Vec<Group>,
    payments: Vec<Payment>,
    users: Vec<User>,
}

impl MemoryRepository {
    /// An empty store.
    pub fn new() -> (r: MemoryRepository)
        ensures
            r.wf(),
            r.reliable(),
            r.groups() == Map::<Seq<char>, GroupView>::empty(),
            r.payments() == Map::<Seq<char>, PaymentView>::empty(),
            r.users() == Map::<Seq<char>, UserView>::empty(),
    {
        let r = MemoryRepository { groups: Vec::new(), payments: Vec::new(), users: Vec::new() };
        proof {
            assert(group_entries(r.groups@) =~= Seq::<(Seq<char>, GroupView)>::empty());
            assert(payment_entries(r.payments@) =~= Seq::<(Seq<char>, PaymentView)>::empty());
            assert(user_entries(r.users@) =~= Seq::<(Seq<char>, UserView)>::empty());
        }
        r
    }
}

/// The index holding the given group identifier, if any.
fn find_group(v: &Vec<Group>, id: &GroupID) -> (r: Option<usize>)
    ensures
        match r {
            Some(i) => 0 <= i < v@.len() && v@[i as int]@.id == id@,
            None => forall|j: int| 0 <= j < v@.len() ==> (#[trigger] v@[j])@.id != id@,
        },
{
    let n = v.len();
    let mut i: usize = 0;
    while i < n
        invariant
            n == v@.len(),
            i <= n,
            forall|j: int| 0 <= j < i ==> (#[trigger] v@[j])@.id != id@,
        decreases n - i,
    {
        if v[i].id.0 == id.0 {
            return Some(i);
        }
        i = i + 1;
    }
    None
}

/// The index holding the given payment identifier, if any.
fn find_payment(v: &Vec<Payment>, id: &PaymentID) -> (r: Option<usize>)
    ensures
        match r {
            Some(i) => 0 <= i < v@.len() && v@[i as int]@.id == id@,
            None => forall|j: int| 0 <= j < v@.len() ==> (#[trigger] v@[j])@.id != id@,
        },
{
    let n = v.len();
    let mut i: usize = 0;
    while i < n
        invariant
            n == v@.len(),
            i <= n,
            forall|j: int| 0 <= j < i ==> (#[trigger] v@[j])@.id != id@,
        decreases n - i,
    {
        if v[i].id.0 == id.0 {
            return Some(i);
        }
        i = i + 1;
    }
    None
}

/// The index holding the given user identifier, if any.
fn find_user(v: &Vec<User>, id: &UserID) -> (r: Option<usize>)
    ensures
        match r {
            Some(i) => 0 <= i < v@.len() && v@[i as int]@.id == id@,
            None => forall|j: int| 0 <= j < v@.len() ==> (#[trigger] v@[j])@.id != id@,
        },
{
    let n = v.len();
    let mut i: usize = 0;
    while i < n
        invariant
            n == v@.len(),
            i <= n,
            forall|j: int| 0 <= j < i ==> (#[trigger] v@[j])@.id != id@,
        decreases n - i,
    {
        if v[i].id.0 == id.0 {
            return Some(i);
        }
        i = i + 1;
    }
    None
}

impl Repository for MemoryRepository {
    closed spec fn groups(&self) -> Map<Seq<char>, GroupView> {
        assoc_map(group_entries(self.groups@))
    }

    closed spec fn payments(&self) -> Map<Seq<char>, PaymentView> {
        assoc_map(payment_entries(self.payments@))
    }

    closed spec fn users(&self) -> Map<Seq<char>, UserView> {
        assoc_map(user_entries(self.users@))
    }

    closed spec fn wf(&self) -> bool {
        distinct_keys(group_entries(self.groups@)) && distinct_keys(
            payment_entries(self.payments@),
        ) && distinct_keys(user_entries(self.users@))
    }

    closed spec fn reliable(&self) -> bool {
        true
    }

    fn create_group(&mut self, group: Group) -> (r: Result<Group, StoreError>) {
        match find_group(&self.groups, &group.id) {
            Some(i) => {
                proof {
                    lemma_assoc_map_index(group_entries(self.groups@), i as int);
                }
                Err(StoreError::Fault)
            },
            None => {
                proof {
                    lemma_assoc_map_contains(group_entries(self.groups@), group@.id);
                    lemma_assoc_map_push(group_entries(self.groups@), (group@.id, group@));
                }
                let returned = group.clone();
                let ghost s0 = self.groups@;
                self.groups.push(group);
                proof {
                    assert(group_entries(self.groups@) =~= group_entries(s0).push(
                        (group@.id, group@),
                    ));
                    lemma_distinct_push(group_entries(s0), (group@.id, group@));
                }
                Ok(returned)
            },
        }
    }

    fn delete_group(&mut self, id: &GroupID) -> (r: Result<(), StoreError>) {
        match find_group(&self.groups, id) {
            None => {
                proof {
                    lemma_assoc_map_contains(group_entries(self.groups@), id@);
                }
                Err(StoreError::NotFound)
            },
            Some(i) => {
                proof {
                    lemma_assoc_map_index(group_entries(self.groups@), i as int);
                    lemma_assoc_map_remove(group_entries(self.groups@), i as int);
                }
                let ghost s0 = self.groups@;
                self.groups.remove(i);
                proof {
                    assert(group_entries(self.groups@) =~= group_entries(s0).remove(i as int));
                    lemma_distinct_remove(group_entries(s0), i as int);
                }
                Ok(())
            },
        }
    }

    fn get_group(&self, id: &GroupID) -> (r: Result<Option<Group>, StoreError>) {
        match find_group(&self.groups, id) {
            Some(i) => {
                proof {
                    lemma_assoc_map_index(group_entries(self.groups@), i as int);
                }
                Ok(Some(self.groups[i].clone()))
            },
            None => {
                proof {
                    lemma_assoc_map_contains(group_entries(self.groups@), id@);
                }
                Ok(None)
            },
        }
    }

    fn get_groups_by_user(&self, id: &UserID) -> (r: Result<Vec<Group>, StoreError>) {
        let mut out: Vec<Group> = Vec::new();
        let n = self.groups.len();
        let mut i: usize = 0;
        while i < n
            invariant
                n == self.groups@.len(),
                i <= n,
                distinct_keys(group_entries(self.groups@)),
                forall|a: int|
                    0 <= a < out@.len() ==> {
                        &&& self.groups().contains_key((#[trigger] out@[a])@.id)
                        &&& self.groups()[out@[a]@.id] == out@[a]@
                        &&& out@[a]@.participants.contains(id@)
                    },
                forall|j: int|
                    0 <= j < i && (#[trigger] self.groups@[j])@.participants.contains(id@)
                        ==> contains_group_id(out@, self.groups@[j]@.id),
                forall|j: int|
                    i <= j < n ==> !contains_group_id(out@, (#[trigger] self.groups@[j])@.id),
                forall|a: int, b: int|
                    0 <= a < b < out@.len() ==> (#[trigger] out@[a])@.id != (#[trigger] out@[b])@.id,
            decreases n - i,
        {
            if self.groups[i].has_participant(&id.0) {
                proof {
                    lemma_assoc_map_index(group_entries(self.groups@), i as int);
                    assert(group_entries(self.groups@)[i as int] == (
                        self.groups@[i as int]@.id,
                        self.groups@[i as int]@,
                    ));
                }
                let ghost out0 = out@;
                let pushed = self.groups[i].clone();
                out.push(pushed);
                proof {
                    assert(out@ == out0.push(pushed));
                    assert(pushed@ == self.groups@[i as int]@);
                    assert forall|a: int| 0 <= a < out0.len() implies (#[trigger] out0[a])@.id
                        != pushed@.id by {
                        assert(!contains_group_id(out0, self.groups@[i as int]@.id));
                        if (out0[a])@.id == pushed@.id {
                            assert(contains_group_id(out0, self.groups@[i as int]@.id));
                        }
                    }
                    assert forall|j: int|
                        0 <= j < i + 1 && (#[trigger] self.groups@[j])@.participants.contains(id@)
                        implies contains_group_id(out@, self.groups@[j]@.id) by {
                        lemma_contains_group_id_push(out0, pushed, self.groups@[j]@.id);
                    }
                    assert forall|j: int| i + 1 <= j < n implies !contains_group_id(
                        out@,
                        (#[trigger] self.groups@[j])@.id,
                    ) by {
                        lemma_contains_group_id_push(out0, pushed, self.groups@[j]@.id);
                        assert(group_entries(self.groups@)[j] == (
                            self.groups@[j]@.id,
                            self.groups@[j]@,
                        ));
                        assert(pushed@.id != self.groups@[j]@.id);
                        assert(!contains_group_id(out0, self.groups@[j]@.id));
                        if contains_group_id(out@, self.groups@[j]@.id) {
                            let a = choose|a: int|
                                0 <= a < out@.len() && (#[trigger] out@[a])@.id
                                    == self.groups@[j]@.id;
                            if a < out0.len() {
                                assert(out@[a] == out0[a]);
                                assert(contains_group_id(out0, self.groups@[j]@.id));
                            } else {
                                assert(out@[a] == pushed);
                            }
                        }
                    }
                }
            }
            i = i + 1;
        }
        proof {
            assert forall|k: Seq<char>|
                #[trigger] self.groups().contains_key(k)
                    && self.groups()[k].participants.contains(id@) implies contains_group_id(
                out@,
                k,
            ) by {
                lemma_assoc_map_contains(group_entries(self.groups@), k);
                let j = choose|j: int|
                    0 <= j < group_entries(self.groups@).len() && (#[trigger] group_entries(
                        self.groups@,
                    )[j]).0 == k;
                lemma_assoc_map_index(group_entries(self.groups@), j);
                assert(group_entries(self.groups@)[j] == (
                    self.groups@[j]@.id,
                    self.groups@[j]@,
                ));
                assert(self.groups@[j]@.participants.contains(id@));
            }
        }
        Ok(out)
    }

    fn create_payment(&mut self, payment: Payment) -> (r: Result<Payment, StoreError>) {
        match find_payment(&self.payments, &payment.id) {
            Some(i) => {
                proof {
                    lemma_assoc_map_index(payment_entries(self.payments@), i as int);
                }
                Err(StoreError::Fault)
            },
            None => {
                proof {
                    lemma_assoc_map_contains(payment_entries(self.payments@), payment@.id);
                    lemma_assoc_map_push(payment_entries(self.payments@), (payment@.id, payment@));
                }
                let returned = payment.clone();
                let ghost s0 = self.payments@;
                self.payments.push(payment);
                proof {
                    assert(payment_entries(self.payments@) =~= payment_entries(s0).push(
                        (payment@.id, payment@),
                    ));
                    lemma_distinct_push(payment_entries(s0), (payment@.id, payment@));
                }
                Ok(returned)
            },
        }
    }

    fn delete_payment(&mut self, id: &PaymentID) -> (r: Result<(), StoreError>) {
        match find_payment(&self.payments, id) {
            None => {
                proof {
                    lemma_assoc_map_contains(payment_entries(self.payments@), id@);
                }
                Err(StoreError::NotFound)
            },
            Some(i) => {
                proof {
                    lemma_assoc_map_index(payment_entries(self.payments@), i as int);
                    lemma_assoc_map_remove(payment_entries(self.payments@), i as int);
                }
                let ghost s0 = self.payments@;
                self.payments.remove(i);
                proof {
                    assert(payment_entries(self.payments@) =~= payment_entries(s0).remove(i as int));
                    lemma_distinct_remove(payment_entries(s0), i as int);
                }
                Ok(())
            },
        }
    }

    fn get_payment(&self, id: &PaymentID) -> (r: Result<Option<Payment>, StoreError>) {
        match find_payment(&self.payments, id) {
            Some(i) => {
                proof {
                    lemma_assoc_map_index(payment_entries(self.payments@), i as int);
                }
                Ok(Some(self.payments[i].clone()))
            },
            None => {
                proof {
                    lemma_assoc_map_contains(payment_entries(self.payments@), id@);
                }
                Ok(None)
            },
        }
    }

    fn get_payments_by_group(&self, group: &GroupID) -> (r: Result<Vec<Payment>, StoreError>) {
        let mut out: Vec<Payment> = Vec::new();
        let n = self.payments.len();
        let mut i: usize = 0;
        while i < n
            invariant
                n == self.payments@.len(),
                i <= n,
                distinct_keys(payment_entries(self.payments@)),
                forall|a: int|
                    0 <= a < out@.len() ==> {
                        &&& self.payments().contains_key((#[trigger] out@[a])@.id)
                        &&& self.payments()[out@[a]@.id] == out@[a]@
                        &&& out@[a]@.group == group@
                    },
                forall|j: int|
                    0 <= j < i && (#[trigger] self.payments@[j])@.group == group@
                        ==> contains_payment_id(out@, self.payments@[j]@.id),
                forall|j: int|
                    i <= j < n ==> !contains_payment_id(out@, (#[trigger] self.payments@[j])@.id),
                forall|a: int, b: int|
                    0 <= a < b < out@.len() ==> (#[trigger] out@[a])@.id != (#[trigger] out@[b])@.id,
            decreases n - i,
        {
            if self.payments[i].group.0 == group.0 {
                proof {
                    lemma_assoc_map_index(payment_entries(self.payments@), i as int);
                    assert(payment_entries(self.payments@)[i as int] == (
                        self.payments@[i as int]@.id,
                        self.payments@[i as int]@,
                    ));
                }
                let ghost out0 = out@;
                let pushed = self.payments[i].clone();
                out.push(pushed);
                proof {
                    assert(out@ == out0.push(pushed));
                    assert(pushed@ == self.payments@[i as int]@);
                    assert forall|a: int| 0 <= a < out0.len() implies (#[trigger] out0[a])@.id
                        != pushed@.id by {
                        assert(!contains_payment_id(out0, self.payments@[i as int]@.id));
                        if (out0[a])@.id == pushed@.id {
                            assert(contains_payment_id(out0, self.payments@[i as int]@.id));
                        }
                    }
                    assert forall|j: int|
                        0 <= j < i + 1 && (#[trigger] self.payments@[j])@.group == group@
                        implies contains_payment_id(out@, self.payments@[j]@.id) by {
                        lemma_contains_payment_id_push(out0, pushed, self.payments@[j]@.id);
                    }
                    assert forall|j: int| i + 1 <= j < n implies !contains_payment_id(
                        out@,
                        (#[trigger] self.payments@[j])@.id,
                    ) by {
                        lemma_contains_payment_id_push(out0, pushed, self.payments@[j]@.id);
                        assert(payment_entries(self.payments@)[j] == (
                            self.payments@[j]@.id,
                            self.payments@[j]@,
                        ));
                        assert(pushed@.id != self.payments@[j]@.id);
                        assert(!contains_payment_id(out0, self.payments@[j]@.id));
                        if contains_payment_id(out@, self.payments@[j]@.id) {
                            let a = choose|a: int|
                                0 <= a < out@.len() && (#[trigger] out@[a])@.id
                                    == self.payments@[j]@.id;
                            if a < out0.len() {
                                assert(out@[a] == out0[a]);
                                assert(contains_payment_id(out0, self.payments@[j]@.id));
                            } else {
                                assert(out@[a] == pushed);
                            }
                        }
                    }
                }
            }
            i = i + 1;
        }
        proof {
            assert forall|k: Seq<char>|
                #[trigger] self.payments().contains_key(k) && self.payments()[k].group == group@
                implies contains_payment_id(out@, k) by {
                lemma_assoc_map_contains(payment_entries(self.payments@), k);
                let j = choose|j: int|
                    0 <= j < payment_entries(self.payments@).len() && (#[trigger] payment_entries(
                        self.payments@,
                    )[j]).0 == k;
                lemma_assoc_map_index(payment_entries(self.payments@), j);
                assert(payment_entries(self.payments@)[j] == (
                    self.payments@[j]@.id,
                    self.payments@[j]@,
                ));
                assert(self.payments@[j]@.group == group@);
            }
        }
        Ok(out)
    }

    fn create_user(&mut self, user: User) -> (r: Result<User, StoreError>) {
        match find_user(&self.users, &user.id) {
            Some(i) => {
                proof {
                    lemma_assoc_map_index(user_entries(self.users@), i as int);
                }
                Err(StoreError::Fault)
            },
            None => {
                proof {
                    lemma_assoc_map_contains(user_entries(self.users@), user@.id);
                    lemma_assoc_map_push(user_entries(self.users@), (user@.id, user@));
                }
                let returned = user.clone();
                let ghost s0 = self.users@;
                self.users.push(user);
                proof {
                    assert(user_entries(self.users@) =~= user_entries(s0).push((user@.id, user@)));
                    lemma_distinct_push(user_entries(s0), (user@.id, user@));
                }
                Ok(returned)
            },
        }
    }

    fn delete_user(&mut self, id: &UserID) -> (r: Result<(), StoreError>) {
        match find_user(&self.users, id) {
            None => {
                proof {
                    lemma_assoc_map_contains(user_entries(self.users@), id@);
                }
                Err(StoreError::NotFound)
            },
            Some(i) => {
                proof {
                    lemma_assoc_map_index(user_entries(self.users@), i as int);
                    lemma_assoc_map_remove(user_entries(self.users@), i as int);
                }
                let ghost s0 = self.users@;
                self.users.remove(i);
                proof {
                    assert(user_entries(self.users@) =~= user_entries(s0).remove(i as int));
                    lemma_distinct_remove(user_entries(s0), i as int);
                }
                Ok(())
            },
        }
    }

    fn get_user(&self, id: &UserID) -> (r: Result<Option<User>, StoreError>) {
        match find_user(&self.users, id) {
            Some(i) => {
                proof {
                    lemma_assoc_map_index(user_entries(self.users@), i as int);
                }
                Ok(Some(self.users[i].clone()))
            },
            None => {
                proof {
                    lemma_assoc_map_contains(user_entries(self.users@), id@);
                }
                Ok(None)
            },
        }
    }
}

} // verus!
