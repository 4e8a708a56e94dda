//! The record store: persistence of name records, with the three invariants
//! the directory protocol relies on — names are unique among non-deleted
//! records, ids are assigned once and never reused, and a deleted record is
//! never visible.

use crate::models::{User, UserView};
use vstd::prelude::*;

verus! {

/// A store-layer failure surfaced to the protocol handler.
#[derive(Debug, PartialEq, Eq)]
pub enum StoreError {
    /// A Register asked for a name an existing non-deleted record carries.
    DuplicateName,
}

/// The views of a sequence of records, in order.
pub open spec fn user_views(v: Seq<User>) -> Seq<UserView> {
    v.map_values(|u: User| u@)
}

/// The non-deleted records of the store, in store (that is, id) order.
pub open spec fn living_records(s: Seq<UserView>) -> Seq<UserView>
    decreases s.len(),
{
    if s.len() == 0 {
        Seq::empty()
    } else {
        let rest = living_records(s.drop_last());
        if s.last().is_deleted {
            rest
        } else {
            rest.push(s.last())
        }
    }
}

/// Record `i` exists, is not deleted, and carries `name`.
pub open spec fn living_named(s: Seq<UserView>, name: Seq<char>, i: int) -> bool {
    &&& 0 <= i < s.len()
    &&& !s[i].is_deleted
    &&& s[i].name == name
}

/// Record `i` exists, is visible to Search, and carries `name`.
pub open spec fn searchable_named(s: Seq<UserView>, name: Seq<char>, i: int) -> bool {
    &&& 0 <= i < s.len()
    &&& s[i].is_actived
    &&& !s[i].is_deleted
    &&& s[i].name == name
}

/// Some non-deleted record carries `name`.
pub open spec fn has_living(s: Seq<UserView>, name: Seq<char>) -> bool {
    exists|i: int| living_named(s, name, i)
}

/// Some record visible to Search carries `name`.
pub open spec fn has_searchable(s: Seq<UserView>, name: Seq<char>) -> bool {
    exists|i: int| searchable_named(s, name, i)
}

/// The position of the non-deleted record carrying `name`; meaningful only
/// when `has_living` holds (well-formedness makes it unique).
pub open spec fn living_index(s: Seq<UserView>, name: Seq<char>) -> int {
    choose|i: int| living_named(s, name, i)
}

/// The position of the searchable record carrying `name`; meaningful only
/// when `has_searchable` holds.
pub open spec fn searchable_index(s: Seq<UserView>, name: Seq<char>) -> int {
    choose|i: int| searchable_named(s, name, i)
}

/// What Search returns: the record visible under `name`, if any.
pub open spec fn spec_search(s: Seq<UserView>, name: Seq<char>) -> Option<UserView> {
    if has_searchable(s, name) {
        Some(s[searchable_index(s, name)])
    } else {
        None
    }
}

/// What a lookup that admits suspended records returns: the non-deleted
/// record under `name`, if any.
pub open spec fn spec_find_living(s: Seq<UserView>, name: Seq<char>) -> Option<UserView> {
    if has_living(s, name) {
        Some(s[living_index(s, name)])
    } else {
        None
    }
}

/// What a lookup by id returns: the non-deleted record with that id, if any.
pub open spec fn spec_find_by_id(s: Seq<UserView>, id: int) -> Option<UserView> {
    if 1 <= id <= s.len() && !s[id - 1].is_deleted {
        Some(s[id - 1])
    } else {
        None
    }
}

/// The record as the store registers it: the assigned id, never deleted.
pub open spec fn with_id(u: UserView, id: int) -> UserView {
    UserView {
        id: id,
        name: u.name,
        pid: u.pid,
        bio: u.bio,
        avatar: u.avatar,
        is_actived: u.is_actived,
        is_deleted: false,
        datetime: u.datetime,
    }
}

/// The record with its bio and avatar replaced.
pub open spec fn with_profile(u: UserView, bio: Seq<char>, avatar: Seq<u8>) -> UserView {
    UserView {
        id: u.id,
        name: u.name,
        pid: u.pid,
        bio: bio,
        avatar: avatar,
        is_actived: u.is_actived,
        is_deleted: u.is_deleted,
        datetime: u.datetime,
    }
}

/// The record with its visibility flag replaced.
pub open spec fn with_actived(u: UserView, actived: bool) -> UserView {
    UserView {
        id: u.id,
        name: u.name,
        pid: u.pid,
        bio: u.bio,
        avatar: u.avatar,
        is_actived: actived,
        is_deleted: u.is_deleted,
        datetime: u.datetime,
    }
}

/// The record soft-deleted: invisible, marked deleted, its avatar blob
/// removed; the row itself is retained.
pub open spec fn deleted_view(u: UserView) -> UserView {
    UserView {
        id: u.id,
        name: u.name,
        pid: u.pid,
        bio: u.bio,
        avatar: Seq::empty(),
        is_actived: false,
        is_deleted: true,
        datetime: u.datetime,
    }
}

/// The store after a profile update: the non-deleted record with the given id
/// gets the new bio and avatar; any other store is unchanged.
pub open spec fn spec_update_profile(
    s: Seq<UserView>,
    id: int,
    bio: Seq<char>,
    avatar: Seq<u8>,
) -> Seq<UserView> {
    if 1 <= id <= s.len() && !s[id - 1].is_deleted {
        s.update(id - 1, with_profile(s[id - 1], bio, avatar))
    } else {
        s
    }
}

/// The store after a visibility change of the non-deleted record with the
/// given id; any other store is unchanged.
pub open spec fn spec_set_actived(s: Seq<UserView>, id: int, actived: bool) -> Seq<UserView> {
    if 1 <= id <= s.len() && !s[id - 1].is_deleted {
        s.update(id - 1, with_actived(s[id - 1], actived))
    } else {
        s
    }
}

/// The store after a soft delete of the record with the given id; deleting an
/// absent id changes nothing, and deleting twice equals deleting once.
pub open spec fn spec_delete(s: Seq<UserView>, id: int) -> Seq<UserView> {
    if 1 <= id <= s.len() {
        s.update(id - 1, deleted_view(s[id - 1]))
    } else {
        s
    }
}

/// Well-formedness of the store's contents:
/// - the record at position `i` carries id `i + 1` (ids are assigned
///   monotonically and never reused);
/// - among non-deleted records, names are unique;
/// - a deleted record is never visible to Search.
pub open spec fn store_wf(s: Seq<UserView>) -> bool {
    &&& forall|i: int| 0 <= i < s.len() ==> (#[trigger] s[i]).id == i + 1
    &&& forall|i: int, j: int|
        #![trigger s[i], s[j]]
        0 <= i < s.len() && 0 <= j < s.len() && i != j && !s[i].is_deleted && !s[j].is_deleted
            ==> s[i].name != s[j].name
    &&& forall|i: int| 0 <= i < s.len() && (#[trigger] s[i]).is_deleted ==> !s[i].is_actived
}

/// The record store. It exclusively owns persistence: the protocol handler
/// holds no record state across calls.
pub struct UserStore {
    users: Vec<User>,
}

impl View for UserStore {
    type V = Seq<UserView>;

    closed spec fn view(&self) -> Seq<UserView> {
        user_views(self.users@)
    }
}

impl UserStore {
    /// Well-formedness; established by `new` and preserved by every method.
    pub open spec fn wf(&self) -> bool {
        store_wf(self@)
    }

    /// An empty store.
    pub fn new() -> (r: UserStore)
        ensures
            r@ == Seq::<UserView>::empty(),
            r.wf(),
    {
        let r = UserStore { users: Vec::new() };
        proof {
            assert(r@ =~= Seq::<UserView>::empty());
        }
        r
    }

    /// How many records the store holds, deleted ones included.
    pub fn count(&self) -> (n: usize)
        ensures
            n == self@.len(),
    {
        self.users.len()
    }

    /// The position of the non-deleted record carrying `name`, if any; by
    /// well-formedness there is at most one.
    fn find_living_index(&self, name: &String) -> (r: Option<usize>)
        requires
            self.wf(),
        ensures
            match r {
                Some(i) => living_named(self@, name@, i as int) && i as int == living_index(
                    self@,
                    name@,
                ),
                None => !has_living(self@, name@),
            },
    {
        let mut i: usize = 0;
        while i < self.users.len()
            invariant
                self.wf(),
                i <= self.users.len(),
                forall|j: int| 0 <= j < i ==> !living_named(self@, name@, j),
            decreases self.users.len() - i,
        {
            if !self.users[i].is_deleted && self.users[i].name == *name {
                proof {
                    assert(living_named(self@, name@, i as int));
                    let k = living_index(self@, name@);
                    assert(living_named(self@, name@, k));
                    assert(k == i as int);
                }
                return Some(i);
            }
            i = i + 1;
        }
        None
    }

    /// Exact-name lookup among records visible to Search.
    pub fn search(&self, name: &String) -> (r: Option<User>)
        requires
            self.wf(),
        ensures
            match r {
                Some(u) => spec_search(self@, name@) == Some(u@),
                None => spec_search(self@, name@) is None,
            },
    {
        match self.find_living_index(name) {
            Some(i) => {
                if self.users[i].is_actived {
                    proof {
                        assert(searchable_named(self@, name@, i as int));
                        let k = searchable_index(self@, name@);
                        assert(searchable_named(self@, name@, k));
                        assert(k == i as int);
                    }
                    Some(self.users[i].duplicate())
                } else {
                    proof {
                        if has_searchable(self@, name@) {
                            let k = searchable_index(self@, name@);
                            assert(searchable_named(self@, name@, k));
                            assert(living_named(self@, name@, k));
                        }
                    }
                    None
                }
            },
            None => {
                proof {
                    if has_searchable(self@, name@) {
                        let k = searchable_index(self@, name@);
                        assert(searchable_named(self@, name@, k));
                        assert(living_named(self@, name@, k));
                    }
                }
                None
            },
        }
    }

    /// Exact-name lookup among non-deleted records, suspended ones included.
    pub fn get_by_name(&self, name: &String) -> (r: Option<User>)
        requires
            self.wf(),
        ensures
            match r {
                Some(u) => spec_find_living(self@, name@) == Some(u@),
                None => spec_find_living(self@, name@) is None,
            },
    {
        match self.find_living_index(name) {
            Some(i) => Some(self.users[i].duplicate()),
            None => None,
        }
    }

    /// Lookup by record id among non-deleted records.
    pub fn get_by_id(&self, id: u64) -> (r: Option<User>)
        requires
            self.wf(),
        ensures
            match r {
                Some(u) => spec_find_by_id(self@, id as int) == Some(u@),
                None => spec_find_by_id(self@, id as int) is None,
            },
    {
        if id >= 1 && id <= self.users.len() as u64 {
            let idx = (id - 1) as usize;
            if !self.users[idx].is_deleted {
                return Some(self.users[idx].duplicate());
            }
        }
        None
    }

    /// Creates a record with the next id. Fails, and changes nothing, exactly
    /// when a non-deleted record already carries the name: a deleted record's
    /// name may be registered again.
    pub fn insert(&mut self, user: User) -> (r: Result<u64, StoreError>)
        requires
            old(self).wf(),
            old(self)@.len() < u64::MAX,
        ensures
            final(self).wf(),
            has_living(old(self)@, user@.name) ==> r == Err::<u64, StoreError>(
                StoreError::DuplicateName,
            ) && final(self)@ == old(self)@,
            !has_living(old(self)@, user@.name) ==> r == Ok::<u64, StoreError>(
                (old(self)@.len() + 1) as u64,
            ) && final(self)@ == old(self)@.push(with_id(user@, old(self)@.len() + 1 as int)),
    {
        match self.find_living_index(&user.name) {
            Some(_) => Err(StoreError::DuplicateName),
            None => {
                let id = self.users.len() as u64 + 1;
                let mut u = user;
                u.id = id;
                u.is_deleted = false;
                let ghost prev = self@;
                self.users.push(u);
                proof {
                    assert(self@ =~= prev.push(with_id(user@, prev.len() + 1 as int)));
                    assert forall|i: int, j: int|
                        #![trigger self@[i], self@[j]]
                        0 <= i < self@.len() && 0 <= j < self@.len() && i != j
                            && !self@[i].is_deleted && !self@[j].is_deleted implies self@[i].name
                        != self@[j].name by {
                        if i < prev.len() && j < prev.len() {
                            assert(prev[i] == self@[i] && prev[j] == self@[j]);
                        } else if i == prev.len() && j < prev.len() {
                            assert(!living_named(prev, user@.name, j));
                        } else if j == prev.len() && i < prev.len() {
                            assert(!living_named(prev, user@.name, i));
                        }
                    }
                }
                Ok(id)
            },
        }
    }

    /// Replaces the bio and avatar of the non-deleted record with the given
    /// id, in place; any other id changes nothing.
    pub fn update(&mut self, id: u64, bio: &String, avatar: &Vec<u8>)
        requires
            old(self).wf(),
        ensures
            final(self).wf(),
            final(self)@ == spec_update_profile(old(self)@, id as int, bio@, avatar@),
    {
        if id >= 1 && id <= self.users.len() as u64 {
            let idx = (id - 1) as usize;
            if !self.users[idx].is_deleted {
                let ghost prev = self@;
                self.users[idx].bio = bio.clone();
                self.users[idx].avatar = vstd::slice::slice_to_vec(avatar.as_slice());
                proof {
                    assert(self@ =~= spec_update_profile(prev, id as int, bio@, avatar@));
                }
            }
        }
    }

    /// Sets the visibility flag of the non-deleted record with the given id;
    /// any other id changes nothing.
    pub fn active(&mut self, id: u64, actived: bool)
        requires
            old(self).wf(),
        ensures
            final(self).wf(),
            final(self)@ == spec_set_actived(old(self)@, id as int, actived),
    {
        if id >= 1 && id <= self.users.len() as u64 {
            let idx = (id - 1) as usize;
            if !self.users[idx].is_deleted {
                let ghost prev = self@;
                self.users[idx].is_actived = actived;
                proof {
                    assert(self@ =~= spec_set_actived(prev, id as int, actived));
                }
            }
        }
    }

    /// Soft-deletes the record with the given id: marks it invisible and
    /// deleted and removes its avatar blob; the row is retained. Deleting an
    /// absent id changes nothing.
    pub fn delete(&mut self, id: u64)
        requires
            old(self).wf(),
        ensures
            final(self).wf(),
            final(self)@ == spec_delete(old(self)@, id as int),
    {
        if id >= 1 && id <= self.users.len() as u64 {
            let idx = (id - 1) as usize;
            let ghost prev = self@;
            self.users[idx].is_actived = false;
            self.users[idx].is_deleted = true;
            self.users[idx].avatar = Vec::new();
            proof {
                assert(self@ =~= spec_delete(prev, id as int));
            }
        }
    }

    /// All non-deleted records, in id order, as owned copies.
    pub fn list(&self) -> (r: Vec<User>)
        requires
            self.wf(),
        ensures
            user_views(r@) == living_records(self@),
    {
        let mut r: Vec<User> = Vec::new();
        let mut i: usize = 0;
        while i < self.users.len()
            invariant
                self.wf(),
                i <= self.users.len(),
                user_views(r@) == living_records(self@.take(i as int)),
            decreases self.users.len() - i,
        {
            let ghost prefix = self@.take(i as int);
            let ghost grown = self@.take(i + 1 as int);
            proof {
                assert(grown.drop_last() =~= prefix);
                assert(grown.last() == self@[i as int]);
            }
            if !self.users[i].is_deleted {
                r.push(self.users[i].duplicate());
            }
            proof {
                assert(user_views(r@) =~= living_records(grown));
            }
            i = i + 1;
        }
        proof {
            assert(self@.take(self@.len() as int) =~= self@);
        }
        r
    }
}

} // verus!
