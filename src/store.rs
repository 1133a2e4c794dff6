use vstd::prelude::*;

use crate::text::same_text;

verus! {

/// A stored user record; `password` holds the hash, never the raw password.
/// Timestamps are epoch seconds.
#[derive(Debug)]
pub struct Model {
    pub id: i32,
    pub name: String,
    pub email: String,
    pub password: String,
    pub created_at: i64,
    pub updated_at: i64,
}

pub struct UserView {
    pub id: int,
    pub name: Seq<char>,
    pub email: Seq<char>,
    pub password: Seq<char>,
    pub created_at: int,
    pub updated_at: int,
}

impl View for Model {
    type V = UserView;

    open spec fn view(&self) -> UserView {
        UserView {
            id: self.id as int,
            name: self.name@,
            email: self.email@,
            password: self.password@,
            created_at: self.created_at as int,
            updated_at: self.updated_at as int,
        }
    }
}

impl Model {
    /// A copy of the record.
    pub fn duplicate(&self) -> (r: Model)
        ensures
            r@ == self@,
    {
        Model {
            id: self.id,
            name: self.name.clone(),
            email: self.email.clone(),
            password: self.password.clone(),
            created_at: self.created_at,
            updated_at: self.updated_at,
        }
    }
}

/// Ids are positive and strictly increasing along the store.
pub open spec fn ids_ordered(users: Seq<UserView>) -> bool {
    &&& forall|i: int| 0 <= i < users.len() ==> users[i].id >= 1
    &&& forall|i: int, j: int| 0 <= i < j < users.len() ==> users[i].id < users[j].id
}

/// Some record has identifier `id`.
pub open spec fn has_id(users: Seq<UserView>, id: int) -> bool {
    exists|i: int| 0 <= i < users.len() && users[i].id == id
}

/// Record `i` is the one with identifier `id`.
pub open spec fn id_at(users: Seq<UserView>, id: int, i: int) -> bool {
    0 <= i < users.len() && users[i].id == id
}

/// Record `i` is the first with address `email`.
pub open spec fn first_with_email(users: Seq<UserView>, email: Seq<char>, i: int) -> bool {
    &&& 0 <= i < users.len()
    &&& users[i].email == email
    &&& forall|j: int| 0 <= j < i ==> users[j].email != email
}

/// Some record has address `email`.
pub open spec fn has_email(users: Seq<UserView>, email: Seq<char>) -> bool {
    exists|i: int| 0 <= i < users.len() && users[i].email == email
}

/// The new value of a field that an update may leave out.
pub open spec fn text_or(given: Option<String>, kept: Seq<char>) -> Seq<char> {
    match given {
        Some(s) => s@,
        None => kept,
    }
}

/// A record after an update that sets the given fields and the update time.
pub open spec fn updated_record(
    u: UserView,
    name: Option<String>,
    email: Option<String>,
    password: Option<String>,
    now: int,
) -> UserView {
    UserView {
        id: u.id,
        name: text_or(name, u.name),
        email: text_or(email, u.email),
        password: text_or(password, u.password),
        created_at: u.created_at,
        updated_at: now,
    }
}

/// Model records in memory, each with an identifier that the store assigns.
pub struct UserStore {
    users: Vec<Model>,
    next_id: i32,
}

impl View for UserStore {
    type V = Seq<UserView>;

    closed spec fn view(&self) -> Seq<UserView> {
        self.users@.map_values(|u: Model| u@)
    }
}

impl UserStore {
    /// Every id is below the next one to be assigned, and ids are ordered.
    pub closed spec fn wf(&self) -> bool {
        &&& self.next_id >= 1
        &&& ids_ordered(self@)
        &&& forall|i: int| 0 <= i < self@.len() ==> self@[i].id < self.next_id
    }

    /// Whether the store can still assign a fresh identifier.
    pub closed spec fn has_room(&self) -> bool {
        self.next_id < i32::MAX
    }

    pub proof fn lemma_ids_ordered(&self)
        requires
            self.wf(),
        ensures
            ids_ordered(self@),
    {
    }

    /// An empty store.
    pub fn new() -> (r: Self)
        ensures
            r.wf(),
            r@ == Seq::<UserView>::empty(),
            r.has_room(),
    {
        let r = UserStore { users: Vec::new(), next_id: 1 };
        assert(r@ =~= Seq::<UserView>::empty());
        r
    }

    /// The number of records.
    pub fn len(&self) -> (r: usize)
        ensures
            r == self@.len(),
    {
        self.users.len()
    }

    /// Adds a record under a fresh identifier, larger than every one given
    /// before; `None` once identifiers run out.
    pub fn insert(&mut self, name: String, email: String, password: String, now: i64) -> (r:
        Option<Model>)
        requires
            old(self).wf(),
        ensures
            final(self).wf(),
            r is Some <==> old(self).has_room(),
            r is None ==> final(self)@ == old(self)@,
            r matches Some(u) ==> {
                &&& final(self)@ == old(self)@.push(u@)
                &&& u@.name == name@ && u@.email == email@ && u@.password == password@
                &&& u@.created_at == now && u@.updated_at == now
                &&& !has_id(old(self)@, u@.id)
                &&& u@.id >= 1
            },
    {
        if self.next_id == i32::MAX {
            return None;
        }
        let id = self.next_id;
        let u = Model { id, name, email, password, created_at: now, updated_at: now };
        let copy = u.duplicate();
        self.users.push(u);
        self.next_id = id + 1;
        proof {
            assert(self@ =~= old(self)@.push(copy@));
            assert forall|i: int| 0 <= i < old(self)@.len() implies old(self)@[i].id != id by {}
        }
        Some(copy)
    }

    /// Position of the record with identifier `id`.
    fn position(&self, id: i32) -> (r: Option<usize>)
        requires
            self.wf(),
        ensures
            r matches Some(i) ==> id_at(self@, id as int, i as int),
            r is None ==> !has_id(self@, id as int),
    {
        let mut i: usize = 0;
        while i < self.users.len()
            invariant
                i <= self.users@.len(),
                self@.len() == self.users@.len(),
                forall|k: int| 0 <= k < i ==> self@[k].id != id,
            decreases self.users.len() - i,
        {
            if self.users[i].id == id {
                return Some(i);
            }
            i = i + 1;
        }
        None
    }

    /// The record with identifier `id`.
    pub fn find(&self, id: i32) -> (r: Option<Model>)
        requires
            self.wf(),
        ensures
            r is None <==> !has_id(self@, id as int),
            r matches Some(u) ==> exists|i: int| id_at(self@, id as int, i) && self@[i] == u@,
    {
        match self.position(id) {
            Some(i) => Some(self.users[i].duplicate()),
            None => None,
        }
    }

    /// The first record with address `email`.
    pub fn find_by_email(&self, email: &str) -> (r: Option<Model>)
        ensures
            r is None <==> !has_email(self@, email@),
            r matches Some(u) ==> exists|i: int| first_with_email(self@, email@, i) && self@[i]
                == u@,
    {
        let mut i: usize = 0;
        while i < self.users.len()
            invariant
                i <= self.users@.len(),
                self@.len() == self.users@.len(),
                forall|k: int| 0 <= k < i ==> self@[k].email != email@,
            decreases self.users.len() - i,
        {
            if same_text(self.users[i].email.as_str(), email) {
                let u = self.users[i].duplicate();
                assert(first_with_email(self@, email@, i as int));
                return Some(u);
            }
            i = i + 1;
        }
        None
    }

    /// Copies of every record, in store order.
    pub fn all(&self) -> (r: Vec<Model>)
        ensures
            r@.map_values(|u: Model| u@) == self@,
    {
        let mut r: Vec<Model> = Vec::new();
        let mut i: usize = 0;
        while i < self.users.len()
            invariant
                i <= self.users@.len(),
                self@.len() == self.users@.len(),
                r@.len() == i,
                r@.map_values(|u: Model| u@) == self@.subrange(0, i as int),
            decreases self.users.len() - i,
        {
            let c = self.users[i].duplicate();
            let ghost prev = r@;
            assert(self@[i as int] == c@);
            r.push(c);
            assert(r@ == prev.push(c));
            i = i + 1;
            assert(r@.map_values(|u: Model| u@) =~= self@.subrange(0, i as int)) by {
                assert forall|k: int| 0 <= k < i implies r@.map_values(|u: Model| u@)[k]
                    == self@.subrange(0, i as int)[k] by {
                    if k < i - 1 {
                        assert(r@[k] == prev[k]);
                    }
                }
            }
        }
        assert(self@.subrange(0, i as int) =~= self@);
        r
    }

    /// Sets the given fields of the record with identifier `id`, and its
    /// update time; `None` where no record has that identifier.
    pub fn update(
        &mut self,
        id: i32,
        name: Option<String>,
        email: Option<String>,
        password: Option<String>,
        now: i64,
    ) -> (r: Option<Model>)
        requires
            old(self).wf(),
        ensures
            final(self).wf(),
            final(self).has_room() == old(self).has_room(),
            r is None <==> !has_id(old(self)@, id as int),
            r is None ==> final(self)@ == old(self)@,
            r matches Some(u) ==> exists|i: int|
                id_at(old(self)@, id as int, i) && u@ == updated_record(
                    old(self)@[i],
                    name,
                    email,
                    password,
                    now as int,
                ) && final(self)@ == old(self)@.update(i, u@),
    {
        let i = match self.position(id) {
            Some(i) => i,
            None => return None,
        };
        let ghost before = self@;
        let old_user = &self.users[i];
        let u = Model {
            id: old_user.id,
            name: match name {
                Some(n) => n,
                None => old_user.name.clone(),
            },
            email: match email {
                Some(e) => e,
                None => old_user.email.clone(),
            },
            password: match password {
                Some(p) => p,
                None => old_user.password.clone(),
            },
            created_at: old_user.created_at,
            updated_at: now,
        };
        let copy = u.duplicate();
        self.users.set(i, u);
        proof {
            assert(self@ =~= before.update(i as int, copy@));
            let after = self@;
            assert forall|a: int, b: int| 0 <= a < b < after.len() implies after[a].id
                < after[b].id by {
                assert(before[a].id < before[b].id);
            }
        }
        Some(copy)
    }

    /// Removes the record with identifier `id`; `false` where there is none.
    pub fn remove(&mut self, id: i32) -> (r: bool)
        requires
            old(self).wf(),
        ensures
            final(self).wf(),
            final(self).has_room() == old(self).has_room(),
            r == has_id(old(self)@, id as int),
            !r ==> final(self)@ == old(self)@,
            r ==> exists|i: int|
                id_at(old(self)@, id as int, i) && final(self)@ == old(self)@.remove(i),
    {
        match self.position(id) {
            Some(i) => {
                let ghost before = self@;
                self.users.remove(i);
                proof {
                    assert(self@ =~= before.remove(i as int));
                    let after = self@;
                    assert forall|a: int, b: int| 0 <= a < b < after.len() implies after[a].id
                        < after[b].id by {
                        if a >= i {
                            assert(before[a + 1].id < before[b + 1].id);
                        } else if b >= i {
                            assert(before[a].id < before[b + 1].id);
                        }
                    }
                }
                true
            },
            None => false,
        }
    }
}

} // verus!
