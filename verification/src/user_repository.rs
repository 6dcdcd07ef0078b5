//! The credential store: user identity records keyed by a unique numeric
//! id and a globally unique email.
//!
//! The store is an in-memory table with the contract the rest of the
//! system relies on: emails are unique, ids are never reused, and every
//! operation says exactly which rows it touched.

use vstd::prelude::*;

use crate::model::{AppError, UpdateUser, User};

verus! {

/// Owns the user identity records.
pub struct UserRepository {
    pub users: Vec<User>,
    pub next_id: u64,
}

impl UserRepository {
    /// The store's invariant: ids unique and below `next_id`, emails unique.
    pub open spec fn wf(self) -> bool {
        &&& forall|i: int, j: int|
            0 <= i < j < self.users@.len() ==> (#[trigger] self.users@[i].id) != (
            #[trigger] self.users@[j].id)
        &&& forall|i: int, j: int|
            0 <= i < j < self.users@.len() ==> (#[trigger] self.users@[i].email@) != (
            #[trigger] self.users@[j].email@)
        &&& forall|i: int| 0 <= i < self.users@.len() ==> (#[trigger] self.users@[i].id) < self.next_id
    }

    /// Whether some stored user carries `email`.
    pub open spec fn has_email(self, email: Seq<char>) -> bool {
        exists|i: int| 0 <= i < self.users@.len() && (#[trigger] self.users@[i].email@) == email
    }

    /// Whether some stored user carries `id`.
    pub open spec fn has_id(self, id: u64) -> bool {
        exists|i: int| 0 <= i < self.users@.len() && (#[trigger] self.users@[i].id) == id
    }

    /// Whether `email` already belongs to a stored user other than `id`.
    pub open spec fn email_taken_by_other(self, email: Seq<char>, id: u64) -> bool {
        exists|i: int|
            0 <= i < self.users@.len() && (#[trigger] self.users@[i].email@) == email
                && self.users@[i].id != id
    }

    /// An empty store.
    pub fn init() -> (r: Self)
        ensures
            r.wf(),
            r.users@ =~= Seq::<User>::empty(),
            r.next_id == 0,
    {
        UserRepository { users: Vec::new(), next_id: 0 }
    }

    /// Inserts a new user with a fresh id. Rejects a duplicate email, the
    /// one write the store refuses.
    #[verifier::loop_isolation(false)]
    pub fn create_user(&mut self, email: String, password: String) -> (r: Result<(), AppError>)
        requires
            old(self).wf(),
            old(self).next_id < u64::MAX,
        ensures
            final(self).wf(),
            old(self).has_email(email@) ==> r == Err::<(), AppError>(AppError::PersistenceError)
                && *final(self) == *old(self),
            !old(self).has_email(email@) ==> r == Ok::<(), AppError>(()) && final(self).users@
                == old(self).users@.push(
                (User { id: old(self).next_id, email: email, password: password }),
            ) && final(self).next_id == old(self).next_id + 1,
    {
        let n = self.users.len();
        let mut i: usize = 0;
        while i < n
            invariant
                0 <= i <= n,
                n == self.users@.len(),
                *self == *old(self),
                forall|j: int| 0 <= j < i ==> (#[trigger] self.users@[j].email@) != email@,
            decreases n - i,
        {
            if self.users[i].email == email {
                return Err(AppError::PersistenceError);
            }
            i = i + 1;
        }
        let id = self.next_id;
        self.next_id = self.next_id + 1;
        self.users.push(User { id, email, password });
        proof {
            let so = old(self).users@;
            let sn = self.users@;
            assert forall|i: int, j: int|
                0 <= i < j < sn.len() implies (#[trigger] sn[i].id) != (#[trigger] sn[j].id) by {
                if j < so.len() {
                    assert(so[i].id != so[j].id);
                } else {
                    assert(so[i].id < old(self).next_id);
                }
            }
            assert forall|i: int, j: int|
                0 <= i < j < sn.len() implies (#[trigger] sn[i].email@) != (
            #[trigger] sn[j].email@) by {
                if j < so.len() {
                    assert(so[i].email@ != so[j].email@);
                }
            }
            assert forall|i: int|
                0 <= i < sn.len() implies (#[trigger] sn[i].id) < self.next_id by {
                if i < so.len() {
                    assert(so[i].id < old(self).next_id);
                }
            }
        }
        Ok(())
    }

    /// Looks a user up by email; the email key is case-sensitive, as stored.
    #[verifier::loop_isolation(false)]
    pub fn find_by_email(&self, email: &String) -> (r: Option<User>)
        ensures
            match r {
                Some(u) => exists|i: int|
                    0 <= i < self.users@.len() && (#[trigger] self.users@[i]) == u && u.email@
                        == email@,
                None => !self.has_email(email@),
            },
    {
        let n = self.users.len();
        let mut i: usize = 0;
        while i < n
            invariant
                0 <= i <= n,
                n == self.users@.len(),
                forall|j: int| 0 <= j < i ==> (#[trigger] self.users@[j].email@) != email@,
            decreases n - i,
        {
            if self.users[i].email == *email {
                return Some(self.users[i].clone());
            }
            i = i + 1;
        }
        None
    }

    /// Changes the email of the user with `id`. A missing id matches no
    /// row: the store changes nothing and still reports success, as an
    /// update that matched nothing. When the row exists, a write that
    /// would duplicate another user's email is refused; otherwise only
    /// that row's email changes.
    #[verifier::loop_isolation(false)]
    pub fn update_user(&mut self, id: u64, new_user: UpdateUser) -> (r: Result<(), AppError>)
        requires
            old(self).wf(),
        ensures
            final(self).wf(),
            final(self).next_id == old(self).next_id,
            !old(self).has_id(id) ==> r == Ok::<(), AppError>(()) && *final(self) == *old(self),
            old(self).has_id(id) && old(self).email_taken_by_other(new_user.email@, id) ==> r
                == Err::<(), AppError>(AppError::PersistenceError) && *final(self) == *old(self),
            old(self).has_id(id) && !old(self).email_taken_by_other(new_user.email@, id) ==> r
                == Ok::<(), AppError>(()) && exists|i: int|
                0 <= i < old(self).users@.len() && (#[trigger] old(self).users@[i].id) == id
                    && final(self).users@ =~= old(self).users@.update(
                    i,
                    (User {
                        id,
                        email: new_user.email,
                        password: old(self).users@[i].password,
                    }),
                ),
    {
        let n = self.users.len();
        let mut found: Option<usize> = None;
        let mut k: usize = 0;
        while k < n
            invariant
                0 <= k <= n,
                n == self.users@.len(),
                *self == *old(self),
                match found {
                    None => forall|j: int| 0 <= j < k ==> (#[trigger] self.users@[j].id) != id,
                    Some(f) => 0 <= f < k && self.users@[f as int].id == id,
                },
            decreases n - k,
        {
            if self.users[k].id == id {
                found = Some(k);
            }
            k = k + 1;
        }
        let f = match found {
            Some(f) => f,
            None => {
                return Ok(());
            },
        };
        let mut i: usize = 0;
        while i < n
            invariant
                0 <= i <= n,
                n == self.users@.len(),
                *self == *old(self),
                forall|j: int|
                    0 <= j < i ==> !((#[trigger] self.users@[j].email@) == new_user.email@
                        && self.users@[j].id != id),
            decreases n - i,
        {
            if self.users[i].email == new_user.email && self.users[i].id != id {
                return Err(AppError::PersistenceError);
            }
            i = i + 1;
        }
        let old_row = self.users.remove(f);
        self.users.insert(f, User { id, email: new_user.email, password: old_row.password });
        proof {
            let so = old(self).users@;
            let sn = self.users@;
            assert(sn =~= so.update(
                f as int,
                (User { id, email: sn[f as int].email, password: so[f as int].password }),
            ));
            assert forall|a: int, b: int|
                0 <= a < b < sn.len() implies (#[trigger] sn[a].id) != (#[trigger] sn[b].id) by {
                assert(so[a].id != so[b].id);
            }
            assert forall|a: int, b: int|
                0 <= a < b < sn.len() implies (#[trigger] sn[a].email@) != (
            #[trigger] sn[b].email@) by {
                assert(so[a].email@ != so[b].email@);
                if a == f as int {
                    assert(!(so[b].email@ == sn[a].email@ && so[b].id != id));
                }
                if b == f as int {
                    assert(!(so[a].email@ == sn[b].email@ && so[a].id != id));
                }
            }
            assert forall|a: int|
                0 <= a < sn.len() implies (#[trigger] sn[a].id) < self.next_id by {
                assert(so[a].id < old(self).next_id);
                assert(so[f as int].id < old(self).next_id);
            }
        }
        Ok(())
    }

    /// Removes and returns the user with `id`, if present.
    #[verifier::loop_isolation(false)]
    pub fn delete_user(&mut self, id: u64) -> (r: Option<User>)
        requires
            old(self).wf(),
        ensures
            final(self).wf(),
            r is None ==> !old(self).has_id(id) && *final(self) == *old(self),
            r matches Some(u) ==> exists|i: int|
                0 <= i < old(self).users@.len() && (#[trigger] old(self).users@[i].id) == id && u
                    == old(self).users@[i] && final(self).users@ =~= old(self).users@.remove(i),
    {
        let n = self.users.len();
        let mut k: usize = 0;
        while k < n
            invariant
                0 <= k <= n,
                n == self.users@.len(),
                *self == *old(self),
                forall|j: int| 0 <= j < k ==> (#[trigger] self.users@[j].id) != id,
            decreases n - k,
        {
            if self.users[k].id == id {
                let row = self.users.remove(k);
                proof {
                    let so = old(self).users@;
                    let sn = self.users@;
                    so.remove_ensures(k as int);
                    assert forall|a: int, b: int|
                        0 <= a < b < sn.len() implies (#[trigger] sn[a].id) != (
                    #[trigger] sn[b].id) by {
                        let oa: int = if a < k { a } else { a + 1 };
                        let ob: int = if b < k { b } else { b + 1 };
                        assert(sn[a] == so[oa]);
                        assert(sn[b] == so[ob]);
                        assert(so[oa].id != so[ob].id);
                    }
                    assert forall|a: int, b: int|
                        0 <= a < b < sn.len() implies (#[trigger] sn[a].email@) != (
                    #[trigger] sn[b].email@) by {
                        let oa: int = if a < k { a } else { a + 1 };
                        let ob: int = if b < k { b } else { b + 1 };
                        assert(sn[a] == so[oa]);
                        assert(sn[b] == so[ob]);
                        assert(so[oa].email@ != so[ob].email@);
                    }
                    assert forall|a: int|
                        0 <= a < sn.len() implies (#[trigger] sn[a].id) < self.next_id by {
                        let oa: int = if a < k { a } else { a + 1 };
                        assert(sn[a] == so[oa]);
                        assert(so[oa].id < old(self).next_id);
                    }
                }
                return Some(row);
            }
            k = k + 1;
        }
        None
    }

    /// All stored users, in store order.
    #[verifier::loop_isolation(false)]
    pub fn find_all(&self) -> (r: Vec<User>)
        ensures
            r@ =~= self.users@,
    {
        let n = self.users.len();
        let mut out: Vec<User> = Vec::new();
        let mut i: usize = 0;
        while i < n
            invariant
                0 <= i <= n,
                n == self.users@.len(),
                out@ =~= self.users@.subrange(0, i as int),
            decreases n - i,
        {
            out.push(self.users[i].clone());
            i = i + 1;
        }
        out
    }
}

} // verus!
