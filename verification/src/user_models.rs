//! The user table's row type and its mutation payload.

use vstd::prelude::*;

use crate::errors::CustomHttpError;
use crate::store::has_username;
use crate::store::lemma_filter_members;
use crate::store::lemma_filter_push;
use crate::store::lemma_user_by_username_is;
use crate::store::user_by_username;
use crate::store::usernames_unique;
use crate::store::users_uuid_unique;
use crate::store::Store;

verus! {

broadcast use vstd::seq::Seq::lemma_push_map_commute;

/// A stored user row. `username` is unique across the store. `token` holds
/// the last-issued session token: its presence signals "logged in", and it is
/// compared verbatim against the bearer token on each authenticated request.
pub struct User {
    pub uuid: String,
    pub username: String,
    pub password: String,
    pub token: Option<String>,
}

#[verifier::ext_equal]
pub struct UserView {
    pub uuid: Seq<char>,
    pub username: Seq<char>,
    pub password: Seq<char>,
    pub token: Option<Seq<char>>,
}

impl View for User {
    type V = UserView;

    open spec fn view(&self) -> UserView {
        UserView {
            uuid: self.uuid@,
            username: self.username@,
            password: self.password@,
            token: match self.token {
                Some(t) => Some(t@),
                None => None,
            },
        }
    }
}

impl Clone for User {
    fn clone(&self) -> (r: Self)
        ensures
            r@ == self@,
    {
        User {
            uuid: self.uuid.clone(),
            username: self.username.clone(),
            password: self.password.clone(),
            token: match &self.token {
                Some(t) => Some(t.clone()),
                None => None,
            },
        }
    }
}

/// The mutable columns of the user table. A `None` field is left unchanged by
/// an update, as a partial payload would leave the column untouched.
pub struct MutUser {
    pub uuid: Option<String>,
    pub username: String,
    pub password: Option<String>,
    pub token: Option<String>,
}

#[verifier::ext_equal]
pub struct MutUserView {
    pub uuid: Option<Seq<char>>,
    pub username: Seq<char>,
    pub password: Option<Seq<char>>,
    pub token: Option<Seq<char>>,
}

impl View for MutUser {
    type V = MutUserView;

    open spec fn view(&self) -> MutUserView {
        MutUserView {
            uuid: match self.uuid {
                Some(u) => Some(u@),
                None => None,
            },
            username: self.username@,
            password: match self.password {
                Some(p) => Some(p@),
                None => None,
            },
            token: match self.token {
                Some(t) => Some(t@),
                None => None,
            },
        }
    }
}

impl Clone for MutUser {
    fn clone(&self) -> (r: Self)
        ensures
            r@ == self@,
    {
        MutUser {
            uuid: match &self.uuid {
                Some(u) => Some(u.clone()),
                None => None,
            },
            username: self.username.clone(),
            password: match &self.password {
                Some(p) => Some(p.clone()),
                None => None,
            },
            token: match &self.token {
                Some(t) => Some(t.clone()),
                None => None,
            },
        }
    }
}

/// The row that inserting a user create payload produces.
pub open spec fn spec_new_user(m: MutUserView) -> UserView
    recommends
        m.uuid is Some,
        m.password is Some,
{
    UserView {
        uuid: m.uuid.unwrap(),
        username: m.username,
        password: m.password.unwrap(),
        token: m.token,
    }
}

/// The row that applying a user update payload produces: the identifier is
/// immutable, the name is replaced, and a missing password or token leaves
/// the stored column untouched (a partial payload skips those columns).
pub open spec fn spec_user_update(p: UserView, m: MutUserView) -> UserView {
    UserView {
        uuid: p.uuid,
        username: m.username,
        password: (if m.password is Some {
            m.password.unwrap()
        } else {
            p.password
        }),
        token: (if m.token is Some {
            m.token
        } else {
            p.token
        }),
    }
}

/// A row that blocks inserting this user payload: same name or same primary
/// key. User creation is a strict insert, unlike the other tables.
pub open spec fn user_create_conflict(u: UserView, m: MutUserView) -> bool {
    u.username == m.username || u.uuid == m.uuid.unwrap()
}

/// A row, other than the updated one, that already holds the name an update
/// wants to move its user to.
pub open spec fn user_update_conflict(users: Seq<UserView>, id: Seq<char>, m: MutUserView) -> bool {
    exists|j: int|
        0 <= j < users.len() && (#[trigger] users[j]).username != id && users[j].username
            == m.username
}

impl User {
    /// Inserts a user row. Unlike the other tables this insert is strict: a
    /// taken name or primary key is an error, not a silent no-op.
    pub fn create(new: &MutUser, db: &mut Store) -> (r: Result<usize, CustomHttpError>)
        requires
            old(db)@.wf(),
            new@.uuid is Some,
            new@.password is Some,
        ensures
            final(db)@.wf(),
            final(db)@.pages == old(db)@.pages,
            final(db)@.modules == old(db)@.modules,
            final(db)@.categories == old(db)@.categories,
            match r {
                Ok(n) => n == 1 && (forall|j: int|
                    0 <= j < old(db)@.users.len() ==> !user_create_conflict(
                        #[trigger] old(db)@.users[j],
                        new@,
                    )) && final(db)@.users == old(db)@.users.push(spec_new_user(new@)),
                Err(e) => e == CustomHttpError::Unknown && (exists|j: int|
                    0 <= j < old(db)@.users.len() && user_create_conflict(
                        #[trigger] old(db)@.users[j],
                        new@,
                    )) && final(db)@.users == old(db)@.users,
            },
    {
        let ghost db0 = db@;
        let uuid_ref: &String = match &new.uuid {
            Some(u) => u,
            None => unreached(),
        };
        let password_ref: &String = match &new.password {
            Some(p) => p,
            None => unreached(),
        };
        let mut conflict = false;
        let mut i: usize = 0;
        while i < db.users.len()
            invariant
                0 <= i <= db.users.len(),
                conflict == exists|j: int|
                    0 <= j < i && user_create_conflict(#[trigger] db0.users[j], new@),
                db@ == db0,
                new@.uuid == Some(uuid_ref@),
            decreases db.users.len() - i,
        {
            let u = &db.users[i];
            if u.username == new.username || u.uuid == *uuid_ref {
                proof {
                    assert(user_create_conflict(db0.users[i as int], new@));
                }
                conflict = true;
            }
            i += 1;
        }
        if conflict {
            Err(CustomHttpError::Unknown)
        } else {
            let user = User {
                uuid: uuid_ref.clone(),
                username: new.username.clone(),
                password: password_ref.clone(),
                token: match &new.token {
                    Some(t) => Some(t.clone()),
                    None => None,
                },
            };
            db.users.push(user);
            proof {
                assert(db@.users =~= db0.users.push(spec_new_user(new@)));
                assert(db@.pages =~= db0.pages);
                assert(db@.modules =~= db0.modules);
                assert(db@.categories =~= db0.categories);
                let n = db0.users.len() as int;
                assert forall|a: int, b: int| 0 <= a < b < db@.users.len() implies #[trigger] db@
                    .users[a].uuid != #[trigger] db@.users[b].uuid by {
                    if b == n {
                        assert(!user_create_conflict(db0.users[a], new@));
                    }
                }
                assert forall|a: int, b: int| 0 <= a < b < db@.users.len() implies #[trigger] db@
                    .users[a].username != #[trigger] db@.users[b].username by {
                    if b == n {
                        assert(!user_create_conflict(db0.users[a], new@));
                    }
                }
            }
            Ok(1)
        }
    }

    /// Reads the user with the given name, or reports that no such row
    /// exists. Users are looked up by name, not by primary key.
    pub fn read_one(id: String, db: &Store) -> (r: Result<User, CustomHttpError>)
        requires
            db@.wf(),
        ensures
            match r {
                Ok(u) => has_username(db@.users, id@) && u@ == user_by_username(db@.users, id@),
                Err(e) => e == CustomHttpError::NotFound && !has_username(db@.users, id@),
            },
    {
        let mut i: usize = 0;
        while i < db.users.len()
            invariant
                0 <= i <= db.users.len(),
                db@.wf(),
                forall|j: int| 0 <= j < i ==> (#[trigger] db@.users[j]).username != id@,
            decreases db.users.len() - i,
        {
            let u = &db.users[i];
            if u.username == id {
                proof {
                    lemma_user_by_username_is(db@.users, id@, i as int);
                }
                return Ok(u.clone());
            }
            i += 1;
        }
        Err(CustomHttpError::NotFound)
    }

    /// Updates the user with the given name from the payload; the payload's
    /// name replaces the stored one, so this can rename a user. Returns how
    /// many rows matched (zero when the user does not exist, which is not an
    /// error), or `Unknown` when the rename would take a name that another
    /// user already holds.
    #[verifier::loop_isolation(false)]
    pub fn update(id: String, new: &MutUser, db: &mut Store) -> (r: Result<usize, CustomHttpError>)
        requires
            old(db)@.wf(),
        ensures
            final(db)@.wf(),
            final(db)@.pages == old(db)@.pages,
            final(db)@.modules == old(db)@.modules,
            final(db)@.categories == old(db)@.categories,
            match r {
                Ok(n) => {
                    &&& !user_update_conflict(old(db)@.users, id@, new@)
                    &&& n == (if has_username(old(db)@.users, id@) {
                        1int
                    } else {
                        0int
                    })
                    &&& final(db)@.users.len() == old(db)@.users.len()
                    &&& forall|j: int|
                        0 <= j < old(db)@.users.len() ==> final(db)@.users[j] == (
                        if old(db)@.users[j].username == id@ {
                            spec_user_update(#[trigger] old(db)@.users[j], new@)
                        } else {
                            old(db)@.users[j]
                        })
                },
                Err(e) => {
                    &&& e == CustomHttpError::Unknown
                    &&& user_update_conflict(old(db)@.users, id@, new@)
                    &&& final(db)@.users == old(db)@.users
                },
            },
    {
        let ghost db0 = db@;
        let mut i: usize = 0;
        while i < db.users.len()
            invariant
                0 <= i <= db.users.len(),
                db@ == db0,
                forall|j: int|
                    0 <= j < i ==> !((#[trigger] db0.users[j]).username != id@
                        && db0.users[j].username == new@.username),
            decreases db.users.len() - i,
        {
            let u = &db.users[i];
            if !(u.username == id) && u.username == new.username {
                proof {
                    assert(db0.users[i as int].username != id@ && db0.users[i as int].username
                        == new@.username);
                    assert(user_update_conflict(db0.users, id@, new@));
                }
                return Err(CustomHttpError::Unknown);
            }
            i += 1;
        }
        let ghost pre = db0.users;
        let mut count: usize = 0;
        let mut k: usize = 0;
        while k < db.users.len()
            invariant
                0 <= k <= db.users.len(),
                db@.pages == db0.pages,
                db@.modules == db0.modules,
                db@.categories == db0.categories,
                db@.users.len() == pre.len(),
                forall|j: int|
                    k <= j < pre.len() ==> #[trigger] db@.users[j] == pre[j],
                forall|j: int|
                    0 <= j < k ==> #[trigger] db@.users[j] == (if pre[j].username == id@ {
                        spec_user_update(pre[j], new@)
                    } else {
                        pre[j]
                    }),
                count == (if exists|j: int| 0 <= j < k && (#[trigger] pre[j]).username == id@ {
                    1int
                } else {
                    0int
                }),
            decreases db.users.len() - k,
        {
            let ghost cur = db@.users;
            let matches = db.users[k].username == id;
            proof {
                assert(db@.users[k as int] == pre[k as int]);
                assert(matches == (pre[k as int].username == id@));
            }
            if matches {
                let updated = User {
                    uuid: db.users[k].uuid.clone(),
                    username: new.username.clone(),
                    password: match &new.password {
                        Some(p) => p.clone(),
                        None => db.users[k].password.clone(),
                    },
                    token: match &new.token {
                        Some(t) => Some(t.clone()),
                        None => match &db.users[k].token {
                            Some(t) => Some(t.clone()),
                            None => None,
                        },
                    },
                };
                proof {
                    assert(count == 0) by {
                        if exists|j: int| 0 <= j < k && (#[trigger] pre[j]).username == id@ {
                            let j = choose|j: int|
                                0 <= j < k && (#[trigger] pre[j]).username == id@;
                            assert(pre[j].username == pre[k as int].username);
                            assert(usernames_unique(pre));
                        }
                    }
                    assert(updated@ =~= spec_user_update(pre[k as int], new@));
                }
                let ghost uv = updated@;
                db.users[k] = updated;
                proof {
                    assert(db@.users =~= cur.update(k as int, uv));
                }
                count += 1;
            }
            proof {
                if pre[k as int].username == id@ {
                    assert(exists|j: int| 0 <= j < k + 1 && (#[trigger] pre[j]).username == id@);
                } else {
                    assert((exists|j: int|
                        0 <= j < k + 1 && (#[trigger] pre[j]).username == id@) == (exists|j: int|
                        0 <= j < k && (#[trigger] pre[j]).username == id@));
                }
            }
            k += 1;
        }
        proof {
            assert(count == (if has_username(pre, id@) {
                1int
            } else {
                0int
            }));
            assert(users_uuid_unique(db@.users)) by {
                assert(forall|j: int|
                    0 <= j < pre.len() ==> (#[trigger] db@.users[j]).uuid == pre[j].uuid);
            }
            assert(usernames_unique(db@.users)) by {
                assert forall|a: int, b: int| 0 <= a < b < db@.users.len() implies #[trigger] db@
                    .users[a].username != #[trigger] db@.users[b].username by {
                    if db@.users[a].username == db@.users[b].username {
                        if pre[a].username == id@ && pre[b].username == id@ {
                            assert(pre[a].username != pre[b].username);
                        } else if pre[a].username == id@ {
                            assert(db@.users[b] == pre[b]);
                            assert(!(pre[b].username != id@ && pre[b].username == new@.username));
                        } else if pre[b].username == id@ {
                            assert(db@.users[a] == pre[a]);
                            assert(!(pre[a].username != id@ && pre[a].username == new@.username));
                        } else {
                            assert(pre[a].username != pre[b].username);
                        }
                    }
                }
            }
        }
        Ok(count)
    }

    /// Deletes the user with the given name. Returns how many rows were
    /// removed; deleting a name that is not present returns zero, not an
    /// error.
    pub fn delete(id: String, db: &mut Store) -> (r: Result<usize, CustomHttpError>)
        requires
            old(db)@.wf(),
        ensures
            final(db)@.wf(),
            final(db)@.pages == old(db)@.pages,
            final(db)@.modules == old(db)@.modules,
            final(db)@.categories == old(db)@.categories,
            final(db)@.users == old(db)@.users.filter(|u: UserView| u.username != id@),
            r is Ok,
            r->Ok_0 as int == old(db)@.users.len() - final(db)@.users.len(),
    {
        let ghost db0 = db@;
        let ghost pred = |u: UserView| u.username != id@;
        let mut kept: Vec<User> = Vec::new();
        let mut i: usize = 0;
        proof {
            assert(db0.users.subrange(0, 0).filter(pred) =~= Seq::<UserView>::empty());
            assert(kept@.map_values(|u: User| u@) =~= Seq::<UserView>::empty());
        }
        while i < db.users.len()
            invariant
                0 <= i <= db.users.len(),
                db@ == db0,
                kept@.map_values(|u: User| u@) == db0.users.subrange(0, i as int).filter(pred),
                pred == |u: UserView| u.username != id@,
            decreases db.users.len() - i,
        {
            let u = &db.users[i];
            if !(u.username == id) {
                let ghost before = kept@.map_values(|q: User| q@);
                kept.push(u.clone());
                proof {
                    assert(kept@.map_values(|q: User| q@) =~= before.push(db@.users[i as int]));
                }
            }
            proof {
                let prefix = db0.users.subrange(0, i as int);
                assert(db0.users.subrange(0, i + 1) =~= prefix.push(db0.users[i as int]));
                lemma_filter_push(prefix, db0.users[i as int], pred);
                assert(kept@.map_values(|q: User| q@) =~= db0.users.subrange(0, i + 1).filter(
                    pred,
                ));
            }
            i += 1;
        }
        proof {
            assert(db0.users.subrange(0, db0.users.len() as int) =~= db0.users);
            db0.users.lemma_filter_len(pred);
        }
        let removed = db.users.len() - kept.len();
        db.users = kept;
        proof {
            let fusers = db0.users.filter(pred);
            assert(users_uuid_unique(fusers)) by {
                assert forall|a: int, b: int| 0 <= a < b < fusers.len() implies #[trigger] fusers[a].uuid
                    != #[trigger] fusers[b].uuid by {
                    lemma_filter_members(db0.users, pred, a, b);
                }
            }
            assert(usernames_unique(fusers)) by {
                assert forall|a: int, b: int| 0 <= a < b < fusers.len() implies #[trigger] fusers[a].username
                    != #[trigger] fusers[b].username by {
                    lemma_filter_members(db0.users, pred, a, b);
                }
            }
        }
        Ok(removed)
    }

    /// Updates the user whose stored name equals the payload's name: the
    /// session-token write used by the login flow, which cannot rename.
    /// Returns how many rows matched.
    pub fn update_with_token(new: &MutUser, db: &mut Store) -> (r: Result<usize, CustomHttpError>)
        requires
            old(db)@.wf(),
        ensures
            final(db)@.wf(),
            final(db)@.pages == old(db)@.pages,
            final(db)@.modules == old(db)@.modules,
            final(db)@.categories == old(db)@.categories,
            r is Ok,
            r->Ok_0 == (if has_username(old(db)@.users, new@.username) {
                1int
            } else {
                0int
            }),
            final(db)@.users.len() == old(db)@.users.len(),
            forall|j: int|
                0 <= j < old(db)@.users.len() ==> final(db)@.users[j] == (
                if old(db)@.users[j].username == new@.username {
                    spec_user_update(#[trigger] old(db)@.users[j], new@)
                } else {
                    old(db)@.users[j]
                }),
    {
        let username = new.username.clone();
        let r = User::update(username, new, db);
        match r {
            Ok(n) => Ok(n),
            Err(e) => {
                proof {
                    let j = choose|j: int|
                        0 <= j < old(db)@.users.len() && (#[trigger] old(db)@.users[j]).username
                            != new@.username && old(db)@.users[j].username == new@.username;
                    assert(false);
                }
                Err(e)
            },
        }
    }
}

} // verus!
