use vstd::prelude::*;

verus! {

/// One account known to the directory.
#[derive(Debug)]
pub struct User {
    pub id: String,
    pub username: String,
    pub display_name: String,
    pub role: String,
    pub active: bool,
    pub created_at: i64,
}

/// The mathematical image of a `User`.
pub ghost struct UserView {
    pub id: Seq<char>,
    pub username: Seq<char>,
    pub display_name: Seq<char>,
    pub role: Seq<char>,
    pub active: bool,
    pub created_at: i64,
}

impl View for User {
    type V = UserView;

    open spec fn view(&self) -> UserView {
        UserView {
            id: self.id@,
            username: self.username@,
            display_name: self.display_name@,
            role: self.role@,
            active: self.active,
            created_at: self.created_at,
        }
    }
}

impl Clone for User {
    fn clone(&self) -> (r: Self)
        ensures
            r@ == self@,
    {
        User {
            id: self.id.clone(),
            username: self.username.clone(),
            display_name: self.display_name.clone(),
            role: self.role.clone(),
            active: self.active,
            created_at: self.created_at,
        }
    }
}

/// One live session of a user on a device.
#[derive(Debug)]
pub struct Session {
    pub session_id: String,
    pub user_id: String,
    pub started_at: i64,
    pub last_activity: i64,
    pub device: String,
}

/// The mathematical image of a `Session`.
pub ghost struct SessionView {
    pub session_id: Seq<char>,
    pub user_id: Seq<char>,
    pub started_at: i64,
    pub last_activity: i64,
    pub device: Seq<char>,
}

impl View for Session {
    type V = SessionView;

    open spec fn view(&self) -> SessionView {
        SessionView {
            session_id: self.session_id@,
            user_id: self.user_id@,
            started_at: self.started_at,
            last_activity: self.last_activity,
            device: self.device@,
        }
    }
}

impl Clone for Session {
    fn clone(&self) -> (r: Self)
        ensures
            r@ == self@,
    {
        Session {
            session_id: self.session_id.clone(),
            user_id: self.user_id.clone(),
            started_at: self.started_at,
            last_activity: self.last_activity,
            device: self.device.clone(),
        }
    }
}

/// The user and session directory: accounts keyed by user id, live
/// sessions keyed by session id.
pub struct UserManager {
    users: Vec<User>,
    sessions: Vec<Session>,
}

impl UserManager {
    /// User ids and session ids are each pairwise distinct.
    pub closed spec fn wf(self) -> bool {
        &&& forall|i: int, j: int|
            0 <= i < self.users@.len() && 0 <= j < self.users@.len() && i != j
                ==> #[trigger] self.users@[i].id@ != #[trigger] self.users@[j].id@
        &&& forall|i: int, j: int|
            0 <= i < self.sessions@.len() && 0 <= j < self.sessions@.len() && i != j
                ==> #[trigger] self.sessions@[i].session_id@
                != #[trigger] self.sessions@[j].session_id@
    }

    /// The known users, in insertion order.
    pub closed spec fn users_view(self) -> Seq<UserView> {
        self.users@.map_values(|u: User| u@)
    }

    /// The live sessions, in insertion order.
    pub closed spec fn sessions_view(self) -> Seq<SessionView> {
        self.sessions@.map_values(|s: Session| s@)
    }

    /// Whether a user with this id is known.
    pub open spec fn has_user(self, id: Seq<char>) -> bool {
        exists|i: int|
            0 <= i < self.users_view().len() && (#[trigger] self.users_view()[i]).id == id
    }

    /// Whether a session with this id is live.
    pub open spec fn has_session(self, id: Seq<char>) -> bool {
        exists|i: int|
            0 <= i < self.sessions_view().len() && (#[trigger] self.sessions_view()[i]).session_id
                == id
    }

    /// The position of the user stored under `id`.
    pub open spec fn user_idx(self, id: Seq<char>) -> int {
        choose|i: int|
            0 <= i < self.users_view().len() && (#[trigger] self.users_view()[i]).id == id
    }

    /// The position of the session stored under `id`.
    pub open spec fn session_idx(self, id: Seq<char>) -> int {
        choose|i: int|
            0 <= i < self.sessions_view().len() && (#[trigger] self.sessions_view()[i]).session_id
                == id
    }

    proof fn lemma_user_at(self, i: int)
        requires
            self.wf(),
            0 <= i < self.users_view().len(),
        ensures
            self.has_user(self.users_view()[i].id),
            self.user_idx(self.users_view()[i].id) == i,
    {
        let id = self.users_view()[i].id;
        assert(self.has_user(id));
        let j = self.user_idx(id);
        assert(0 <= j < self.users_view().len() && self.users_view()[j].id == id);
        assert(self.users@[i].id@ == id && self.users@[j].id@ == id);
        assert(j == i);
    }

    proof fn lemma_session_at(self, i: int)
        requires
            self.wf(),
            0 <= i < self.sessions_view().len(),
        ensures
            self.has_session(self.sessions_view()[i].session_id),
            self.session_idx(self.sessions_view()[i].session_id) == i,
    {
        let id = self.sessions_view()[i].session_id;
        assert(self.has_session(id));
        let j = self.session_idx(id);
        assert(0 <= j < self.sessions_view().len() && self.sessions_view()[j].session_id == id);
        assert(self.sessions@[i].session_id@ == id && self.sessions@[j].session_id@ == id);
        assert(j == i);
    }

    /// An empty directory.
    pub fn new() -> (r: UserManager)
        ensures
            r.wf(),
            r.users_view() == Seq::<UserView>::empty(),
            r.sessions_view() == Seq::<SessionView>::empty(),
    {
        let r = UserManager { users: Vec::new(), sessions: Vec::new() };
        proof {
            assert(r.users_view() =~= Seq::<UserView>::empty());
            assert(r.sessions_view() =~= Seq::<SessionView>::empty());
        }
        r
    }

    /// A copy of every known user, in insertion order.
    pub fn list_users(&self) -> (r: Vec<User>)
        ensures
            r@.len() == self.users_view().len(),
            forall|i: int| 0 <= i < r@.len() ==> #[trigger] r@[i]@ == self.users_view()[i],
    {
        let mut out: Vec<User> = Vec::new();
        let mut i: usize = 0;
        while i < self.users.len()
            invariant
                i <= self.users@.len(),
                out@.len() == i,
                forall|j: int| 0 <= j < i ==> #[trigger] out@[j]@ == self.users_view()[j],
            decreases self.users@.len() - i,
        {
            out.push(self.users[i].clone());
            i = i + 1;
        }
        out
    }

    fn find_user(&self, id: &String) -> (r: Option<usize>)
        ensures
            match r {
                Some(i) => i < self.users@.len() && self.users@[i as int].id@ == id@,
                None => forall|i: int|
                    0 <= i < self.users@.len() ==> (#[trigger] self.users@[i]).id@ != id@,
            },
    {
        let mut i: usize = 0;
        while i < self.users.len()
            invariant
                i <= self.users@.len(),
                forall|j: int| 0 <= j < i ==> (#[trigger] self.users@[j]).id@ != id@,
            decreases self.users@.len() - i,
        {
            if self.users[i].id == *id {
                return Some(i);
            }
            i = i + 1;
        }
        None
    }

    /// Install a user under their id, replacing any user already known
    /// under it (last write wins), and hand the record back. Every
    /// other user's stored record, and every session, stays exactly as
    /// it was.
    pub fn create_user(&mut self, user: User) -> (r: User)
        requires
            old(self).wf(),
        ensures
            final(self).wf(),
            r@ == user@,
            final(self).has_user(user.id@),
            final(self).sessions_view() == old(self).sessions_view(),
            forall|id2: Seq<char>|
                #[trigger] final(self).has_user(id2) == (old(self).has_user(id2) || id2
                    == user.id@),
            final(self).users_view() == if old(self).has_user(user.id@) {
                old(self).users_view().update(old(self).user_idx(user.id@), user@)
            } else {
                old(self).users_view().push(user@)
            },
    {
        let r = user.clone();
        let found = self.find_user(&user.id);
        match found {
            Some(i) => {
                self.users[i] = user;
                proof {
                    assert(self.users@ =~= old(self).users@.update(i as int, self.users@[i as int]));
                    assert(self.users_view()[i as int] == user@);
                    old(self).lemma_user_at(i as int);
                    assert(self.users_view() =~= old(self).users_view().update(i as int, user@));
                    assert forall|id2: Seq<char>| #[trigger]
                        self.has_user(id2) == (old(self).has_user(id2) || id2 == user@.id) by {
                        if old(self).has_user(id2) {
                            let j = choose|j: int|
                                0 <= j < old(self).users_view().len() && (#[trigger] old(
                                    self,
                                ).users_view()[j]).id == id2;
                            assert(self.users_view()[j].id == id2);
                        }
                        if self.has_user(id2) && id2 != user@.id {
                            let j = choose|j: int|
                                0 <= j < self.users_view().len()
                                    && (#[trigger] self.users_view()[j]).id == id2;
                            assert(j != i);
                            assert(old(self).users_view()[j].id == id2);
                        }
                    }
                }
            },
            None => {
                self.users.push(user);
                proof {
                    let n = old(self).users@.len() as int;
                    assert(self.users@ =~= old(self).users@.push(self.users@[n]));
                    assert(self.users_view()[n] == self.users@[n]@);
                    assert(self.users_view() =~= old(self).users_view().push(self.users@[n]@));
                    assert forall|id2: Seq<char>| #[trigger]
                        self.has_user(id2) == (old(self).has_user(id2) || id2
                            == self.users@[n].id@) by {
                        if old(self).has_user(id2) {
                            let j = choose|j: int|
                                0 <= j < old(self).users_view().len() && (#[trigger] old(
                                    self,
                                ).users_view()[j]).id == id2;
                            assert(self.users_view()[j].id == id2);
                        }
                        if self.has_user(id2) && id2 != self.users@[n].id@ {
                            let j = choose|j: int|
                                0 <= j < self.users_view().len()
                                    && (#[trigger] self.users_view()[j]).id == id2;
                            assert(j != n);
                            assert(old(self).users_view()[j].id == id2);
                        }
                    }
                }
            },
        }
        r
    }

    /// Forget the user known under this id, if any. Deleting an unknown
    /// id succeeds and changes nothing; every other user's stored
    /// record, and every session, stays exactly as it was.
    pub fn delete_user(&mut self, user_id: &str) -> (r: Result<(), String>)
        requires
            old(self).wf(),
        ensures
            final(self).wf(),
            r is Ok,
            !final(self).has_user(user_id@),
            final(self).sessions_view() == old(self).sessions_view(),
            forall|id2: Seq<char>|
                id2 != user_id@ ==> #[trigger] final(self).has_user(id2) == old(self).has_user(
                    id2,
                ),
            final(self).users_view() == if old(self).has_user(user_id@) {
                old(self).users_view().remove(old(self).user_idx(user_id@))
            } else {
                old(self).users_view()
            },
    {
        let key: String = user_id.to_owned();
        let found = self.find_user(&key);
        match found {
            None => {
                proof {
                    if self.has_user(user_id@) {
                        let j = choose|j: int|
                            0 <= j < self.users_view().len()
                                && (#[trigger] self.users_view()[j]).id == user_id@;
                        assert(self.users@[j].id@ == user_id@);
                        assert(false);
                    }
                }
                Ok(())
            },
            Some(i) => {
                self.users.remove(i);
                proof {
                    assert(self.users@ =~= old(self).users@.remove(i as int));
                    old(self).lemma_user_at(i as int);
                    assert(self.users_view() =~= old(self).users_view().remove(i as int));
                    if self.has_user(user_id@) {
                        let j = choose|j: int|
                            0 <= j < self.users_view().len()
                                && (#[trigger] self.users_view()[j]).id == user_id@;
                        let j0: int = if j < i {
                            j
                        } else {
                            j + 1
                        };
                        assert(old(self).users@[j0].id@ == user_id@);
                        assert(j0 != i);
                        assert(old(self).users@[i as int].id@ == user_id@);
                        assert(false);
                    }
                    assert forall|id2: Seq<char>| id2 != user_id@ implies #[trigger] self.has_user(
                        id2,
                    ) == old(self).has_user(id2) by {
                        if old(self).has_user(id2) {
                            let j = choose|j: int|
                                0 <= j < old(self).users_view().len() && (#[trigger] old(
                                    self,
                                ).users_view()[j]).id == id2;
                            assert(j != i);
                            let j1: int = if j < i {
                                j
                            } else {
                                j - 1
                            };
                            assert(self.users@[j1].id@ == id2);
                            assert(self.users_view()[j1].id == id2);
                        }
                        if self.has_user(id2) {
                            let j = choose|j: int|
                                0 <= j < self.users_view().len()
                                    && (#[trigger] self.users_view()[j]).id == id2;
                            let j0: int = if j < i {
                                j
                            } else {
                                j + 1
                            };
                            assert(old(self).users@[j0].id@ == id2);
                            assert(old(self).users_view()[j0].id == id2);
                        }
                    }
                }
                Ok(())
            },
        }
    }

    fn find_session(&self, id: &String) -> (r: Option<usize>)
        ensures
            match r {
                Some(i) => i < self.sessions@.len() && self.sessions@[i as int].session_id@ == id@,
                None => forall|i: int|
                    0 <= i < self.sessions@.len() ==> (#[trigger] self.sessions@[i]).session_id@
                        != id@,
            },
    {
        let mut i: usize = 0;
        while i < self.sessions.len()
            invariant
                i <= self.sessions@.len(),
                forall|j: int| 0 <= j < i ==> (#[trigger] self.sessions@[j]).session_id@ != id@,
            decreases self.sessions@.len() - i,
        {
            if self.sessions[i].session_id == *id {
                return Some(i);
            }
            i = i + 1;
        }
        None
    }

    /// Install a session under its id, replacing any session already
    /// live under it (last write wins), and hand the record back. Every
    /// other session's stored record, and every user, stays exactly as
    /// it was.
    pub fn create_session(&mut self, session: Session) -> (r: Session)
        requires
            old(self).wf(),
        ensures
            final(self).wf(),
            r@ == session@,
            final(self).has_session(session.session_id@),
            final(self).users_view() == old(self).users_view(),
            forall|id2: Seq<char>|
                #[trigger] final(self).has_session(id2) == (old(self).has_session(id2) || id2
                    == session.session_id@),
            final(self).sessions_view() == if old(self).has_session(session.session_id@) {
                old(self).sessions_view().update(
                    old(self).session_idx(session.session_id@),
                    session@,
                )
            } else {
                old(self).sessions_view().push(session@)
            },
    {
        let r = session.clone();
        let found = self.find_session(&session.session_id);
        match found {
            Some(i) => {
                self.sessions[i] = session;
                proof {
                    assert(self.sessions@ =~= old(self).sessions@.update(
                        i as int,
                        self.sessions@[i as int],
                    ));
                    assert(self.sessions_view()[i as int] == self.sessions@[i as int]@);
                    old(self).lemma_session_at(i as int);
                    assert(self.sessions_view() =~= old(self).sessions_view().update(
                        i as int,
                        self.sessions@[i as int]@,
                    ));
                    assert forall|id2: Seq<char>| #[trigger]
                        self.has_session(id2) == (old(self).has_session(id2) || id2
                            == self.sessions@[i as int].session_id@) by {
                        if old(self).has_session(id2) {
                            let j = choose|j: int|
                                0 <= j < old(self).sessions_view().len() && (#[trigger] old(
                                    self,
                                ).sessions_view()[j]).session_id == id2;
                            assert(self.sessions_view()[j].session_id == id2);
                        }
                        if self.has_session(id2) && id2 != self.sessions@[i as int].session_id@ {
                            let j = choose|j: int|
                                0 <= j < self.sessions_view().len()
                                    && (#[trigger] self.sessions_view()[j]).session_id == id2;
                            assert(j != i);
                            assert(old(self).sessions_view()[j].session_id == id2);
                        }
                    }
                }
            },
            None => {
                self.sessions.push(session);
                proof {
                    let n = old(self).sessions@.len() as int;
                    assert(self.sessions@ =~= old(self).sessions@.push(self.sessions@[n]));
                    assert(self.sessions_view()[n] == self.sessions@[n]@);
                    assert(self.sessions_view() =~= old(self).sessions_view().push(
                        self.sessions@[n]@,
                    ));
                    assert forall|id2: Seq<char>| #[trigger]
                        self.has_session(id2) == (old(self).has_session(id2) || id2
                            == self.sessions@[n].session_id@) by {
                        if old(self).has_session(id2) {
                            let j = choose|j: int|
                                0 <= j < old(self).sessions_view().len() && (#[trigger] old(
                                    self,
                                ).sessions_view()[j]).session_id == id2;
                            assert(self.sessions_view()[j].session_id == id2);
                        }
                        if self.has_session(id2) && id2 != self.sessions@[n].session_id@ {
                            let j = choose|j: int|
                                0 <= j < self.sessions_view().len()
                                    && (#[trigger] self.sessions_view()[j]).session_id == id2;
                            assert(j != n);
                            assert(old(self).sessions_view()[j].session_id == id2);
                        }
                    }
                }
            },
        }
        r
    }

    /// The live sessions of one user, in insertion order: exactly the
    /// sessions whose user id matches.
    pub fn list_sessions(&self, user_id: &str) -> (r: Vec<Session>)
        ensures
            r@.map_values(|s: Session| s@) == self.sessions_view().filter(
                |s: SessionView| s.user_id == user_id@,
            ),
    {
        let ghost pred = |s: SessionView| s.user_id == user_id@;
        let key: String = user_id.to_owned();
        let mut out: Vec<Session> = Vec::new();
        let mut i: usize = 0;
        proof {
            reveal(Seq::filter);
            assert(self.sessions_view().take(0).filter(pred) =~= Seq::<SessionView>::empty());
            assert(out@.map_values(|s: Session| s@) =~= Seq::<SessionView>::empty());
        }
        while i < self.sessions.len()
            invariant
                i <= self.sessions@.len(),
                out@.map_values(|s: Session| s@) == self.sessions_view().take(i as int).filter(
                    pred,
                ),
                pred == (|s: SessionView| s.user_id == user_id@),
                key@ == user_id@,
            decreases self.sessions@.len() - i,
        {
            proof {
                reveal(Seq::filter);
                let cur = self.sessions_view().take(i as int + 1);
                assert(cur.drop_last() =~= self.sessions_view().take(i as int));
                assert(cur.last() == self.sessions_view()[i as int]);
            }
            if self.sessions[i].user_id == key {
                out.push(self.sessions[i].clone());
                proof {
                    assert(out@.map_values(|s: Session| s@) =~= self.sessions_view().take(
                        i as int,
                    ).filter(pred).push(self.sessions_view()[i as int]));
                }
            }
            proof {
                assert(out@.map_values(|s: Session| s@) =~= self.sessions_view().take(
                    i as int + 1,
                ).filter(pred));
            }
            i = i + 1;
        }
        proof {
            assert(self.sessions_view().take(self.sessions@.len() as int) =~= self.sessions_view());
        }
        out
    }

    /// End the session live under this id, if any. Terminating an
    /// unknown session succeeds and changes nothing; every other
    /// session's stored record, and every user, stays exactly as it
    /// was.
    pub fn terminate_session(&mut self, session_id: &str) -> (r: Result<(), String>)
        requires
            old(self).wf(),
        ensures
            final(self).wf(),
            r is Ok,
            !final(self).has_session(session_id@),
            final(self).users_view() == old(self).users_view(),
            forall|id2: Seq<char>|
                id2 != session_id@ ==> #[trigger] final(self).has_session(id2) == old(
                    self,
                ).has_session(id2),
            final(self).sessions_view() == if old(self).has_session(session_id@) {
                old(self).sessions_view().remove(old(self).session_idx(session_id@))
            } else {
                old(self).sessions_view()
            },
    {
        let key: String = session_id.to_owned();
        let found = self.find_session(&key);
        match found {
            None => {
                proof {
                    if self.has_session(session_id@) {
                        let j = choose|j: int|
                            0 <= j < self.sessions_view().len()
                                && (#[trigger] self.sessions_view()[j]).session_id == session_id@;
                        assert(self.sessions@[j].session_id@ == session_id@);
                        assert(false);
                    }
                }
                Ok(())
            },
            Some(i) => {
                self.sessions.remove(i);
                proof {
                    assert(self.sessions@ =~= old(self).sessions@.remove(i as int));
                    old(self).lemma_session_at(i as int);
                    assert(self.sessions_view() =~= old(self).sessions_view().remove(i as int));
                    if self.has_session(session_id@) {
                        let j = choose|j: int|
                            0 <= j < self.sessions_view().len()
                                && (#[trigger] self.sessions_view()[j]).session_id == session_id@;
                        let j0: int = if j < i {
                            j
                        } else {
                            j + 1
                        };
                        assert(old(self).sessions@[j0].session_id@ == session_id@);
                        assert(j0 != i);
                        assert(old(self).sessions@[i as int].session_id@ == session_id@);
                        assert(false);
                    }
                    assert forall|id2: Seq<char>| id2 != session_id@ implies #[trigger]
                        self.has_session(id2) == old(self).has_session(id2) by {
                        if old(self).has_session(id2) {
                            let j = choose|j: int|
                                0 <= j < old(self).sessions_view().len() && (#[trigger] old(
                                    self,
                                ).sessions_view()[j]).session_id == id2;
                            assert(j != i);
                            let j1: int = if j < i {
                                j
                            } else {
                                j - 1
                            };
                            assert(self.sessions@[j1].session_id@ == id2);
                            assert(self.sessions_view()[j1].session_id == id2);
                        }
                        if self.has_session(id2) {
                            let j = choose|j: int|
                                0 <= j < self.sessions_view().len()
                                    && (#[trigger] self.sessions_view()[j]).session_id == id2;
                            let j0: int = if j < i {
                                j
                            } else {
                                j + 1
                            };
                            assert(old(self).sessions@[j0].session_id@ == id2);
                            assert(old(self).sessions_view()[j0].session_id == id2);
                        }
                    }
                }
                Ok(())
            },
        }
    }
}

} // verus!
