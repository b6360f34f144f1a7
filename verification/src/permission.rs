use vstd::prelude::*;

verus! {

/// The closed set of capability kinds a module may hold. The check logic
/// enumerates them exhaustively, so the enumeration carries no open escape.
#[derive(Clone, Copy, Debug, PartialEq, Eq, Structural)]
pub enum Permission {
    SendIpc,
    RunWasm,
    AccessMemory,
    AccessVision,
    AccessAudio,
    SystemCall,
    Admin,
}

/// The capability flags of one module: one boolean per permission kind.
#[derive(Clone, Copy, Debug)]
pub struct CapSet {
    pub send_ipc: bool,
    pub run_wasm: bool,
    pub access_memory: bool,
    pub access_vision: bool,
    pub access_audio: bool,
    pub system_call: bool,
    pub admin: bool,
}

impl CapSet {
    /// Whether this set holds the given permission.
    pub open spec fn holds(self, p: Permission) -> bool {
        match p {
            Permission::SendIpc => self.send_ipc,
            Permission::RunWasm => self.run_wasm,
            Permission::AccessMemory => self.access_memory,
            Permission::AccessVision => self.access_vision,
            Permission::AccessAudio => self.access_audio,
            Permission::SystemCall => self.system_call,
            Permission::Admin => self.admin,
        }
    }

    /// The empty capability set: deny-by-default.
    pub fn empty() -> (r: CapSet)
        ensures
            forall|q: Permission| !r.holds(q),
    {
        CapSet {
            send_ipc: false,
            run_wasm: false,
            access_memory: false,
            access_vision: false,
            access_audio: false,
            system_call: false,
            admin: false,
        }
    }

    /// Whether this set holds the given permission.
    pub fn contains_perm(&self, p: Permission) -> (r: bool)
        ensures
            r == self.holds(p),
    {
        match p {
            Permission::SendIpc => self.send_ipc,
            Permission::RunWasm => self.run_wasm,
            Permission::AccessMemory => self.access_memory,
            Permission::AccessVision => self.access_vision,
            Permission::AccessAudio => self.access_audio,
            Permission::SystemCall => self.system_call,
            Permission::Admin => self.admin,
        }
    }

    /// Set or clear one permission flag, leaving every other flag as it was.
    pub fn set_flag(&mut self, p: Permission, v: bool)
        ensures
            forall|q: Permission| final(self).holds(q) == if q == p {
                v
            } else {
                old(self).holds(q)
            },
    {
        match p {
            Permission::SendIpc => self.send_ipc = v,
            Permission::RunWasm => self.run_wasm = v,
            Permission::AccessMemory => self.access_memory = v,
            Permission::AccessVision => self.access_vision = v,
            Permission::AccessAudio => self.access_audio = v,
            Permission::SystemCall => self.system_call = v,
            Permission::Admin => self.admin = v,
        }
    }
}

/// Per-module capability sets, deny-by-default: a module that was never
/// granted anything (or is unknown) holds no permission at all.
pub struct PermissionManager {
    entries: Vec<(u64, CapSet)>,
}

impl PermissionManager {
    /// Each module id appears at most once in the table.
    pub closed spec fn wf(self) -> bool {
        forall|i: int, j: int|
            0 <= i < self.entries@.len() && 0 <= j < self.entries@.len() && i != j
                ==> #[trigger] self.entries@[i].0 != #[trigger] self.entries@[j].0
    }

    /// Whether module `m` holds permission `p` outright (not via Admin).
    pub closed spec fn has(self, m: u64, p: Permission) -> bool {
        exists|i: int|
            0 <= i < self.entries@.len() && (#[trigger] self.entries@[i]).0 == m
                && self.entries@[i].1.holds(p)
    }

    /// Whether a check for `(m, p)` passes: Admin implicitly satisfies
    /// every check, otherwise the specific permission must be held.
    pub open spec fn check_passes(self, m: u64, p: Permission) -> bool {
        self.has(m, Permission::Admin) || self.has(m, p)
    }

    /// An empty table: no module holds any permission.
    pub fn new() -> (r: PermissionManager)
        ensures
            r.wf(),
            forall|m: u64, p: Permission| !r.has(m, p),
    {
        PermissionManager { entries: Vec::new() }
    }

    fn find(&self, m: u64) -> (r: Option<usize>)
        ensures
            match r {
                Some(i) => i < self.entries@.len() && self.entries@[i as int].0 == m,
                None => forall|i: int|
                    0 <= i < self.entries@.len() ==> (#[trigger] self.entries@[i]).0 != m,
            },
    {
        let mut i: usize = 0;
        while i < self.entries.len()
            invariant
                i <= self.entries@.len(),
                forall|j: int| 0 <= j < i ==> (#[trigger] self.entries@[j]).0 != m,
            decreases self.entries@.len() - i,
        {
            if self.entries[i].0 == m {
                return Some(i);
            }
            i = i + 1;
        }
        None
    }

    proof fn lemma_found_entry_decides(self, i: int, m: u64, p: Permission)
        requires
            self.wf(),
            0 <= i < self.entries@.len(),
            self.entries@[i].0 == m,
        ensures
            self.has(m, p) == self.entries@[i].1.holds(p),
    {
        if self.has(m, p) {
            let j = choose|j: int|
                0 <= j < self.entries@.len() && (#[trigger] self.entries@[j]).0 == m
                    && self.entries@[j].1.holds(p);
            assert(j == i);
        }
    }

    /// Grant `p` to module `m`. Idempotent: granting a permission already
    /// held changes nothing. No other module or permission is affected.
    pub fn grant(&mut self, m: u64, p: Permission)
        requires
            old(self).wf(),
        ensures
            final(self).wf(),
            forall|m2: u64, p2: Permission|
                #[trigger] final(self).has(m2, p2) == (old(self).has(m2, p2) || (m2 == m && p2
                    == p)),
    {
        let found = self.find(m);
        match found {
            Some(i) => {
                let entry = &mut self.entries[i];
                entry.1.set_flag(p, true);
                proof {
                    let pre = *old(self);
                    let post = *self;
                    assert(post.entries@ =~= pre.entries@.update(
                        i as int,
                        post.entries@[i as int],
                    ));
                    assert forall|m2: u64, p2: Permission| #[trigger]
                        post.has(m2, p2) == (pre.has(m2, p2) || (m2 == m && p2 == p)) by {
                        pre.lemma_found_entry_decides(i as int, m, p2);
                        post.lemma_found_entry_decides(i as int, m, p2);
                        if m2 != m {
                            assert(post.has(m2, p2) == pre.has(m2, p2)) by {
                                if pre.has(m2, p2) {
                                    let j = choose|j: int|
                                        0 <= j < pre.entries@.len() && (#[trigger] pre.entries@[j]).0
                                            == m2 && pre.entries@[j].1.holds(p2);
                                    assert(post.entries@[j].0 == m2
                                        && post.entries@[j].1.holds(p2));
                                }
                                if post.has(m2, p2) {
                                    let j = choose|j: int|
                                        0 <= j < post.entries@.len() && (
                                        #[trigger] post.entries@[j]).0 == m2
                                            && post.entries@[j].1.holds(p2);
                                    assert(j != i);
                                    assert(pre.entries@[j].0 == m2 && pre.entries@[j].1.holds(p2));
                                }
                            }
                        }
                    }
                }
            },
            None => {
                let mut caps = CapSet::empty();
                caps.set_flag(p, true);
                self.entries.push((m, caps));
                proof {
                    let pre = *old(self);
                    let post = *self;
                    let n = pre.entries@.len() as int;
                    assert(post.entries@ =~= pre.entries@.push((m, post.entries@[n].1)));
                    assert forall|m2: u64, p2: Permission| #[trigger]
                        post.has(m2, p2) == (pre.has(m2, p2) || (m2 == m && p2 == p)) by {
                        if pre.has(m2, p2) {
                            let j = choose|j: int|
                                0 <= j < pre.entries@.len() && (#[trigger] pre.entries@[j]).0 == m2
                                    && pre.entries@[j].1.holds(p2);
                            assert(post.entries@[j].0 == m2 && post.entries@[j].1.holds(p2));
                        }
                        if m2 == m && p2 == p {
                            assert(post.entries@[n].0 == m && post.entries@[n].1.holds(p));
                        }
                        if post.has(m2, p2) && !(m2 == m && p2 == p) {
                            let j = choose|j: int|
                                0 <= j < post.entries@.len() && (#[trigger] post.entries@[j]).0
                                    == m2 && post.entries@[j].1.holds(p2);
                            if j == n {
                                assert(m2 == m);
                                assert(post.entries@[n].1.holds(p2) ==> p2 == p);
                            } else {
                                assert(pre.entries@[j].0 == m2 && pre.entries@[j].1.holds(p2));
                            }
                        }
                    }
                }
            },
        }
    }

    /// Revoke `p` from module `m`. Revoking a permission that was never
    /// granted is a no-op. No other module or permission is affected.
    pub fn revoke(&mut self, m: u64, p: Permission)
        requires
            old(self).wf(),
        ensures
            final(self).wf(),
            forall|m2: u64, p2: Permission|
                #[trigger] final(self).has(m2, p2) == (old(self).has(m2, p2) && !(m2 == m && p2
                    == p)),
    {
        let found = self.find(m);
        match found {
            Some(i) => {
                let entry = &mut self.entries[i];
                entry.1.set_flag(p, false);
                proof {
                    let pre = *old(self);
                    let post = *self;
                    assert(post.entries@ =~= pre.entries@.update(
                        i as int,
                        post.entries@[i as int],
                    ));
                    assert forall|m2: u64, p2: Permission| #[trigger]
                        post.has(m2, p2) == (pre.has(m2, p2) && !(m2 == m && p2 == p)) by {
                        pre.lemma_found_entry_decides(i as int, m, p2);
                        post.lemma_found_entry_decides(i as int, m, p2);
                        if m2 != m {
                            if pre.has(m2, p2) {
                                let j = choose|j: int|
                                    0 <= j < pre.entries@.len() && (#[trigger] pre.entries@[j]).0
                                        == m2 && pre.entries@[j].1.holds(p2);
                                assert(post.entries@[j].0 == m2 && post.entries@[j].1.holds(p2));
                            }
                            if post.has(m2, p2) {
                                let j = choose|j: int|
                                    0 <= j < post.entries@.len() && (#[trigger] post.entries@[j]).0
                                        == m2 && post.entries@[j].1.holds(p2);
                                assert(j != i);
                                assert(pre.entries@[j].0 == m2 && pre.entries@[j].1.holds(p2));
                            }
                        }
                    }
                }
            },
            None => {
                proof {
                    assert forall|m2: u64, p2: Permission| #[trigger]
                        self.has(m2, p2) == (old(self).has(m2, p2) && !(m2 == m && p2 == p)) by {
                        if self.has(m2, p2) && m2 == m {
                            let j = choose|j: int|
                                0 <= j < self.entries@.len() && (#[trigger] self.entries@[j]).0
                                    == m2 && self.entries@[j].1.holds(p2);
                            assert(false);
                        }
                    }
                }
            },
        }
    }

    /// Decide a permission check: passes exactly when the module holds
    /// Admin or holds the specific permission. Never fails; an unknown
    /// module holds nothing.
    pub fn check(&self, m: u64, p: Permission) -> (r: bool)
        requires
            self.wf(),
        ensures
            r == self.check_passes(m, p),
    {
        let found = self.find(m);
        match found {
            Some(i) => {
                let caps = &self.entries[i].1;
                let r = caps.contains_perm(Permission::Admin) || caps.contains_perm(p);
                proof {
                    self.lemma_found_entry_decides(i as int, m, Permission::Admin);
                    self.lemma_found_entry_decides(i as int, m, p);
                }
                r
            },
            None => {
                proof {
                    if self.has(m, Permission::Admin) || self.has(m, p) {
                        let p2 = if self.has(m, Permission::Admin) {
                            Permission::Admin
                        } else {
                            p
                        };
                        let j = choose|j: int|
                            0 <= j < self.entries@.len() && (#[trigger] self.entries@[j]).0 == m
                                && self.entries@[j].1.holds(p2);
                        assert(false);
                    }
                }
                false
            },
        }
    }
}

/// Granting Admin to a module makes every later check for that module
/// pass, whatever permission is asked for.
pub proof fn lemma_admin_satisfies_every_check(
    pre: PermissionManager,
    post: PermissionManager,
    m: u64,
)
    requires
        forall|m2: u64, p2: Permission|
            #[trigger] post.has(m2, p2) == (pre.has(m2, p2) || (m2 == m && p2
                == Permission::Admin)),
    ensures
        forall|p: Permission| #[trigger] post.check_passes(m, p),
{
}

/// Revoking a permission that a module does not hold leaves every
/// module's capabilities exactly as they were: a no-op.
pub proof fn lemma_revoke_absent_is_noop(
    pre: PermissionManager,
    post: PermissionManager,
    m: u64,
    p: Permission,
)
    requires
        !pre.has(m, p),
        forall|m2: u64, p2: Permission|
            #[trigger] post.has(m2, p2) == (pre.has(m2, p2) && !(m2 == m && p2 == p)),
    ensures
        forall|m2: u64, p2: Permission| #[trigger] post.has(m2, p2) == pre.has(m2, p2),
{
}

} // verus!
