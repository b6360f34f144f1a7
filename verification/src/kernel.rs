use vstd::prelude::*;
use vstd::string::StringExecFns;
use vstd::string::StringSliceAdditionalSpecFns;
use vstd::utf8::encode_utf8;
use crate::audit::{AuditEntryView, AuditTrail};
use crate::clock::now_millis;
use crate::errors::KernelError;
use crate::event_bus::{Event, EventBus, EventView, lag_push};
use crate::ipc::{IpcMessage, IpcMessageView, MailboxRegistry};
use crate::module::{ModuleInfo, ModuleInfoView, ModuleStatus, ModuleType, ModuleTypeView};
use crate::payload::{encode_spawn_payload, spawn_payload};
use crate::permission::{Permission, PermissionManager};
use crate::sandbox::{WasmRuntime, valid_module_header, run_output, bad_header_message};
use crate::text::{dec_rep, u64_dec};

verus! {

/// How many pending messages one IPC mailbox holds before senders are
/// refused with `Unavailable`.
pub const MAILBOX_CAPACITY: usize = 64;

/// How many unread events one subscriber queue holds before the oldest
/// unread event is dropped (lagging-receiver semantics).
pub const EVENT_CAPACITY: usize = 100;

/// The human-readable label of a module kind, as it appears in audit
/// actions.
pub open spec fn type_label(t: ModuleTypeView) -> Seq<char> {
    match t {
        ModuleTypeView::Brain => "Brain"@,
        ModuleTypeView::Interface => "Interface"@,
        ModuleTypeView::Vision => "Vision"@,
        ModuleTypeView::Audio => "Audio"@,
        ModuleTypeView::Memory => "Memory"@,
        ModuleTypeView::Reasoning => "Reasoning"@,
        ModuleTypeView::Custom(label) => "Custom(\""@ + label + "\")"@,
    }
}

/// What the event published for a spawn looks like: routed on the
/// `module_spawned` topic, emitted by the kernel, carrying the new
/// module's id and name; only its timestamp depends on the clock.
pub open spec fn is_spawn_event(e: EventView, id: u64, name: Seq<char>) -> bool {
    &&& e.event_type == "module_spawned"@
    &&& e.source == "kernel"@
    &&& e.payload == spawn_payload(id, encode_utf8(name))
}

/// The kernel core: owns the module registry and orchestrates the
/// permission manager, the IPC mailboxes, the sandbox execution gate,
/// the event bus and the audit trail on behalf of every public
/// operation.
pub struct KiachaKernel {
    modules: Vec<ModuleInfo>,
    next_id: u64,
    permissions: PermissionManager,
    mailboxes: MailboxRegistry,
    wasm_runtime: WasmRuntime,
    audit: AuditTrail,
    event_bus: EventBus,
}

impl KiachaKernel {
    /// Module ids are pairwise distinct and always below the id counter,
    /// and every component is well formed.
    pub closed spec fn wf(self) -> bool {
        &&& forall|i: int, j: int|
            0 <= i < self.modules@.len() && 0 <= j < self.modules@.len() && i != j
                ==> #[trigger] self.modules@[i].id != #[trigger] self.modules@[j].id
        &&& forall|i: int| 0 <= i < self.modules@.len() ==> #[trigger] self.modules@[i].id < self.next_id
        &&& self.next_id as int == self.modules@.len()
        &&& self.permissions.wf()
        &&& self.mailboxes.wf()
        &&& self.event_bus.wf()
        &&& self.mailboxes.cap() == MAILBOX_CAPACITY
        &&& self.event_bus.cap() == EVENT_CAPACITY
    }

    /// Whether the id counter can still produce a fresh id. Ids are
    /// assigned in spawn order, so the counter's next value is the
    /// number of modules registered so far: a caller re-establishes
    /// this from `modules_view` alone, after any number of spawns.
    pub open spec fn can_spawn(self) -> bool {
        self.modules_view().len() < u64::MAX
    }

    /// The registered modules, in spawn order.
    pub closed spec fn modules_view(self) -> Seq<ModuleInfoView> {
        self.modules@.map_values(|m: ModuleInfo| m@)
    }

    /// Whether a module with id `m` is registered.
    pub open spec fn has_module(self, m: u64) -> bool {
        exists|i: int| 0 <= i < self.modules_view().len() && (#[trigger] self.modules_view()[i]).id == m
    }

    /// The index of module `m` in the registry.
    pub open spec fn module_idx(self, m: u64) -> int {
        choose|i: int| 0 <= i < self.modules_view().len() && (#[trigger] self.modules_view()[i]).id == m
    }

    /// The capability table.
    pub closed spec fn perm_state(self) -> PermissionManager {
        self.permissions
    }

    /// The mailbox registry.
    pub closed spec fn mailbox_state(self) -> MailboxRegistry {
        self.mailboxes
    }

    /// The event bus.
    pub closed spec fn bus_state(self) -> EventBus {
        self.event_bus
    }

    /// The audit trail's entries, oldest first.
    pub closed spec fn audit_state(self) -> Seq<AuditEntryView> {
        self.audit@
    }

    proof fn lemma_module_at(self, i: int)
        requires
            self.wf(),
            0 <= i < self.modules_view().len(),
        ensures
            self.has_module(self.modules_view()[i].id),
            self.module_idx(self.modules_view()[i].id) == i,
    {
        let m = self.modules_view()[i].id;
        assert(self.has_module(m));
        let j = self.module_idx(m);
        assert(0 <= j < self.modules_view().len() && self.modules_view()[j].id == m);
        assert(self.modules@[i].id == m && self.modules@[j].id == m);
        assert(j == i);
    }

    /// A fresh kernel with no modules, no grants, no mailboxes and no
    /// topics, and a single audit entry recording the start.
    pub fn new() -> (r: KiachaKernel)
        ensures
            r.wf(),
            r.can_spawn(),
            r.modules_view() == Seq::<ModuleInfoView>::empty(),
            forall|m: u64, p: Permission| !r.perm_state().has(m, p),
            forall|m: u64| !r.mailbox_state().has_mailbox(m),
            forall|t: Seq<char>| !r.bus_state().has_topic(t),
            r.audit_state().len() == 1,
            r.audit_state()[0].action == "kernel_started"@,
            r.audit_state()[0].detail == "Kiacha Kernel initialized"@,
    {
        let mut audit = AuditTrail::new();
        audit.log("kernel_started", "Kiacha Kernel initialized", now_millis());
        let r = KiachaKernel {
            modules: Vec::new(),
            next_id: 0,
            permissions: PermissionManager::new(),
            mailboxes: MailboxRegistry::new(MAILBOX_CAPACITY),
            wasm_runtime: WasmRuntime::new(),
            audit,
            event_bus: EventBus::new(EVENT_CAPACITY),
        };
        proof {
            assert(r.modules_view() =~= Seq::<ModuleInfoView>::empty());
        }
        r
    }

    /// Spawn a new module. Always succeeds while fresh ids remain: the
    /// module is installed Running under a fresh id never returned
    /// before, a `module_spawned` event goes to every subscriber that
    /// topic already has, and one audit entry `module_spawn:<kind>` with
    /// the module's name is appended. Every call installs a new module,
    /// even under an already-used name.
    pub fn spawn(&mut self, name: String, module_type: ModuleType) -> (r: u64)
        requires
            old(self).wf(),
            old(self).can_spawn(),
        ensures
            final(self).wf(),
            r as int == old(self).modules_view().len(),
            !old(self).has_module(r),
            final(self).has_module(r),
            final(self).modules_view() == old(self).modules_view().push(
                ModuleInfoView {
                    id: r,
                    name: name@,
                    module_type: module_type@,
                    status: ModuleStatus::Running,
                },
            ),
            final(self).audit_state().len() == old(self).audit_state().len() + 1,
            final(self).audit_state().take(old(self).audit_state().len() as int) == old(
                self,
            ).audit_state(),
            final(self).audit_state().last().action == "module_spawn:"@ + type_label(
                module_type@,
            ),
            final(self).audit_state().last().detail == name@,
            final(self).perm_state() == old(self).perm_state(),
            final(self).mailbox_state() == old(self).mailbox_state(),
            forall|t2: Seq<char>| #[trigger]
                final(self).bus_state().has_topic(t2) == old(self).bus_state().has_topic(t2),
            forall|t2: Seq<char>| #[trigger]
                final(self).bus_state().receiver_count(t2) == old(self).bus_state().receiver_count(
                    t2,
                ),
            exists|e: EventView|
                #[trigger] is_spawn_event(e, r, name@) && forall|rid: int|
                    0 <= rid < old(self).bus_state().receiver_count("module_spawned"@)
                        ==> #[trigger] final(self).bus_state().receiver_queue("module_spawned"@, rid)
                        == lag_push(
                        old(self).bus_state().receiver_queue("module_spawned"@, rid),
                        e,
                        old(self).bus_state().cap(),
                    ),
            forall|t2: Seq<char>, r2: int|
                t2 != "module_spawned"@ ==> #[trigger] final(self).bus_state().receiver_queue(
                    t2,
                    r2,
                ) == old(self).bus_state().receiver_queue(t2, r2),
    {
        let module_id = self.next_id;
        self.next_id = self.next_id + 1;
        proof {
            if old(self).has_module(module_id) {
                let j = old(self).module_idx(module_id);
                assert(old(self).modules@[j].id == module_id);
                assert(false);
            }
        }
        let module_info = ModuleInfo {
            id: module_id,
            name: name.clone(),
            module_type: module_type.clone(),
            status: ModuleStatus::Running,
        };
        self.modules.push(module_info);
        proof {
            assert(self.modules_view() =~= old(self).modules_view().push(
                ModuleInfoView {
                    id: module_id,
                    name: name@,
                    module_type: module_type@,
                    status: ModuleStatus::Running,
                },
            ));
            let n = old(self).modules_view().len() as int;
            assert(self.modules_view()[n].id == module_id);
            assert(self.has_module(module_id));
        }
        let event = Event {
            event_type: "module_spawned".to_owned(),
            source: "kernel".to_owned(),
            payload: encode_spawn_payload(module_id, name.as_str()),
            timestamp: now_millis(),
        };
        let ghost ev = event@;
        proof {
            assert(is_spawn_event(ev, module_id, name@));
        }
        self.event_bus.publish(event);
        let label = type_label_string(&module_type);
        let mut action = String::new();
        action.append("module_spawn:");
        action.append(label.as_str());
        proof {
            assert(action@ =~= "module_spawn:"@ + type_label(module_type@));
        }
        self.audit.log(action.as_str(), name.as_str(), now_millis());
        proof {
            assert(self.audit_state().take(old(self).audit_state().len() as int) =~= old(
                self,
            ).audit_state());
        }
        module_id
    }

    fn find_module(&self, m: u64) -> (r: Option<usize>)
        ensures
            match r {
                Some(i) => i < self.modules@.len() && self.modules@[i as int].id == m,
                None => forall|i: int|
                    0 <= i < self.modules@.len() ==> (#[trigger] self.modules@[i]).id != m,
            },
    {
        let mut i: usize = 0;
        while i < self.modules.len()
            invariant
                i <= self.modules@.len(),
                forall|j: int| 0 <= j < i ==> (#[trigger] self.modules@[j]).id != m,
            decreases self.modules@.len() - i,
        {
            if self.modules[i].id == m {
                return Some(i);
            }
            i = i + 1;
        }
        None
    }

    fn set_module_status(&mut self, module_id: u64, status: ModuleStatus, action: &str) -> (r:
        Result<(), KernelError>)
        requires
            old(self).wf(),
        ensures
            final(self).wf(),
            final(self).perm_state() == old(self).perm_state(),
            final(self).mailbox_state() == old(self).mailbox_state(),
            final(self).bus_state() == old(self).bus_state(),
            final(self).can_spawn() == old(self).can_spawn(),
            match r {
                Ok(()) => {
                    &&& old(self).has_module(module_id)
                    &&& final(self).modules_view() == old(self).modules_view().update(
                        old(self).module_idx(module_id),
                        with_status(
                            old(self).modules_view()[old(self).module_idx(module_id)],
                            status,
                        ),
                    )
                    &&& final(self).audit_state().len() == old(self).audit_state().len() + 1
                    &&& final(self).audit_state().take(old(self).audit_state().len() as int)
                        == old(self).audit_state()
                    &&& final(self).audit_state().last().action == action@
                    &&& final(self).audit_state().last().detail == dec_rep(module_id as nat)
                },
                Err(KernelError::NotFound) => {
                    &&& !old(self).has_module(module_id)
                    &&& final(self).modules_view() == old(self).modules_view()
                    &&& final(self).audit_state() == old(self).audit_state()
                },
                _ => false,
            },
    {
        let found = self.find_module(module_id);
        match found {
            None => {
                proof {
                    if self.has_module(module_id) {
                        let j = self.module_idx(module_id);
                        assert(self.modules@[j].id == module_id);
                        assert(false);
                    }
                }
                Err(KernelError::NotFound)
            },
            Some(i) => {
                let m = &mut self.modules[i];
                m.status = status;
                let detail = u64_dec(module_id);
                self.audit.log(action, detail.as_str(), now_millis());
                proof {
                    assert(old(self).modules@[i as int].id == module_id);
                    old(self).lemma_module_at(i as int);
                    assert(old(self).module_idx(module_id) == i);
                    assert(self.modules_view() =~= old(self).modules_view().update(
                        i as int,
                        with_status(old(self).modules_view()[i as int], status),
                    ));
                    assert(self.audit_state().take(old(self).audit_state().len() as int) =~= old(
                        self,
                    ).audit_state());
                }
                Ok(())
            },
        }
    }

    /// Pause a module: its status becomes Paused, one audit entry
    /// `module_pause` is appended, and nothing else changes. Pausing an
    /// already-paused module succeeds again (idempotent result, another
    /// audit entry). Fails with `NotFound`, changing nothing, exactly
    /// when the id is not registered.
    pub fn pause_module(&mut self, module_id: u64) -> (r: Result<(), KernelError>)
        requires
            old(self).wf(),
        ensures
            final(self).wf(),
            final(self).perm_state() == old(self).perm_state(),
            final(self).mailbox_state() == old(self).mailbox_state(),
            final(self).bus_state() == old(self).bus_state(),
            final(self).can_spawn() == old(self).can_spawn(),
            match r {
                Ok(()) => {
                    &&& old(self).has_module(module_id)
                    &&& final(self).modules_view() == old(self).modules_view().update(
                        old(self).module_idx(module_id),
                        with_status(
                            old(self).modules_view()[old(self).module_idx(module_id)],
                            ModuleStatus::Paused,
                        ),
                    )
                    &&& final(self).audit_state().len() == old(self).audit_state().len() + 1
                    &&& final(self).audit_state().take(old(self).audit_state().len() as int)
                        == old(self).audit_state()
                    &&& final(self).audit_state().last().action == "module_pause"@
                    &&& final(self).audit_state().last().detail == dec_rep(module_id as nat)
                },
                Err(KernelError::NotFound) => {
                    &&& !old(self).has_module(module_id)
                    &&& final(self).modules_view() == old(self).modules_view()
                    &&& final(self).audit_state() == old(self).audit_state()
                },
                _ => false,
            },
    {
        self.set_module_status(module_id, ModuleStatus::Paused, "module_pause")
    }

    /// Resume a module: its status becomes Running, one audit entry
    /// `module_resume` is appended, and nothing else changes. Fails with
    /// `NotFound`, changing nothing, exactly when the id is not
    /// registered.
    pub fn resume_module(&mut self, module_id: u64) -> (r: Result<(), KernelError>)
        requires
            old(self).wf(),
        ensures
            final(self).wf(),
            final(self).perm_state() == old(self).perm_state(),
            final(self).mailbox_state() == old(self).mailbox_state(),
            final(self).bus_state() == old(self).bus_state(),
            final(self).can_spawn() == old(self).can_spawn(),
            match r {
                Ok(()) => {
                    &&& old(self).has_module(module_id)
                    &&& final(self).modules_view() == old(self).modules_view().update(
                        old(self).module_idx(module_id),
                        with_status(
                            old(self).modules_view()[old(self).module_idx(module_id)],
                            ModuleStatus::Running,
                        ),
                    )
                    &&& final(self).audit_state().len() == old(self).audit_state().len() + 1
                    &&& final(self).audit_state().take(old(self).audit_state().len() as int)
                        == old(self).audit_state()
                    &&& final(self).audit_state().last().action == "module_resume"@
                    &&& final(self).audit_state().last().detail == dec_rep(module_id as nat)
                },
                Err(KernelError::NotFound) => {
                    &&& !old(self).has_module(module_id)
                    &&& final(self).modules_view() == old(self).modules_view()
                    &&& final(self).audit_state() == old(self).audit_state()
                },
                _ => false,
            },
    {
        self.set_module_status(module_id, ModuleStatus::Running, "module_resume")
    }

    /// Register module `m`'s inbound mailbox. A module must register its
    /// own mailbox before anything can be sent to it; mailboxes are
    /// never created implicitly by a send. Registering twice keeps the
    /// pending messages.
    pub fn register_mailbox(&mut self, m: u64)
        requires
            old(self).wf(),
        ensures
            final(self).wf(),
            final(self).modules_view() == old(self).modules_view(),
            final(self).perm_state() == old(self).perm_state(),
            final(self).bus_state() == old(self).bus_state(),
            final(self).audit_state() == old(self).audit_state(),
            final(self).can_spawn() == old(self).can_spawn(),
            final(self).mailbox_state().has_mailbox(m),
            final(self).mailbox_state().queue_of(m) == if old(self).mailbox_state().has_mailbox(
                m,
            ) {
                old(self).mailbox_state().queue_of(m)
            } else {
                Seq::<IpcMessageView>::empty()
            },
            forall|m2: u64|
                #[trigger] final(self).mailbox_state().has_mailbox(m2) == (old(
                    self,
                ).mailbox_state().has_mailbox(m2) || m2 == m),
            forall|m2: u64|
                m2 != m ==> #[trigger] final(self).mailbox_state().queue_of(m2) == old(
                    self,
                ).mailbox_state().queue_of(m2),
    {
        self.mailboxes.register(m);
    }

    /// Send a point-to-point message. The sender must hold SendIpc (or
    /// Admin) — otherwise the send fails with `PermissionDenied`
    /// whatever the target is; the recipient must have registered a
    /// mailbox — otherwise `NotFound`; a full mailbox refuses with
    /// `Unavailable` rather than dropping or reordering. On success the
    /// message is appended to exactly the recipient's queue and one
    /// audit entry `ipc_send` with `<from> -> <to>` is appended; a
    /// failed send changes nothing.
    pub fn ipc_send(&mut self, msg: IpcMessage) -> (r: Result<(), KernelError>)
        requires
            old(self).wf(),
        ensures
            final(self).wf(),
            final(self).modules_view() == old(self).modules_view(),
            final(self).perm_state() == old(self).perm_state(),
            final(self).bus_state() == old(self).bus_state(),
            final(self).can_spawn() == old(self).can_spawn(),
            forall|m2: u64|
                #[trigger] final(self).mailbox_state().has_mailbox(m2) == old(
                    self,
                ).mailbox_state().has_mailbox(m2),
            forall|m2: u64|
                m2 != msg.to ==> #[trigger] final(self).mailbox_state().queue_of(m2) == old(
                    self,
                ).mailbox_state().queue_of(m2),
            match r {
                Ok(()) => {
                    &&& old(self).perm_state().check_passes(msg.from, Permission::SendIpc)
                    &&& old(self).mailbox_state().has_mailbox(msg.to)
                    &&& old(self).mailbox_state().queue_of(msg.to).len() < old(
                        self,
                    ).mailbox_state().cap()
                    &&& final(self).mailbox_state().queue_of(msg.to) == old(
                        self,
                    ).mailbox_state().queue_of(msg.to).push(msg@)
                    &&& final(self).audit_state().len() == old(self).audit_state().len() + 1
                    &&& final(self).audit_state().take(old(self).audit_state().len() as int)
                        == old(self).audit_state()
                    &&& final(self).audit_state().last().action == "ipc_send"@
                    &&& final(self).audit_state().last().detail == dec_rep(msg.from as nat)
                        + " -> "@ + dec_rep(msg.to as nat)
                },
                Err(KernelError::PermissionDenied) => {
                    &&& !old(self).perm_state().check_passes(msg.from, Permission::SendIpc)
                    &&& final(self).mailbox_state() == old(self).mailbox_state()
                    &&& final(self).audit_state() == old(self).audit_state()
                },
                Err(KernelError::NotFound) => {
                    &&& old(self).perm_state().check_passes(msg.from, Permission::SendIpc)
                    &&& !old(self).mailbox_state().has_mailbox(msg.to)
                    &&& final(self).mailbox_state() == old(self).mailbox_state()
                    &&& final(self).audit_state() == old(self).audit_state()
                },
                Err(KernelError::Unavailable) => {
                    &&& old(self).perm_state().check_passes(msg.from, Permission::SendIpc)
                    &&& old(self).mailbox_state().has_mailbox(msg.to)
                    &&& old(self).mailbox_state().queue_of(msg.to).len() >= old(
                        self,
                    ).mailbox_state().cap()
                    &&& final(self).mailbox_state() == old(self).mailbox_state()
                    &&& final(self).audit_state() == old(self).audit_state()
                },
                _ => false,
            },
    {
        let from = msg.from;
        let to = msg.to;
        if !self.permissions.check(from, Permission::SendIpc) {
            return Err(KernelError::PermissionDenied);
        }
        match self.mailboxes.send(msg) {
            Ok(()) => {
                let mut detail = u64_dec(from);
                detail.append(" -> ");
                detail.append(u64_dec(to).as_str());
                proof {
                    assert(detail@ =~= dec_rep(from as nat) + " -> "@ + dec_rep(to as nat));
                }
                self.audit.log("ipc_send", detail.as_str(), now_millis());
                proof {
                    assert(self.audit_state().take(old(self).audit_state().len() as int) =~= old(
                        self,
                    ).audit_state());
                }
                Ok(())
            },
            Err(e) => Err(e),
        }
    }

    /// Take the oldest pending message from module `m`'s mailbox, if
    /// any. Messages come out in exactly the order sends were accepted.
    pub fn ipc_recv(&mut self, m: u64) -> (r: Option<IpcMessage>)
        requires
            old(self).wf(),
        ensures
            final(self).wf(),
            final(self).modules_view() == old(self).modules_view(),
            final(self).perm_state() == old(self).perm_state(),
            final(self).bus_state() == old(self).bus_state(),
            final(self).audit_state() == old(self).audit_state(),
            final(self).can_spawn() == old(self).can_spawn(),
            match r {
                Some(msg) => {
                    &&& old(self).mailbox_state().queue_of(m).len() > 0
                    &&& msg@ == old(self).mailbox_state().queue_of(m)[0]
                    &&& final(self).mailbox_state().queue_of(m) == old(
                        self,
                    ).mailbox_state().queue_of(m).drop_first()
                },
                None => {
                    &&& old(self).mailbox_state().queue_of(m).len() == 0
                    &&& final(self).mailbox_state() == old(self).mailbox_state()
                },
            },
            forall|m2: u64|
                #[trigger] final(self).mailbox_state().has_mailbox(m2) == old(
                    self,
                ).mailbox_state().has_mailbox(m2),
            forall|m2: u64|
                m2 != m ==> #[trigger] final(self).mailbox_state().queue_of(m2) == old(
                    self,
                ).mailbox_state().queue_of(m2),
    {
        self.mailboxes.recv(m)
    }

    /// Decide whether a module holds a permission. Never fails: an
    /// unknown module simply holds nothing. Admin implicitly satisfies
    /// every check.
    pub fn check_permission(&self, module_id: u64, permission: Permission) -> (r: bool)
        requires
            self.wf(),
        ensures
            r == self.perm_state().check_passes(module_id, permission),
    {
        self.permissions.check(module_id, permission)
    }

    /// Grant a permission to a module. Idempotent; affects no other
    /// module or permission and writes no audit entry of its own.
    pub fn grant_permission(&mut self, module_id: u64, permission: Permission)
        requires
            old(self).wf(),
        ensures
            final(self).wf(),
            final(self).modules_view() == old(self).modules_view(),
            final(self).mailbox_state() == old(self).mailbox_state(),
            final(self).bus_state() == old(self).bus_state(),
            final(self).audit_state() == old(self).audit_state(),
            final(self).can_spawn() == old(self).can_spawn(),
            forall|m2: u64, p2: Permission|
                #[trigger] final(self).perm_state().has(m2, p2) == (old(self).perm_state().has(
                    m2,
                    p2,
                ) || (m2 == module_id && p2 == permission)),
    {
        self.permissions.grant(module_id, permission);
    }

    /// Revoke a permission from a module. Revoking a permission that
    /// was never granted is a no-op and does not error; affects no
    /// other module or permission.
    pub fn revoke_permission(&mut self, module_id: u64, permission: Permission)
        requires
            old(self).wf(),
        ensures
            final(self).wf(),
            final(self).modules_view() == old(self).modules_view(),
            final(self).mailbox_state() == old(self).mailbox_state(),
            final(self).bus_state() == old(self).bus_state(),
            final(self).audit_state() == old(self).audit_state(),
            final(self).can_spawn() == old(self).can_spawn(),
            forall|m2: u64, p2: Permission|
                #[trigger] final(self).perm_state().has(m2, p2) == (old(self).perm_state().has(
                    m2,
                    p2,
                ) && !(m2 == module_id && p2 == permission)),
    {
        self.permissions.revoke(module_id, permission);
    }

    /// Run a bytecode image under module `module_id`'s authority. The
    /// caller must hold RunWasm (or Admin): the permission check happens
    /// strictly before the engine is invoked, and a refusal changes
    /// nothing. Once the check succeeds, one audit entry `wasm_run` with
    /// the module id is appended whether the engine accepts or refuses
    /// the image; the engine's own error is returned as data.
    pub fn run_wasm(&mut self, module_id: u64, wasm_data: &[u8], args: &Vec<String>) -> (r: Result<
        String,
        KernelError,
    >)
        requires
            old(self).wf(),
        ensures
            final(self).wf(),
            final(self).modules_view() == old(self).modules_view(),
            final(self).perm_state() == old(self).perm_state(),
            final(self).mailbox_state() == old(self).mailbox_state(),
            final(self).bus_state() == old(self).bus_state(),
            final(self).can_spawn() == old(self).can_spawn(),
            match r {
                Ok(out) => {
                    &&& old(self).perm_state().check_passes(module_id, Permission::RunWasm)
                    &&& valid_module_header(wasm_data@)
                    &&& out@ == run_output(args@.len())
                    &&& final(self).audit_state().len() == old(self).audit_state().len() + 1
                    &&& final(self).audit_state().take(old(self).audit_state().len() as int)
                        == old(self).audit_state()
                    &&& final(self).audit_state().last().action == "wasm_run"@
                    &&& final(self).audit_state().last().detail == dec_rep(module_id as nat)
                },
                Err(KernelError::PermissionDenied) => {
                    &&& !old(self).perm_state().check_passes(module_id, Permission::RunWasm)
                    &&& final(self).audit_state() == old(self).audit_state()
                },
                Err(KernelError::ExecutionFailed(m)) => {
                    &&& old(self).perm_state().check_passes(module_id, Permission::RunWasm)
                    &&& !valid_module_header(wasm_data@)
                    &&& m@ == bad_header_message()
                    &&& final(self).audit_state().len() == old(self).audit_state().len() + 1
                    &&& final(self).audit_state().take(old(self).audit_state().len() as int)
                        == old(self).audit_state()
                    &&& final(self).audit_state().last().action == "wasm_run"@
                    &&& final(self).audit_state().last().detail == dec_rep(module_id as nat)
                },
                _ => false,
            },
    {
        if !self.permissions.check(module_id, Permission::RunWasm) {
            return Err(KernelError::PermissionDenied);
        }
        let result = self.wasm_runtime.execute(wasm_data, args);
        let detail = u64_dec(module_id);
        self.audit.log("wasm_run", detail.as_str(), now_millis());
        proof {
            assert(self.audit_state().take(old(self).audit_state().len() as int) =~= old(
                self,
            ).audit_state());
        }
        match result {
            Ok(out) => Ok(out),
            Err(msg) => Err(KernelError::ExecutionFailed(msg)),
        }
    }

    /// The full audit history rendered oldest first, one line per
    /// recorded action.
    pub fn get_audit_logs(&self) -> (r: Vec<String>)
        ensures
            r@.len() == self.audit_state().len(),
            forall|i: int|
                0 <= i < r@.len() ==> #[trigger] r@[i]@ == crate::audit::rendered_entry(
                    self.audit_state()[i],
                ),
    {
        self.audit.get_logs()
    }

    /// A point-in-time copy of every registered module, in spawn order.
    pub fn list_modules(&self) -> (r: Vec<ModuleInfo>)
        ensures
            r@.len() == self.modules_view().len(),
            forall|i: int| 0 <= i < r@.len() ==> #[trigger] r@[i]@ == self.modules_view()[i],
    {
        let mut out: Vec<ModuleInfo> = Vec::new();
        let mut i: usize = 0;
        while i < self.modules.len()
            invariant
                i <= self.modules@.len(),
                out@.len() == i,
                forall|j: int| 0 <= j < i ==> #[trigger] out@[j]@ == self.modules_view()[j],
            decreases self.modules@.len() - i,
        {
            out.push(self.modules[i].clone());
            i = i + 1;
        }
        out
    }

    /// Subscribe to future events of one topic, creating the channel if
    /// needed. Returns a fresh receiver handle whose queue starts empty:
    /// events published before the subscription are never seen.
    pub fn subscribe_to_events(&mut self, event_type: &str) -> (rid: usize)
        requires
            old(self).wf(),
        ensures
            final(self).wf(),
            final(self).modules_view() == old(self).modules_view(),
            final(self).perm_state() == old(self).perm_state(),
            final(self).mailbox_state() == old(self).mailbox_state(),
            final(self).audit_state() == old(self).audit_state(),
            final(self).can_spawn() == old(self).can_spawn(),
            final(self).bus_state().has_topic(event_type@),
            final(self).bus_state().topic_names().contains(event_type@),
            rid == old(self).bus_state().receiver_count(event_type@),
            final(self).bus_state().receiver_count(event_type@) == rid + 1,
            final(self).bus_state().receiver_queue(event_type@, rid as int) == Seq::<
                EventView,
            >::empty(),
            forall|r2: int|
                0 <= r2 < rid ==> #[trigger] final(self).bus_state().receiver_queue(
                    event_type@,
                    r2,
                ) == old(self).bus_state().receiver_queue(event_type@, r2),
            forall|t2: Seq<char>|
                t2 != event_type@ ==> #[trigger] final(self).bus_state().has_topic(t2) == old(
                    self,
                ).bus_state().has_topic(t2),
            forall|t2: Seq<char>|
                t2 != event_type@ ==> #[trigger] final(self).bus_state().receiver_count(t2) == old(
                    self,
                ).bus_state().receiver_count(t2),
            forall|t2: Seq<char>, r2: int|
                t2 != event_type@ ==> #[trigger] final(self).bus_state().receiver_queue(t2, r2)
                    == old(self).bus_state().receiver_queue(t2, r2),
    {
        self.event_bus.subscribe(event_type.to_owned())
    }

    /// Take the oldest unread event for one receiver handle on one
    /// topic, if any. Each published event is seen at most once per
    /// receiver, in publish order.
    pub fn next_event(&mut self, event_type: &str, rid: usize) -> (r: Option<Event>)
        requires
            old(self).wf(),
        ensures
            final(self).wf(),
            final(self).modules_view() == old(self).modules_view(),
            final(self).perm_state() == old(self).perm_state(),
            final(self).mailbox_state() == old(self).mailbox_state(),
            final(self).audit_state() == old(self).audit_state(),
            final(self).can_spawn() == old(self).can_spawn(),
            match r {
                Some(e) => {
                    &&& old(self).bus_state().receiver_queue(event_type@, rid as int).len() > 0
                    &&& e@ == old(self).bus_state().receiver_queue(event_type@, rid as int)[0]
                    &&& final(self).bus_state().receiver_queue(event_type@, rid as int) == old(
                        self,
                    ).bus_state().receiver_queue(event_type@, rid as int).drop_first()
                },
                None => {
                    &&& old(self).bus_state().receiver_queue(event_type@, rid as int).len() == 0
                    &&& final(self).bus_state() == old(self).bus_state()
                },
            },
            forall|t2: Seq<char>| #[trigger]
                final(self).bus_state().has_topic(t2) == old(self).bus_state().has_topic(t2),
            forall|t2: Seq<char>, r2: int|
                !(t2 == event_type@ && r2 == rid as int) ==> #[trigger] final(self).bus_state()
                    .receiver_queue(t2, r2) == old(self).bus_state().receiver_queue(t2, r2),
    {
        let key = event_type.to_owned();
        self.event_bus.recv_event(&key, rid)
    }
}

/// A module's view with its status replaced.
pub open spec fn with_status(v: ModuleInfoView, status: ModuleStatus) -> ModuleInfoView {
    ModuleInfoView { id: v.id, name: v.name, module_type: v.module_type, status }
}

/// The label of a module kind as audit actions carry it.
pub fn type_label_string(t: &ModuleType) -> (r: String)
    ensures
        r@ == type_label(t@),
{
    match t {
        ModuleType::Brain => "Brain".to_owned(),
        ModuleType::Interface => "Interface".to_owned(),
        ModuleType::Vision => "Vision".to_owned(),
        ModuleType::Audio => "Audio".to_owned(),
        ModuleType::Memory => "Memory".to_owned(),
        ModuleType::Reasoning => "Reasoning".to_owned(),
        ModuleType::Custom(label) => {
            let mut s = String::new();
            s.append("Custom(\"");
            s.append(label.as_str());
            s.append("\")");
            proof {
                assert(s@ =~= "Custom(\""@ + label@ + "\")"@);
            }
            s
        },
    }
}

/// Pausing a module and then resuming it returns it to status Running
/// with its identity untouched: after the two registry updates that
/// `pause_module` and `resume_module` promise, the module keeps its id,
/// name and kind, ends Running, and no other module changed.
pub proof fn lemma_pause_then_resume_restores_running(mv0: Seq<ModuleInfoView>, i: int)
    requires
        0 <= i < mv0.len(),
    ensures
        ({
            let mv1 = mv0.update(i, with_status(mv0[i], ModuleStatus::Paused));
            let mv2 = mv1.update(i, with_status(mv1[i], ModuleStatus::Running));
            &&& mv2[i].status == ModuleStatus::Running
            &&& mv2[i].id == mv0[i].id
            &&& mv2[i].name == mv0[i].name
            &&& mv2[i].module_type == mv0[i].module_type
            &&& forall|j: int| 0 <= j < mv0.len() && j != i ==> mv2[j] == #[trigger] mv0[j]
        }),
{
}

/// Spawn ids are pairwise distinct across any sequence of calls: `spawn`
/// returns the registry's size at the time of the call and grows it by
/// one, and no operation ever shrinks the registry, so a later spawn
/// sees a strictly larger registry and returns a different id.
pub proof fn lemma_later_spawn_id_differs(
    earlier_len: int,
    earlier_id: u64,
    later_len: int,
    later_id: u64,
)
    requires
        earlier_id as int == earlier_len,
        later_id as int == later_len,
        later_len > earlier_len,
    ensures
        later_id != earlier_id,
{
}

/// Module ids are pairwise distinct: for any two different positions in
/// the registry of a well-formed kernel, the ids differ. Together with
/// `spawn`'s promise that its result was never registered before, every
/// sequence of spawns returns pairwise distinct ids.
pub proof fn lemma_module_ids_distinct(k: KiachaKernel)
    requires
        k.wf(),
    ensures
        forall|i: int, j: int|
            0 <= i < k.modules_view().len() && 0 <= j < k.modules_view().len() && i != j
                ==> (#[trigger] k.modules_view()[i]).id != (#[trigger] k.modules_view()[j]).id,
{
    assert forall|i: int, j: int|
        0 <= i < k.modules_view().len() && 0 <= j < k.modules_view().len() && i != j implies (
    #[trigger] k.modules_view()[i]).id != (#[trigger] k.modules_view()[j]).id by {
        assert(k.modules_view()[i].id == k.modules@[i].id);
        assert(k.modules_view()[j].id == k.modules@[j].id);
    }
}

} // verus!
