use kiacha_kernel::errors::KernelError;
use kiacha_kernel::ipc::IpcMessage;
use kiacha_kernel::kernel::KiachaKernel;
use kiacha_kernel::module::{ModuleStatus, ModuleType};
use kiacha_kernel::permission::Permission;

const VALID_WASM: [u8; 8] = [0x00, 0x61, 0x73, 0x6d, 0x01, 0x00, 0x00, 0x00];
const CORRUPT_WASM: [u8; 4] = [0xde, 0xad, 0xbe, 0xef];

fn status_of(kernel: &KiachaKernel, id: u64) -> ModuleStatus {
    let modules = kernel.list_modules();
    modules.iter().find(|m| m.id == id).expect("module must exist").status
}

#[test]
fn spawn_returns_pairwise_distinct_ids() {
    let mut kernel = KiachaKernel::new();
    let mut ids = Vec::new();
    ids.push(kernel.spawn("vision-1".to_string(), ModuleType::Vision));
    ids.push(kernel.spawn("vision-1".to_string(), ModuleType::Vision));
    ids.push(kernel.spawn("brain".to_string(), ModuleType::Brain));
    ids.push(kernel.spawn("custom".to_string(), ModuleType::Custom("probe".to_string())));
    ids.push(kernel.spawn("audio".to_string(), ModuleType::Audio));
    for i in 0..ids.len() {
        for j in 0..ids.len() {
            if i != j {
                assert_ne!(ids[i], ids[j]);
            }
        }
    }
    // Ids are assigned in spawn order.
    assert_eq!(ids, vec![0, 1, 2, 3, 4]);
    assert_eq!(kernel.list_modules().len(), 5);
}

#[test]
fn custom_module_kind_renders_like_its_debug_form() {
    let mut kernel = KiachaKernel::new();
    kernel.spawn("probe".to_string(), ModuleType::Custom("lidar".to_string()));
    let logs = kernel.get_audit_logs();
    assert_eq!(logs[1], "module_spawn:Custom(\"lidar\"): probe");
}

#[test]
fn spawned_module_starts_running() {
    let mut kernel = KiachaKernel::new();
    let id = kernel.spawn("worker".to_string(), ModuleType::Reasoning);
    assert_eq!(status_of(&kernel, id), ModuleStatus::Running);
    let modules = kernel.list_modules();
    assert_eq!(modules[0].name, "worker");
    assert_eq!(modules[0].module_type, ModuleType::Reasoning);
}

#[test]
fn pause_then_resume_restores_running() {
    let mut kernel = KiachaKernel::new();
    let id = kernel.spawn("worker".to_string(), ModuleType::Memory);
    assert!(kernel.pause_module(id).is_ok());
    assert_eq!(status_of(&kernel, id), ModuleStatus::Paused);
    assert!(kernel.resume_module(id).is_ok());
    assert_eq!(status_of(&kernel, id), ModuleStatus::Running);
}

#[test]
fn pause_and_resume_unknown_id_fail_not_found() {
    let mut kernel = KiachaKernel::new();
    assert_eq!(kernel.pause_module(999), Err(KernelError::NotFound));
    assert_eq!(kernel.resume_module(999), Err(KernelError::NotFound));
}

#[test]
fn pausing_twice_succeeds_and_audits_twice() {
    let mut kernel = KiachaKernel::new();
    let id = kernel.spawn("worker".to_string(), ModuleType::Interface);
    assert!(kernel.pause_module(id).is_ok());
    assert!(kernel.pause_module(id).is_ok());
    assert_eq!(status_of(&kernel, id), ModuleStatus::Paused);
    let pause_line = format!("module_pause: {}", id);
    let count = kernel.get_audit_logs().iter().filter(|l| **l == pause_line).count();
    assert_eq!(count, 2);
}

#[test]
fn ipc_without_send_grant_is_permission_denied_regardless_of_target() {
    let mut kernel = KiachaKernel::new();
    let a = kernel.spawn("a".to_string(), ModuleType::Brain);
    let b = kernel.spawn("b".to_string(), ModuleType::Audio);
    kernel.register_mailbox(b);
    // Target exists: still refused.
    let msg = IpcMessage { from: a, to: b, payload: vec![1, 2, 3] };
    assert_eq!(kernel.ipc_send(msg), Err(KernelError::PermissionDenied));
    // Target does not exist: refused for the same reason, not NotFound.
    let msg = IpcMessage { from: a, to: 424242, payload: vec![] };
    assert_eq!(kernel.ipc_send(msg), Err(KernelError::PermissionDenied));
}

#[test]
fn admin_satisfies_every_permission_check() {
    let mut kernel = KiachaKernel::new();
    let a = kernel.spawn("a".to_string(), ModuleType::Brain);
    let b = kernel.spawn("b".to_string(), ModuleType::Brain);
    kernel.grant_permission(a, Permission::Admin);
    let all = [
        Permission::SendIpc,
        Permission::RunWasm,
        Permission::AccessMemory,
        Permission::AccessVision,
        Permission::AccessAudio,
        Permission::SystemCall,
        Permission::Admin,
    ];
    for p in all {
        assert!(kernel.check_permission(a, p));
        assert!(!kernel.check_permission(b, p));
    }
}

#[test]
fn revoking_an_absent_grant_is_a_noop() {
    let mut kernel = KiachaKernel::new();
    let a = kernel.spawn("a".to_string(), ModuleType::Brain);
    kernel.grant_permission(a, Permission::SendIpc);
    // Revoke something never granted: no error, nothing else changes.
    kernel.revoke_permission(a, Permission::RunWasm);
    kernel.revoke_permission(77, Permission::Admin);
    assert!(kernel.check_permission(a, Permission::SendIpc));
    assert!(!kernel.check_permission(a, Permission::RunWasm));
}

#[test]
fn grant_is_idempotent_and_revoke_removes() {
    let mut kernel = KiachaKernel::new();
    let a = kernel.spawn("a".to_string(), ModuleType::Brain);
    kernel.grant_permission(a, Permission::SystemCall);
    kernel.grant_permission(a, Permission::SystemCall);
    assert!(kernel.check_permission(a, Permission::SystemCall));
    kernel.revoke_permission(a, Permission::SystemCall);
    assert!(!kernel.check_permission(a, Permission::SystemCall));
}

#[test]
fn subscriber_before_publish_sees_event_exactly_once() {
    let mut kernel = KiachaKernel::new();
    let rid = kernel.subscribe_to_events("module_spawned");
    let id = kernel.spawn("x".to_string(), ModuleType::Vision);
    let event = kernel.next_event("module_spawned", rid).expect("event must arrive");
    assert_eq!(event.event_type, "module_spawned");
    assert_eq!(event.source, "kernel");
    let expected = format!("{{\"module_id\":{},\"name\":\"x\"}}", id);
    assert_eq!(event.payload, expected.as_bytes());
    // Exactly once: the queue holds nothing more.
    assert!(kernel.next_event("module_spawned", rid).is_none());
}

#[test]
fn subscriber_after_publish_never_sees_it() {
    let mut kernel = KiachaKernel::new();
    let early = kernel.subscribe_to_events("module_spawned");
    kernel.spawn("x".to_string(), ModuleType::Vision);
    let late = kernel.subscribe_to_events("module_spawned");
    assert!(kernel.next_event("module_spawned", late).is_none());
    assert!(kernel.next_event("module_spawned", early).is_some());
}

#[test]
fn audit_log_records_operations_in_order() {
    let mut kernel = KiachaKernel::new();
    let id = kernel.spawn("vision-1".to_string(), ModuleType::Vision);
    kernel.pause_module(id).unwrap();
    kernel.resume_module(id).unwrap();
    kernel.grant_permission(id, Permission::SendIpc);
    kernel.register_mailbox(id);
    kernel
        .ipc_send(IpcMessage { from: id, to: id, payload: vec![9] })
        .unwrap();
    let logs = kernel.get_audit_logs();
    assert!(logs.len() >= 4);
    assert_eq!(logs[0], "kernel_started: Kiacha Kernel initialized");
    assert_eq!(logs[1], "module_spawn:Vision: vision-1");
    assert_eq!(logs[2], format!("module_pause: {}", id));
    assert_eq!(logs[3], format!("module_resume: {}", id));
    assert_eq!(logs[4], format!("ipc_send: {} -> {}", id, id));
}

#[test]
fn wasm_gate_scenario() {
    let mut kernel = KiachaKernel::new();
    let v1 = kernel.spawn("vision-1".to_string(), ModuleType::Vision);
    // Without the grant the call is refused before the engine runs.
    assert_eq!(
        kernel.run_wasm(v1, &VALID_WASM, &Vec::new()),
        Err(KernelError::PermissionDenied)
    );
    kernel.grant_permission(v1, Permission::RunWasm);
    let ok = kernel.run_wasm(v1, &VALID_WASM, &Vec::new()).expect("valid bytecode must run");
    assert!(!ok.is_empty());
    assert_eq!(ok, "executed module with 0 argument(s)");
    let err = kernel.run_wasm(v1, &CORRUPT_WASM, &Vec::new());
    match err {
        Err(KernelError::ExecutionFailed(msg)) => {
            assert!(!msg.is_empty());
            assert_eq!(msg, "invalid bytecode: bad module header");
        }
        other => panic!("expected an execution failure, got {:?}", other),
    }
    let wasm_line = format!("wasm_run: {}", v1);
    let count = kernel.get_audit_logs().iter().filter(|l| **l == wasm_line).count();
    assert_eq!(count, 2);
}

#[test]
fn ipc_before_and_after_mailbox_registration() {
    let mut kernel = KiachaKernel::new();
    let a = kernel.spawn("a".to_string(), ModuleType::Brain);
    let b = kernel.spawn("b".to_string(), ModuleType::Audio);
    kernel.grant_permission(a, Permission::SendIpc);
    // Before B registers: NotFound.
    let msg = IpcMessage { from: a, to: b, payload: vec![1] };
    assert_eq!(kernel.ipc_send(msg), Err(KernelError::NotFound));
    // After B registers: delivered, observable in submission order.
    kernel.register_mailbox(b);
    kernel.ipc_send(IpcMessage { from: a, to: b, payload: vec![1] }).unwrap();
    kernel.ipc_send(IpcMessage { from: a, to: b, payload: vec![2] }).unwrap();
    let first = kernel.ipc_recv(b).expect("first message");
    assert_eq!((first.from, first.to, first.payload), (a, b, vec![1]));
    let second = kernel.ipc_recv(b).expect("second message");
    assert_eq!(second.payload, vec![2]);
    assert!(kernel.ipc_recv(b).is_none());
}

#[test]
fn full_mailbox_refuses_with_unavailable() {
    let mut kernel = KiachaKernel::new();
    let a = kernel.spawn("a".to_string(), ModuleType::Brain);
    let b = kernel.spawn("b".to_string(), ModuleType::Brain);
    kernel.grant_permission(a, Permission::SendIpc);
    kernel.register_mailbox(b);
    for i in 0..64u8 {
        kernel.ipc_send(IpcMessage { from: a, to: b, payload: vec![i] }).unwrap();
    }
    assert_eq!(
        kernel.ipc_send(IpcMessage { from: a, to: b, payload: vec![255] }),
        Err(KernelError::Unavailable)
    );
    // The refused message was not enqueued; the 64 accepted ones stand.
    let first = kernel.ipc_recv(b).unwrap();
    assert_eq!(first.payload, vec![0]);
}
