use icarus::exec_mode::{resolve_exec_mode, ExecMode, ModeFlags};

fn flags() -> ModeFlags {
    ModeFlags { rust: false, direct: false, native: false, vm: false, assembly: false, jit: false }
}

#[test]
fn default_is_vm() {
    assert_eq!(resolve_exec_mode(&flags()).unwrap(), ExecMode::Vm);
}

#[test]
fn vm_flags_select_vm() {
    assert_eq!(resolve_exec_mode(&ModeFlags { vm: true, ..flags() }).unwrap(), ExecMode::Vm);
    assert_eq!(resolve_exec_mode(&ModeFlags { vm: true, ..flags() }).unwrap(), ExecMode::Vm);
    assert_eq!(resolve_exec_mode(&ModeFlags { assembly: true, ..flags() }).unwrap(), ExecMode::Vm);
    assert_eq!(resolve_exec_mode(&ModeFlags { assembly: true, ..flags() }).unwrap(), ExecMode::Vm);
}

#[test]
fn rust_flags_select_direct() {
    assert_eq!(resolve_exec_mode(&ModeFlags { rust: true, ..flags() }).unwrap(), ExecMode::Direct);
    assert_eq!(resolve_exec_mode(&ModeFlags { rust: true, ..flags() }).unwrap(), ExecMode::Direct);
    assert_eq!(resolve_exec_mode(&ModeFlags { direct: true, ..flags() }).unwrap(), ExecMode::Direct);
}

#[test]
fn native_is_exclusive() {
    assert_eq!(resolve_exec_mode(&ModeFlags { native: true, ..flags() }).unwrap(), ExecMode::Native);
    assert!(resolve_exec_mode(&ModeFlags { native: true, vm: true, ..flags() }).is_err());
    assert!(resolve_exec_mode(&ModeFlags { native: true, rust: true, ..flags() }).is_err());
}

#[test]
fn direct_and_vm_are_exclusive() {
    assert!(resolve_exec_mode(&ModeFlags { rust: true, vm: true, ..flags() }).is_err());
}

#[test]
fn jit_flag_selects_jit() {
    assert_eq!(resolve_exec_mode(&ModeFlags { jit: true, ..flags() }).unwrap(), ExecMode::Jit);
}

#[test]
fn each_conflict_has_its_message() {
    assert_eq!(
        resolve_exec_mode(&ModeFlags { jit: true, direct: true, ..flags() }),
        Err("Error: --jit cannot be combined with other execution modes".to_string())
    );
    assert_eq!(
        resolve_exec_mode(&ModeFlags { native: true, assembly: true, ..flags() }),
        Err("Error: --native and --vm/--asm are mutually exclusive".to_string())
    );
    assert_eq!(
        resolve_exec_mode(&ModeFlags { native: true, direct: true, ..flags() }),
        Err("Error: --native cannot be combined with --rust/--direct".to_string())
    );
    assert_eq!(
        resolve_exec_mode(&ModeFlags { direct: true, assembly: true, ..flags() }),
        Err("Error: --rust/--direct cannot be combined with --vm/--asm".to_string())
    );
    // two flags of one family are no conflict
    assert_eq!(resolve_exec_mode(&ModeFlags { rust: true, direct: true, ..flags() }).unwrap(), ExecMode::Direct);
    assert_eq!(resolve_exec_mode(&ModeFlags { vm: true, assembly: true, ..flags() }).unwrap(), ExecMode::Vm);
}
