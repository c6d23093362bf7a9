//! How the driver chooses an execution mode from its flags.

use vstd::prelude::*;

verus! {

/// The flags of the command line that choose how a program runs.
#[derive(Debug, Clone, Copy, PartialEq, Eq, Structural)]
pub struct ModeFlags {
    /// `-r`, `--rust`
    pub rust: bool,
    /// `-d`, `--direct`
    pub direct: bool,
    /// `-n`, `--native`
    pub native: bool,
    /// `-v`, `--vm`
    pub vm: bool,
    /// `-a`, `--asm`
    pub assembly: bool,
    /// `-j`, `--jit`
    pub jit: bool,
}

/// How a program is run.
#[derive(Debug, Clone, Copy, PartialEq, Eq, Structural)]
pub enum ExecMode {
    Direct,
    Native,
    Vm,
    Jit,
}

/// Which error a combination of flags gives, if any (checked in this order).
pub open spec fn mode_conflict(f: ModeFlags) -> Option<Seq<char>> {
    let wants_direct = f.direct || f.rust;
    let wants_vm = f.assembly || f.vm;
    if f.jit && (f.native || wants_vm || wants_direct) {
        Some("Error: --jit cannot be combined with other execution modes"@)
    } else if f.native && wants_vm {
        Some("Error: --native and --vm/--asm are mutually exclusive"@)
    } else if f.native && wants_direct {
        Some("Error: --native cannot be combined with --rust/--direct"@)
    } else if wants_vm && wants_direct {
        Some("Error: --rust/--direct cannot be combined with --vm/--asm"@)
    } else {
        None
    }
}

/// The mode that consistent flags select: JIT, else native, else direct, else the VM.
pub open spec fn selected_mode(f: ModeFlags) -> ExecMode {
    if f.jit {
        ExecMode::Jit
    } else if f.native {
        ExecMode::Native
    } else if f.direct || f.rust {
        ExecMode::Direct
    } else {
        ExecMode::Vm
    }
}

/// The execution mode that the flags select, or the error for a
/// contradictory combination.
pub fn resolve_exec_mode(cli: &ModeFlags) -> (r: Result<ExecMode, String>)
    ensures
        match mode_conflict(*cli) {
            Some(msg) => r matches Err(e) && e@ == msg,
            None => r == Ok::<ExecMode, String>(selected_mode(*cli)),
        },
{
    let wants_direct = cli.direct || cli.rust;
    let wants_vm = cli.assembly || cli.vm;
    let wants_jit = cli.jit;
    if wants_jit && (cli.native || wants_vm || wants_direct) {
        return Err("Error: --jit cannot be combined with other execution modes".to_owned());
    }
    if cli.native && wants_vm {
        return Err("Error: --native and --vm/--asm are mutually exclusive".to_owned());
    }
    if cli.native && wants_direct {
        return Err("Error: --native cannot be combined with --rust/--direct".to_owned());
    }
    if wants_vm && wants_direct {
        return Err("Error: --rust/--direct cannot be combined with --vm/--asm".to_owned());
    }
    if wants_jit {
        Ok(ExecMode::Jit)
    } else if cli.native {
        Ok(ExecMode::Native)
    } else if wants_direct {
        Ok(ExecMode::Direct)
    } else {
        Ok(ExecMode::Vm)
    }
}

/// Exactly one mode family can be asked for: a request is refused precisely
/// when it names two families, and an accepted one runs the family it names
/// (the VM when it names none).
pub proof fn law_modes_exclusive(f: ModeFlags)
    ensures
        mode_conflict(f) is None <==> {
            let n = (if f.jit { 1int } else { 0 }) + (if f.native { 1int } else { 0 })
                + (if f.vm || f.assembly { 1int } else { 0 }) + (if f.rust || f.direct { 1int } else { 0 });
            n <= 1
        },
        mode_conflict(f) is None ==> (selected_mode(f) == ExecMode::Jit <==> f.jit),
        mode_conflict(f) is None ==> (selected_mode(f) == ExecMode::Native <==> f.native),
        mode_conflict(f) is None ==> (selected_mode(f) == ExecMode::Direct <==> (f.rust || f.direct)),
{
}

} // verus!
