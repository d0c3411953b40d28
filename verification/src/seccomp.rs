use vstd::prelude::*;
use vstd::string::*;
use seccompiler::{BpfProgram, SeccompAction, SeccompFilter, SeccompRule, TargetArch};
use std::collections::BTreeMap;
use crate::profile::lowercase_spec;

verus! {

/// The system calls the sandbox forbids: those Landlock does not cover.
pub enum Syscall {
    Ptrace,
    Bpf,
    KexecLoad,
    KexecFileLoad,
    InitModule,
    FinitModule,
    DeleteModule,
    Iopl,
    Ioperm,
    Swapon,
    Swapoff,
    PivotRoot,
    Mount,
    Umount2,
    Unshare,
    Setns,
    Sethostname,
    Setdomainname,
}

/// The blocked system calls, in order: tracing, BPF, kexec, kernel modules, port
/// I/O, swap, mounts, namespaces and host names.
pub open spec fn blocked_syscalls_spec() -> Seq<Syscall> {
    seq![
        Syscall::Ptrace, Syscall::Bpf, Syscall::KexecLoad, Syscall::KexecFileLoad,
        Syscall::InitModule, Syscall::FinitModule, Syscall::DeleteModule, Syscall::Iopl,
        Syscall::Ioperm, Syscall::Swapon, Syscall::Swapoff, Syscall::PivotRoot, Syscall::Mount,
        Syscall::Umount2, Syscall::Unshare, Syscall::Setns, Syscall::Sethostname,
        Syscall::Setdomainname,
    ]
}

/// The blocked system calls.
pub fn blocked_syscalls() -> (r: Vec<Syscall>)
    ensures
        r@ == blocked_syscalls_spec(),
{
    let r = vec![
        Syscall::Ptrace, Syscall::Bpf, Syscall::KexecLoad, Syscall::KexecFileLoad,
        Syscall::InitModule, Syscall::FinitModule, Syscall::DeleteModule, Syscall::Iopl,
        Syscall::Ioperm, Syscall::Swapon, Syscall::Swapoff, Syscall::PivotRoot, Syscall::Mount,
        Syscall::Umount2, Syscall::Unshare, Syscall::Setns, Syscall::Sethostname,
        Syscall::Setdomainname,
    ];
    assert(r@ =~= blocked_syscalls_spec());
    r
}

/// What a seccomp filter does with a system call.
pub enum FilterAction {
    Allow,
    KillProcess,
}

/// The BPF program (as `(code, jt, jf, k)` instructions) that seccompiler builds
/// for a filter with one empty rule chain per number of `blocked`, the action
/// `mismatch` for calls it does not list, `on_match` for calls it lists, on the
/// architecture `arch`; `None` when seccompiler refuses to build it.
pub uninterp spec fn seccomp_program(
    blocked: Seq<i64>,
    mismatch: FilterAction,
    on_match: FilterAction,
    arch: Seq<char>,
) -> Option<Seq<(u16, u8, u8, u32)>>;

/// A system call number that seccompiler can encode (it converts it to `u32`).
pub open spec fn encodable(n: i64) -> bool {
    0 <= n <= 0xffff_ffff
}

/// `SeccompFilter::new` and `BpfProgram::try_from`: compile a filter whose listed
/// calls have no conditions. The program is named, not stated.
#[verifier::external_body]
fn compile_filter(blocked: &[i64], mismatch: FilterAction, on_match: FilterAction, arch: &str) -> (r: Option<Vec<(u16, u8, u8, u32)>>)
    requires
        forall|i: int| 0 <= i < blocked@.len() ==> encodable(#[trigger] blocked@[i]),
    ensures
        match r {
            Some(p) => seccomp_program(blocked@, mismatch, on_match, arch@) == Some(p@),
            None => seccomp_program(blocked@, mismatch, on_match, arch@) is None,
        },
{
    let rules: BTreeMap<i64, Vec<SeccompRule>> = blocked.iter().map(|&n| (n, Vec::new())).collect();
    let to_action = |a: FilterAction| match a {
        FilterAction::Allow => SeccompAction::Allow,
        FilterAction::KillProcess => SeccompAction::KillProcess,
    };
    let target: TargetArch = arch.try_into().ok()?;
    let filter = SeccompFilter::new(rules, to_action(mismatch), to_action(on_match), target).ok()?;
    let bpf: BpfProgram = filter.try_into().ok()?;
    Some(bpf.into_iter().map(|f| (f.code, f.jt, f.jf, f.k)).collect())
}

/// `TargetArch::try_from`: seccompiler supports `x86_64` and `aarch64`, in any case.
#[verifier::external_body]
fn target_arch_supported(arch: &str) -> (b: bool)
    ensures
        b == (lowercase_spec(arch@) == "x86_64"@ || lowercase_spec(arch@) == "aarch64"@),
{
    TargetArch::try_from(arch).is_ok()
}

/// Why no seccomp filter could be built.
pub enum SeccompError {
    /// seccompiler has no support for the architecture.
    UnsupportedArch,
    /// A system call number cannot be encoded.
    BadSyscallNumber,
    /// seccompiler refused the filter.
    Unbuildable,
}

/// The deny-list filter: calls in `blocked` kill the process, every other call is allowed.
pub fn deny_filter(blocked: &[i64], arch: &str) -> (r: Result<Vec<(u16, u8, u8, u32)>, SeccompError>)
    ensures
        !(lowercase_spec(arch@) == "x86_64"@ || lowercase_spec(arch@) == "aarch64"@) ==> r matches Err(
            SeccompError::UnsupportedArch,
        ),
        (lowercase_spec(arch@) == "x86_64"@ || lowercase_spec(arch@) == "aarch64"@) ==> match r {
            Ok(p) => (forall|i: int| 0 <= i < blocked@.len() ==> encodable(#[trigger] blocked@[i]))
                && seccomp_program(blocked@, FilterAction::Allow, FilterAction::KillProcess, arch@) == Some(p@),
            Err(SeccompError::BadSyscallNumber) => exists|i: int| 0 <= i < blocked@.len() && !encodable(#[trigger] blocked@[i]),
            Err(SeccompError::Unbuildable) => (forall|i: int| 0 <= i < blocked@.len() ==> encodable(#[trigger] blocked@[i]))
                && seccomp_program(blocked@, FilterAction::Allow, FilterAction::KillProcess, arch@) is None,
            Err(SeccompError::UnsupportedArch) => false,
        },
{
    if !target_arch_supported(arch) {
        return Err(SeccompError::UnsupportedArch);
    }
    let mut i: usize = 0;
    while i < blocked.len()
        invariant
            i <= blocked@.len(),
            lowercase_spec(arch@) == "x86_64"@ || lowercase_spec(arch@) == "aarch64"@,
            forall|k: int| 0 <= k < i ==> encodable(#[trigger] blocked@[k]),
        decreases blocked@.len() - i,
    {
        if blocked[i] < 0 || blocked[i] > 0xffff_ffff {
            return Err(SeccompError::BadSyscallNumber);
        }
        i = i + 1;
    }
    match compile_filter(blocked, FilterAction::Allow, FilterAction::KillProcess, arch) {
        Some(p) => Ok(p),
        None => Err(SeccompError::Unbuildable),
    }
}

/// The message of a seccomp failure.
pub fn seccomp_error_message(e: &SeccompError, arch: &str) -> (m: String)
    ensures
        m@ == match e {
            SeccompError::UnsupportedArch => "unsupported arch: "@ + arch@,
            SeccompError::BadSyscallNumber => "seccomp: failed to build seccomp-bpf filter (check syscall numbers)"@,
            SeccompError::Unbuildable => "seccomp: filter compilation failed (try disabling with `seccomp = false`)"@,
        },
{
    match e {
        SeccompError::UnsupportedArch => {
            let mut m = crate::strings::owned("unsupported arch: ");
            m.append(arch);
            m
        },
        SeccompError::BadSyscallNumber => crate::strings::owned("seccomp: failed to build seccomp-bpf filter (check syscall numbers)"),
        SeccompError::Unbuildable => crate::strings::owned("seccomp: filter compilation failed (try disabling with `seccomp = false`)"),
    }
}

} // verus!
