//! Unwind information for a single function, and the x86-64 entry point
//! that dispatches one compiled function's instruction stream to the
//! backend of the requested ABI.

use vstd::prelude::*;
use crate::reg::{rbp, RegisterMappingError};
use crate::scanner::{scan_codes, scan_prologue, UnwindInfoContext};

verus! {

/// Unwind information for a single function, in one of the supported
/// target formats.
#[derive(Debug, PartialEq, Eq)]
pub enum UnwindInfo {
    /// Windows x64 ABI unwind information.
    WindowsX64(crate::winx64::UnwindInfo),
    /// System V ABI unwind information.
    SystemV(crate::systemv::UnwindInfo),
}

/// Two unwind records describe the same unwinding: same format and the
/// same contents.
pub open spec fn unwind_info_equiv(a: UnwindInfo, b: UnwindInfo) -> bool {
    match (a, b) {
        (UnwindInfo::SystemV(x), UnwindInfo::SystemV(y)) => {
            &&& x.instructions@ == y.instructions@
            &&& x.len == y.len
        }
        (UnwindInfo::WindowsX64(x), UnwindInfo::WindowsX64(y)) => {
            &&& x.flags == y.flags
            &&& x.prologue_size == y.prologue_size
            &&& x.frame_register == y.frame_register
            &&& x.frame_register_offset == y.frame_register_offset
            &&& x.unwind_codes@ == y.unwind_codes@
        }
        _ => false,
    }
}

impl Clone for UnwindInfo {
    /// A clone describes the same unwinding as the original.
    fn clone(&self) -> (r: Self)
        ensures
            unwind_info_equiv(r, *self),
    {
        match self {
            UnwindInfo::WindowsX64(w) => UnwindInfo::WindowsX64(w.clone()),
            UnwindInfo::SystemV(s) => UnwindInfo::SystemV(s.clone()),
        }
    }
}

/// Which unwind format a function needs.
#[derive(Clone, Copy, Debug, PartialEq, Eq, Structural)]
pub enum UnwindInfoKind {
    /// No unwind information is requested.
    Omit,
    /// DWARF call frame information for System V targets.
    SystemV,
    /// `UNWIND_INFO` tables for Windows x64.
    Windows,
}

/// The x86-64 unwind generator. RBP is assumed to serve as the frame
/// pointer for both calling conventions.
pub struct X64UnwindInfo;

impl X64UnwindInfo {
    /// Scans one function's instruction stream and lowers it to the
    /// unwind format of `kind`. Nothing is produced when no format is
    /// requested; otherwise the result is exactly the chosen backend's
    /// lowering of the scanned unwind codes, with RBP as the frame
    /// pointer for System V. A register-mapping error cannot arise on
    /// this path by design: context validity demands hardware encodings
    /// within the x86-64 banks, which `map_reg` translates totally, so
    /// the error variant is reserved for registers outside them.
    pub fn create_unwind_info(context: &UnwindInfoContext, kind: UnwindInfoKind) -> (r: Result<
        Option<UnwindInfo>,
        RegisterMappingError,
    >)
        requires
            context.wf(),
            context.insts@.len() < 0x0FFF_FFFF,
            kind is Windows ==> context.insts_layout@[context.prologue.end as int] <= 0xFF
                && context.prologue.end - context.prologue.start <= 85,
        ensures
            r is Ok,
            match kind {
                UnwindInfoKind::Omit => r == Ok::<Option<UnwindInfo>, RegisterMappingError>(
                    None,
                ),
                UnwindInfoKind::SystemV => match r {
                    Ok(Some(UnwindInfo::SystemV(u))) => {
                        &&& u.instructions@ == crate::systemv::run_instrs(
                            crate::systemv::init_state(),
                            scan_codes(*context),
                            Some(crate::reg::spec_rbp()),
                        )
                        &&& u.len == context.len
                        &&& crate::systemv::instrs_sorted(u.instructions@)
                        &&& forall|i: int|
                            0 <= i < u.instructions@.len() ==> (#[trigger] u.instructions@[i]).0
                                <= u.len
                    }
                    _ => false,
                },
                UnwindInfoKind::Windows => match r {
                    Ok(Some(UnwindInfo::WindowsX64(w))) => {
                        &&& w.flags == 0
                        &&& w.prologue_size == context.insts_layout@[context.prologue.end as int]
                        &&& w.unwind_codes@ == crate::winx64::win_codes(
                            scan_prologue(
                                context.insts@,
                                context.insts_layout@,
                                context.prologue.start as int,
                                context.prologue.end as int,
                            ),
                        )
                        &&& w.frame_register == crate::winx64::win_frame_register(
                            scan_prologue(
                                context.insts@,
                                context.insts_layout@,
                                context.prologue.start as int,
                                context.prologue.end as int,
                            ),
                            None,
                        )
                        &&& w.wf()
                    }
                    _ => false,
                },
            },
    {
        match kind {
            UnwindInfoKind::Omit => Ok(None),
            UnwindInfoKind::SystemV => {
                let unwind = match crate::scanner::create_unwind_info(context, 8) {
                    Some(u) => u,
                    None => {
                        return Ok(None);
                    }
                };
                let fp = Some(rbp());
                proof {
                    crate::scanner::lemma_scan_codes_run_ok(*context, fp);
                }
                match crate::systemv::create_unwind_info(&unwind, fp) {
                    Some(u) => {
                        proof {
                            crate::systemv::lemma_run_instrs_sorted(
                                crate::systemv::init_state(),
                                scan_codes(*context),
                                fp,
                            );
                            crate::systemv::lemma_run_instrs_bounded(
                                crate::systemv::init_state(),
                                scan_codes(*context),
                                fp,
                                context.len,
                            );
                        }
                        Ok(Some(UnwindInfo::SystemV(u)))
                    }
                    None => Ok(None),
                }
            }
            UnwindInfoKind::Windows => {
                let unwind = match crate::scanner::create_unwind_info(context, 8) {
                    Some(u) => u,
                    None => {
                        return Ok(None);
                    }
                };
                proof {
                    crate::scanner::lemma_scan_prologue_shape(
                        context.insts@,
                        context.insts_layout@,
                        context.prologue.start as int,
                        context.prologue.end as int,
                    );
                }
                match crate::winx64::create_unwind_info(&unwind) {
                    Some(w) => Ok(Some(UnwindInfo::WindowsX64(w))),
                    None => Ok(None),
                }
            }
        }
    }
}

} // verus!
