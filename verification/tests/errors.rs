//! Error-path tests across the library.

use jit_unwind::reg::{map_reg, RegClass, Register, RegisterMappingError};
use jit_unwind::registry::{RegistryError, UnwindRegistry};
use jit_unwind::systemv::CallFrameInstruction;
use jit_unwind::unwind::UnwindInfo;

#[test]
fn out_of_bank_register_does_not_map() {
    let bad = Register { class: RegClass::Int, hw_enc: 16 };
    assert_eq!(map_reg(bad), Err(RegisterMappingError::UnsupportedRegisterBank));
    let good = Register { class: RegClass::Int, hw_enc: 5 };
    assert_eq!(map_reg(good), Ok(6));
    let xmm = Register { class: RegClass::Vector, hw_enc: 2 };
    assert_eq!(map_reg(xmm), Ok(19));
}

fn some_info() -> UnwindInfo {
    UnwindInfo::SystemV(jit_unwind::systemv::UnwindInfo {
        instructions: vec![(1, CallFrameInstruction::CfaOffset(16))],
        len: 4,
    })
}

#[test]
fn registry_refuses_everything_after_publish() {
    let mut registry = UnwindRegistry::new(0x4000);
    registry.register(0, 4, some_info()).expect("registration accepted");
    registry.publish().expect("publication accepted");
    assert_eq!(
        registry.register(8, 4, some_info()),
        Err(RegistryError::AlreadyPublished)
    );
    assert_eq!(registry.publish(), Err(RegistryError::AlreadyPublished));
    // The registration made before publication is still there.
    assert_eq!(registry.entries.len(), 1);
}
