//! A reference machine for exercising single instructions.
use vstd::prelude::*;
use crate::cpu::CPU;
use crate::machine::Machine;

verus! {

/// The registers of the reference machine: V0..VF hold 0, 0, 1, 1, ..., 7, 7.
pub open spec fn reference_registers() -> Seq<u8> {
    Seq::new(16, |k: int| (k / 2) as u8)
}

/// A fresh machine with its program counter at 0xF00 and the reference
/// register values.
pub fn build_cpu() -> (cpu: CPU)
    ensures
        cpu@ == (Machine { pc: 0xF00, v: reference_registers(), ..Machine::initial() }),
{
    let mut cpu = CPU::new();
    cpu.set_pc(0xF00);
    cpu.set_registers([0, 0, 1, 1, 2, 2, 3, 3, 4, 4, 5, 5, 6, 6, 7, 7]);
    proof {
        assert(cpu@.v =~= reference_registers());
    }
    cpu
}

/// The reference machine with V0 = `v1`, V1 = `v2` and VF cleared.
pub open spec fn math_machine(v1: u8, v2: u8) -> Machine {
    Machine { pc: 0xF00, v: reference_registers().update(0, v1).update(1, v2).update(15, 0), ..Machine::initial() }
}

/// Whether the register instruction 0x8010 + `op` (VX = V0, VY = V1, low
/// nibble `op`) run on the reference machine with V0 = `v1`, V1 = `v2` and VF
/// cleared leaves `result` in V0 and `vf` in VF and moves on to the next
/// instruction.
pub fn check_math(v1: u8, v2: u8, op: u16, result: u8, vf: u8) -> (ok: bool)
    requires
        0x8010 + op <= 0xFFFF,
    ensures
        ok == ({
            let after = math_machine(v1, v2).execute((0x8010 + op) as u16, 0);
            after.v[0] == result && after.v[15] == vf && after.pc == 0xF02
        }),
{
    let mut cpu = build_cpu();
    cpu.set_register(0, v1);
    cpu.set_register(1, v2);
    cpu.set_register(0x0f, 0);
    proof {
        assert(cpu@ == math_machine(v1, v2));
        assert(cpu@.fault((0x8010 + op) as u16) is None);
    }
    let _ = cpu.execute(0x8010 + op, 0);
    cpu.register(0) == result && cpu.register(0x0f) == vf && cpu.pc() == 0xF02
}

} // verus!
