//! The CPU state: integer register file, floating-point register file held
//! as raw 32-bit patterns, byte-addressable memory with little-endian word
//! helpers, program counter, and the GPIO peripheral bank.

use vstd::prelude::*;

verus! {

pub const NUM_REGISTERS: usize = 32;

pub const MEM_SIZE_BYTES: usize = 4096;

pub const NUM_GPIOS: usize = 31;

/// One GPIO pin's configuration record: its pull-up flag and an 8-bit value.
#[derive(Structural, PartialEq, Eq, Clone, Copy, Debug)]
pub struct GPIOState {
    pub pull_up: bool,
    pub value: u8,
}

impl GPIOState {
    /// The default (reset) configuration.
    pub fn new() -> (r: GPIOState)
        ensures
            r == (GPIOState { pull_up: false, value: 0u8 }),
    {
        GPIOState { pull_up: false, value: 0 }
    }
}

/// The mathematical shape of the CPU: register file, floating-point bit
/// patterns, memory bytes, program counter and GPIO bank.
pub struct Cpu {
    pub regs: Seq<u32>,
    pub fregs: Seq<u32>,
    pub mem: Seq<u8>,
    pub pc: u32,
    pub gpios: Seq<GPIOState>,
}

impl Cpu {
    /// Well-formedness: the fixed sizes, and register zero reading as zero.
    pub open spec fn wf(self) -> bool {
        &&& self.regs.len() == NUM_REGISTERS
        &&& self.fregs.len() == NUM_REGISTERS
        &&& self.mem.len() == MEM_SIZE_BYTES
        &&& self.gpios.len() == NUM_GPIOS
        &&& self.regs[0] == 0
    }
}

/// The 32-bit word stored little-endian at byte address `a`.
pub open spec fn spec_read_word(m: Seq<u8>, a: int) -> u32 {
    (m[a] as u32) | (m[a + 1] as u32) << 8 | (m[a + 2] as u32) << 16 | (m[a + 3] as u32) << 24
}

/// The memory after storing `v` little-endian at byte address `a`.
pub open spec fn spec_write_word(m: Seq<u8>, a: int, v: u32) -> Seq<u8> {
    m.update(a, (v & 0xFF) as u8).update(a + 1, ((v >> 8) & 0xFF) as u8).update(
        a + 2,
        ((v >> 16) & 0xFF) as u8,
    ).update(a + 3, ((v >> 24) & 0xFF) as u8)
}

/// The simulated machine state. The floating-point register file holds raw
/// IEEE-754 bit patterns; arithmetic on them is the driver's concern.
#[derive(PartialEq, Eq, Debug)]
pub struct CPUState {
    pub registers: Vec<u32>,
    pub floating_point_registers: Vec<u32>,
    pub memory_bytes: Vec<u8>,
    pub pc: u32,
    pub gpio_states: Vec<GPIOState>,
}

impl View for CPUState {
    type V = Cpu;

    open spec fn view(&self) -> Cpu {
        Cpu {
            regs: self.registers@,
            fregs: self.floating_point_registers@,
            mem: self.memory_bytes@,
            pc: self.pc,
            gpios: self.gpio_states@,
        }
    }
}

fn filled_u32(n: usize, val: u32) -> (r: Vec<u32>)
    ensures
        r@.len() == n,
        forall|i: int| 0 <= i < n ==> r@[i] == val,
{
    let mut v: Vec<u32> = Vec::new();
    let mut i: usize = 0;
    while i < n
        invariant
            0 <= i <= n,
            v@.len() == i,
            forall|j: int| 0 <= j < i ==> v@[j] == val,
        decreases n - i,
    {
        v.push(val);
        i += 1;
    }
    v
}

fn filled_u8(n: usize, val: u8) -> (r: Vec<u8>)
    ensures
        r@.len() == n,
        forall|i: int| 0 <= i < n ==> r@[i] == val,
{
    let mut v: Vec<u8> = Vec::new();
    let mut i: usize = 0;
    while i < n
        invariant
            0 <= i <= n,
            v@.len() == i,
            forall|j: int| 0 <= j < i ==> v@[j] == val,
        decreases n - i,
    {
        v.push(val);
        i += 1;
    }
    v
}

fn filled_gpio(n: usize) -> (r: Vec<GPIOState>)
    ensures
        r@.len() == n,
        forall|i: int| 0 <= i < n ==> r@[i] == (GPIOState { pull_up: false, value: 0u8 }),
{
    let mut v: Vec<GPIOState> = Vec::new();
    let mut i: usize = 0;
    while i < n
        invariant
            0 <= i <= n,
            v@.len() == i,
            forall|j: int| 0 <= j < i ==> v@[j] == (GPIOState { pull_up: false, value: 0u8 }),
        decreases n - i,
    {
        v.push(GPIOState::new());
        i += 1;
    }
    v
}

impl CPUState {
    /// A machine with zeroed registers and memory, the program counter at
    /// zero, and every GPIO slot in its default configuration.
    pub fn new() -> (r: Self)
        ensures
            r@.wf(),
            r@.pc == 0,
            forall|i: int| 0 <= i < NUM_REGISTERS ==> r@.regs[i] == 0,
            forall|i: int| 0 <= i < NUM_REGISTERS ==> r@.fregs[i] == 0,
            forall|i: int| 0 <= i < MEM_SIZE_BYTES ==> r@.mem[i] == 0,
            forall|i: int|
                0 <= i < NUM_GPIOS ==> r@.gpios[i] == (GPIOState { pull_up: false, value: 0u8 }),
    {
        CPUState {
            registers: filled_u32(NUM_REGISTERS, 0),
            floating_point_registers: filled_u32(NUM_REGISTERS, 0),
            memory_bytes: filled_u8(MEM_SIZE_BYTES, 0),
            pc: 0,
            gpio_states: filled_gpio(NUM_GPIOS),
        }
    }

    /// Stores a 32-bit word into memory in little-endian byte order.
    pub fn set_mem(&mut self, address: usize, value: u32)
        requires
            old(self)@.wf(),
            address + 3 < MEM_SIZE_BYTES,
        ensures
            final(self)@.mem == spec_write_word(old(self)@.mem, address as int, value),
            final(self)@.regs == old(self)@.regs,
            final(self)@.fregs == old(self)@.fregs,
            final(self)@.pc == old(self)@.pc,
            final(self)@.gpios == old(self)@.gpios,
    {
        let b0: u8 = (value & 0xFF) as u8;
        let b1: u8 = ((value >> 8) & 0xFF) as u8;
        let b2: u8 = ((value >> 16) & 0xFF) as u8;
        let b3: u8 = ((value >> 24) & 0xFF) as u8;
        self.memory_bytes[address] = b0;
        self.memory_bytes[address + 1] = b1;
        self.memory_bytes[address + 2] = b2;
        self.memory_bytes[address + 3] = b3;
    }

    /// Reads the 32-bit word stored little-endian at a byte address.
    pub fn read_mem(&mut self, address: usize) -> (r: u32)
        requires
            old(self)@.wf(),
            address + 3 < MEM_SIZE_BYTES,
        ensures
            r == spec_read_word(old(self)@.mem, address as int),
            *final(self) == *old(self),
    {
        let mut value: u32 = self.memory_bytes[address] as u32;
        value = value | (self.memory_bytes[address + 1] as u32) << 8;
        value = value | (self.memory_bytes[address + 2] as u32) << 16;
        value = value | (self.memory_bytes[address + 3] as u32) << 24;
        value
    }
}

} // verus!
