//! ABI register names and the fixed indices they map to in the register
//! file, per calling convention.

use vstd::prelude::*;

verus! {

/// The ABI register aliases, each holding its register-file index.
pub struct Registers {
    pub t0: usize,
    pub t1: usize,
    pub t2: usize,
    pub fp_s0: usize,
    pub s1: usize,
    pub a0: usize,
    pub a1: usize,
    pub a2: usize,
    pub a3: usize,
    pub a4: usize,
    pub a5: usize,
    pub a6: usize,
    pub a7: usize,
    pub s2: usize,
    pub s3: usize,
    pub s4: usize,
    pub s5: usize,
    pub s6: usize,
    pub s7: usize,
    pub s8: usize,
    pub s9: usize,
    pub s10: usize,
    pub s11: usize,
}

impl Registers {
    /// The conventional bindings. `s9` carries the binding it has always
    /// had here, index 35, which lies outside the 32-entry register file;
    /// encoders mask register indices to five bits.
    pub fn new() -> (r: Registers)
        ensures
            r.t0 == 5,
            r.t1 == 6,
            r.t2 == 7,
            r.fp_s0 == 8,
            r.s1 == 9,
            r.a0 == 10,
            r.a1 == 11,
            r.a2 == 12,
            r.a3 == 13,
            r.a4 == 14,
            r.a5 == 15,
            r.a6 == 16,
            r.a7 == 17,
            r.s2 == 18,
            r.s3 == 19,
            r.s4 == 20,
            r.s5 == 21,
            r.s6 == 22,
            r.s7 == 23,
            r.s8 == 24,
            r.s9 == 35,
            r.s10 == 26,
            r.s11 == 27,
    {
        Registers {
            t0: 5,
            t1: 6,
            t2: 7,
            fp_s0: 8,
            s1: 9,
            a0: 10,
            a1: 11,
            a2: 12,
            a3: 13,
            a4: 14,
            a5: 15,
            a6: 16,
            a7: 17,
            s2: 18,
            s3: 19,
            s4: 20,
            s5: 21,
            s6: 22,
            s7: 23,
            s8: 24,
            s9: 35,
            s10: 26,
            s11: 27,
        }
    }
}

} // verus!
