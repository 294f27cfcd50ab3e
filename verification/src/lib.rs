//! Stack-unwind metadata generation and executable-code memory management
//! for an x86-64 just-in-time compiler.

pub mod code_memory;
pub mod debug;
pub mod handle;
pub mod ir;
pub mod reg;
pub mod registry;
pub mod scanner;
pub mod systemv;
pub mod unwind;
pub mod values;
pub mod winx64;

use vstd::prelude::*;

verus! {

/// Copies a vector of plain values element by element.
pub fn copy_elements<T: Copy>(v: &Vec<T>) -> (r: Vec<T>)
    ensures
        r@ == v@,
{
    let mut r: Vec<T> = Vec::new();
    let mut i: usize = 0;
    while i < v.len()
        invariant
            0 <= i <= v@.len(),
            r@ == v@.take(i as int),
        decreases v@.len() - i,
    {
        r.push(v[i]);
        proof {
            assert(v@.take(i + 1) =~= v@.take(i as int).push(v@[i as int]));
        }
        i = i + 1;
    }
    proof {
        assert(v@.take(v@.len() as int) =~= v@);
    }
    r
}

} // verus!
