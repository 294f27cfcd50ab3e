//! Registry of unwind metadata for one code arena: associates byte
//! ranges, relative to the arena's base address, with the unwind
//! information a stack walker needs there. Registrations are collected
//! while the arena is writable and finalized in one batch when the
//! arena is published; the platform's own table building and lookup sit
//! outside this core, at the trap handler's side.

use vstd::prelude::*;
use crate::unwind::UnwindInfo;

verus! {

/// A failure while registering or publishing unwind information.
#[derive(Clone, Copy, Debug, PartialEq, Eq, Structural)]
pub enum RegistryError {
    /// The registry was already published; it accepts nothing more.
    AlreadyPublished,
}

/// One registration: `len` bytes of code starting `offset` bytes past
/// the arena base, unwound by `info`.
#[derive(Clone, Debug, PartialEq, Eq)]
pub struct RegistryEntry {
    /// Start of the range, relative to the arena base.
    pub offset: u32,
    /// Length of the range in bytes.
    pub len: u32,
    /// The unwind information covering the range.
    pub info: UnwindInfo,
}

/// The unwind registry of one arena.
#[derive(Debug)]
pub struct UnwindRegistry {
    /// Base address the registered offsets are relative to.
    pub base_address: usize,
    /// The registrations, in registration order.
    pub entries: Vec<RegistryEntry>,
    /// Whether the registry was finalized.
    pub published: bool,
}

impl UnwindRegistry {
    /// An empty, unpublished registry anchored at `base_address`.
    pub fn new(base_address: usize) -> (r: UnwindRegistry)
        ensures
            r.base_address == base_address,
            r.entries@ == Seq::<RegistryEntry>::empty(),
            !r.published,
    {
        UnwindRegistry { base_address, entries: Vec::new(), published: false }
    }

    /// Associates `(offset, len)` with `info`. Registration is accepted
    /// exactly as long as the registry is not yet published.
    pub fn register(&mut self, offset: u32, len: u32, info: UnwindInfo) -> (r: Result<
        (),
        RegistryError,
    >)
        ensures
            old(self).published ==> r == Err::<(), RegistryError>(RegistryError::AlreadyPublished)
                && *final(self) == *old(self),
            !old(self).published ==> r == Ok::<(), RegistryError>(()) && final(self).entries@ == old(
                self,
            ).entries@.push(RegistryEntry { offset, len, info }) && final(self).base_address == old(
                self,
            ).base_address && !final(self).published,
    {
        if self.published {
            return Err(RegistryError::AlreadyPublished);
        }
        self.entries.push(RegistryEntry { offset, len, info });
        Ok(())
    }

    /// Finalizes the registrations of this arena. Publication succeeds
    /// exactly once; every registration stays as it was.
    pub fn publish(&mut self) -> (r: Result<(), RegistryError>)
        ensures
            old(self).published ==> r == Err::<(), RegistryError>(RegistryError::AlreadyPublished)
                && *final(self) == *old(self),
            !old(self).published ==> r == Ok::<(), RegistryError>(()) && final(self).published
                && final(self).entries == old(self).entries && final(self).base_address == old(
                self,
            ).base_address,
    {
        if self.published {
            return Err(RegistryError::AlreadyPublished);
        }
        self.published = true;
        Ok(())
    }

    /// Looks up the registration covering the absolute instruction
    /// address `pc`, for a published registry: the first registered
    /// range containing it, if any.
    pub fn lookup(&self, pc: usize) -> (r: Option<usize>)
        requires
            self.published,
        ensures
            match r {
                Some(i) => {
                    &&& 0 <= i < self.entries@.len()
                    &&& covers(self.entries@[i as int], self.base_address, pc)
                    &&& forall|j: int| 0 <= j < i ==> !covers(self.entries@[j], self.base_address, pc)
                }
                None => forall|j: int|
                    0 <= j < self.entries@.len() ==> !covers(
                        self.entries@[j],
                        self.base_address,
                        pc,
                    ),
            },
    {
        let mut i: usize = 0;
        while i < self.entries.len()
            invariant
                0 <= i <= self.entries@.len(),
                forall|j: int| 0 <= j < i ==> !covers(self.entries@[j], self.base_address, pc),
            decreases self.entries@.len() - i,
        {
            let e = &self.entries[i];
            let start = self.base_address.checked_add(e.offset as usize);
            match start {
                Some(s) => {
                    if pc >= s && pc - s < e.len as usize {
                        return Some(i);
                    }
                }
                None => {}
            }
            i = i + 1;
        }
        None
    }
}

/// Whether a registration covers the absolute address `pc`.
pub open spec fn covers(e: RegistryEntry, base_address: usize, pc: usize) -> bool {
    &&& base_address + e.offset <= usize::MAX
    &&& base_address + e.offset <= pc < base_address + e.offset + e.len
}

} // verus!
