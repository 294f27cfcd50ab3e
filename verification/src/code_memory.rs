//! Memory management for executable code: growable arenas that start
//! writable, receive compiled function bodies, their relocations and
//! their unwind metadata, and are then published — unwind registrations
//! finalized and the pages turned execute-only, never writable again.
//!
//! An arena owns its byte buffer and its unwind registry by value, so
//! the registry can never outlive the memory it describes. The
//! manager assigns each arena a base address and tracks its protection
//! state; applying that state to hardware pages is the embedding's
//! concern.

use vstd::prelude::*;
use crate::registry::{RegistryEntry, UnwindRegistry};
use crate::unwind::UnwindInfo;

verus! {

/// A failure while allocating code memory.
#[derive(Clone, Copy, Debug, PartialEq, Eq, Structural)]
pub enum CodeMemoryError {
    /// No address space is left for a new arena.
    AddressSpaceExhausted,
    /// An object image could not be read.
    ObjectParse,
    /// An object image held a relocation this runtime cannot apply.
    UnsupportedRelocation,
    /// An object image named a symbol this runtime does not know.
    UnknownSymbol,
}

/// A runtime library call a relocation may target.
#[derive(Clone, Copy, Debug, PartialEq, Eq, Structural)]
pub enum LibCall {
    UdivI64,
    SdivI64,
    UremI64,
    SremI64,
    IshlI64,
    UshrI64,
    SshrI64,
    CeilF32,
    FloorF32,
    TruncF32,
    NearestF32,
    CeilF64,
    FloorF64,
    TruncF64,
    NearestF64,
}

/// The relocation kinds that can appear in JIT code.
#[derive(Clone, Copy, Debug, PartialEq, Eq, Structural)]
pub enum RelocKind {
    /// Absolute 4-byte.
    Abs4,
    /// Absolute 8-byte.
    Abs8,
    /// PC-relative 4-byte.
    X86PCRel4,
    /// PC-relative 4-byte call.
    X86CallPCRel4,
    /// PLT-relative 4-byte call.
    X86CallPLTRel4,
    /// GOT-relative 4-byte.
    X86GOTPCRel4,
    /// ELF x86-64 TLS general dynamic.
    ElfX86_64TlsGd,
}

/// What a relocation refers to.
#[derive(Clone, Copy, Debug, PartialEq, Eq, Structural)]
pub enum RelocationTarget {
    /// A function of the module, by index.
    UserFunc(u32),
    /// A runtime library call.
    LibCall(LibCall),
}

/// One pending patch site in compiled code.
#[derive(Clone, Copy, Debug, PartialEq, Eq, Structural)]
pub struct RelocationEntry {
    /// The relocation kind.
    pub reloc: RelocKind,
    /// What the patch refers to.
    pub reloc_target: RelocationTarget,
    /// Offset of the patch site from the function start.
    pub offset: u32,
    /// Addend to the symbol's address.
    pub addend: i64,
}

/// One compiled function: its machine code and, when the target needs
/// it, its unwind information.
#[derive(Debug)]
pub struct CompiledFunction {
    /// The function's machine code.
    pub body: Vec<u8>,
    /// Unwind information, when the function has any.
    pub unwind_info: Option<UnwindInfo>,
}

impl CompiledFunction {
    /// A well-formed compiled function: a body that leaves room for
    /// bookkeeping arithmetic, and well-formed Windows unwind
    /// information when it carries any.
    pub open spec fn wf(self) -> bool {
        &&& 0 < self.body@.len() < 0xFFFE_0000
        &&& match self.unwind_info {
            Some(UnwindInfo::WindowsX64(w)) => w.wf(),
            _ => true,
        }
    }
}

/// Rounds up to the next multiple of four.
pub open spec fn align4(x: int) -> int {
    ((x + 3) / 4) * 4
}

/// The allocation size of one compiled function: its body and, for
/// Windows, its trailing unwind block at the next four-byte boundary.
pub open spec fn spec_function_allocation_size(f: CompiledFunction) -> int {
    match f.unwind_info {
        Some(UnwindInfo::WindowsX64(w)) => align4(f.body@.len() as int) + w.emit_size_spec(),
        _ => f.body@.len() as int,
    }
}

/// A capacity rounded up to whole pages, as a new mapping gets it.
pub open spec fn page_round(cap: int) -> int {
    ((cap + 0xFFF) / 0x1000) * 0x1000
}

/// The capacity a fresh arena gets for a request of `size` bytes: at
/// least 64 KiB.
pub open spec fn grown_capacity(size: int) -> int {
    if size > 0x10000 {
        size
    } else {
        0x10000
    }
}

/// Whether an allocation of `needed` bytes must open a fresh arena:
/// there is no current arena, or it lacks room.
pub open spec fn needs_new_arena(cm: CodeMemory, needed: int) -> bool {
    match cm.current {
        Some(e) => e.mmap.bytes@.len() - e.len < needed,
        None => true,
    }
}

/// Protection state of an arena's pages.
#[derive(Clone, Copy, Debug, PartialEq, Eq, Structural)]
pub enum Protection {
    /// Readable and writable: the arena is still being filled.
    ReadWrite,
    /// Readable and executable: the arena is published.
    ReadExecute,
}

/// One memory mapping: an owned, fixed-size byte buffer together with
/// its protection state.
#[derive(Debug)]
pub struct Mmap {
    /// The mapping's bytes; the length is the mapped capacity.
    pub bytes: Vec<u8>,
    /// The current page protection.
    pub protection: Protection,
}

/// One code arena: a mapping, the base address it stands at, the unwind
/// registry anchored there, the pending relocations of its functions,
/// and the cursor up to which it is filled.
#[derive(Debug)]
pub struct CodeMemoryEntry {
    /// The arena's mapping.
    pub mmap: Mmap,
    /// The arena's base address.
    pub base: usize,
    /// Unwind registrations for this arena.
    pub registry: UnwindRegistry,
    /// Pending relocations: for each allocation, its start offset and
    /// its patch sites.
    pub relocs: Vec<(u32, Vec<RelocationEntry>)>,
    /// The writable frontier: bytes below it are filled.
    pub len: usize,
}

impl CodeMemoryEntry {
    /// A well-formed arena: the frontier inside the four-byte-aligned
    /// capacity, the registry anchored at the base, the whole range
    /// addressable, and everything beyond the frontier still zero.
    pub open spec fn wf(self) -> bool {
        &&& self.len <= self.mmap.bytes@.len()
        &&& self.len % 4 == 0
        &&& self.mmap.bytes@.len() % 0x1000 == 0
        &&& self.mmap.bytes@.len() % 4 == 0
        &&& self.mmap.bytes@.len() <= 0xFFFF_F000
        &&& self.registry.base_address == self.base
        &&& self.base + self.mmap.bytes@.len() <= usize::MAX
        &&& forall|k: int| self.len <= k < self.mmap.bytes@.len() ==> self.mmap.bytes@[k] == 0
        &&& forall|i: int| 0 <= i < self.relocs@.len() ==> (#[trigger] self.relocs@[i]).0 <= self.len
    }

    /// Builds a writable arena of at least `cap` bytes at `base`, its
    /// capacity rounded up to whole pages, zero-filled, with a fresh
    /// registry. Fails exactly when the rounded capacity does not fit
    /// the address space above `base`.
    pub fn with_capacity(cap: usize, base: usize) -> (r: Result<CodeMemoryEntry, CodeMemoryError>)
        requires
            cap <= 0xFFFF_0000,
        ensures
            r is Ok <==> base + page_round(cap as int) <= usize::MAX,
            match r {
                Ok(e) => {
                    &&& e.wf()
                    &&& e.base == base
                    &&& e.len == 0
                    &&& cap <= e.mmap.bytes@.len()
                    &&& e.mmap.bytes@.len() <= cap + 0xFFF
                    &&& e.mmap.protection == Protection::ReadWrite
                    &&& e.registry.entries@ == Seq::<RegistryEntry>::empty()
                    &&& !e.registry.published
                    &&& e.relocs@ == Seq::<(u32, Vec<RelocationEntry>)>::empty()
                }
                Err(e) => e == CodeMemoryError::AddressSpaceExhausted,
            },
    {
        let rounded: usize = ((cap + 0xFFF) / 0x1000) * 0x1000;
        proof {
            let q = (cap + 0xFFF) as int / 0x1000;
            vstd::arithmetic::div_mod::lemma_fundamental_div_mod_converse(
                rounded as int,
                0x1000,
                q,
                0,
            );
            vstd::arithmetic::div_mod::lemma_fundamental_div_mod_converse(
                rounded as int,
                4,
                0x400 * q,
                0,
            );
        }
        if usize::MAX - rounded < base {
            return Err(CodeMemoryError::AddressSpaceExhausted);
        }
        let mut bytes: Vec<u8> = Vec::new();
        let mut i: usize = 0;
        while i < rounded
            invariant
                0 <= i <= rounded,
                bytes@.len() == i,
                forall|k: int| 0 <= k < i ==> bytes@[k] == 0,
            decreases rounded - i,
        {
            bytes.push(0);
            i = i + 1;
        }
        Ok(
            CodeMemoryEntry {
                mmap: Mmap { bytes, protection: Protection::ReadWrite },
                base,
                registry: UnwindRegistry::new(base),
                relocs: Vec::new(),
                len: 0,
            },
        )
    }

    /// The arena's occupied address range.
    pub fn range(&self) -> (r: (usize, usize))
        requires
            self.wf(),
        ensures
            r.0 == self.base,
            r.1 == self.base + self.len,
    {
        (self.base, self.base + self.len)
    }
}

/// Whether `b` is `a` after publication: same contents, same
/// registrations, pages execute-only, relocation bytes discarded.
pub open spec fn published_from(b: CodeMemoryEntry, a: CodeMemoryEntry) -> bool {
    &&& b.mmap.bytes@ == a.mmap.bytes@
    &&& b.mmap.protection == Protection::ReadExecute
    &&& b.base == a.base
    &&& b.len == a.len
    &&& b.registry.base_address == a.registry.base_address
    &&& b.registry.entries@ == a.registry.entries@
    &&& b.registry.published
    &&& b.relocs@.len() == 0
}

/// Memory manager for executable code: a list of arenas, of which those
/// before `published` are execute-only and final, plus at most one
/// still-writable current arena.
#[derive(Debug)]
pub struct CodeMemory {
    /// The arena still being filled, if any.
    pub current: Option<CodeMemoryEntry>,
    /// All finalized arenas; those before `published` are executable.
    pub entries: Vec<CodeMemoryEntry>,
    /// Arenas before this index are published.
    pub published: usize,
    /// The next base address to hand to a new arena.
    pub next_base: usize,
}

impl CodeMemory {
    /// The manager's invariant: `published` never exceeds the arena
    /// count, published arenas are execute-only with finalized
    /// registries and no pending relocations, unpublished arenas are
    /// writable, and arenas occupy disjoint, increasing address ranges
    /// below the next base.
    pub open spec fn wf(self) -> bool {
        &&& self.published <= self.entries@.len()
        &&& forall|i: int| 0 <= i < self.entries@.len() ==> (#[trigger] self.entries@[i]).wf()
        &&& forall|i: int|
            0 <= i < self.published ==> published_ready(#[trigger] self.entries@[i])
        &&& forall|i: int|
            self.published <= i < self.entries@.len() ==> writable_entry(
                #[trigger] self.entries@[i],
            )
        &&& forall|i: int, j: int|
            0 <= i < j < self.entries@.len() ==> (#[trigger] self.entries@[i]).base
                + self.entries@[i].mmap.bytes@.len() <= (#[trigger] self.entries@[j]).base
        &&& forall|i: int|
            0 <= i < self.entries@.len() ==> (#[trigger] self.entries@[i]).base
                + self.entries@[i].mmap.bytes@.len() <= self.frontier_base()
        &&& match self.current {
            Some(c) => {
                &&& c.wf()
                &&& writable_entry(c)
                &&& c.base + c.mmap.bytes@.len() <= self.next_base
            }
            None => true,
        }
    }

    /// The base address below which every arena lies.
    pub open spec fn frontier_base(self) -> int {
        match self.current {
            Some(c) => c.base as int,
            None => self.next_base as int,
        }
    }

    /// A fresh manager: no arenas, nothing published.
    pub fn new() -> (r: CodeMemory)
        ensures
            r.wf(),
            r.current is None,
            r.entries@.len() == 0,
            r.published == 0,
    {
        CodeMemory { current: None, entries: Vec::new(), published: 0, next_base: 0x10000 }
    }

    /// Retires the current arena to the finalized list and, unless
    /// `new_size` is zero, starts a fresh writable arena of at least
    /// `max(64 KiB, new_size)` bytes at the next free base address.
    #[verifier::rlimit(80)]
    fn push_current(&mut self, new_size: usize) -> (r: Result<(), CodeMemoryError>)
        requires
            old(self).wf(),
            new_size <= 0xFFFF_0000,
        ensures
            final(self).wf(),
            final(self).published == old(self).published,
            new_size == 0 ==> r is Ok,
            new_size > 0 ==> (r is Ok <==> old(self).next_base + page_round(
                grown_capacity(new_size as int),
            ) <= usize::MAX),
            r is Ok ==> {
                &&& final(self).entries@ == (match old(self).current {
                    Some(c) => old(self).entries@.push(c),
                    None => old(self).entries@,
                })
                &&& (new_size == 0 ==> final(self).current is None)
                &&& (new_size > 0 ==> match final(self).current {
                    Some(c) => {
                        &&& c.len == 0
                        &&& c.mmap.protection == Protection::ReadWrite
                        &&& c.registry.entries@ == Seq::<RegistryEntry>::empty()
                        &&& !c.registry.published
                        &&& c.relocs@.len() == 0
                        &&& (if new_size > 0x10000 {
                            new_size as int
                        } else {
                            0x10000
                        }) <= c.mmap.bytes@.len()
                    }
                    None => false,
                })
            },
            r is Err ==> r == Err::<(), CodeMemoryError>(CodeMemoryError::AddressSpaceExhausted)
                && final(self).entries@ == (match old(self).current {
                Some(c) => old(self).entries@.push(c),
                None => old(self).entries@,
            }) && final(self).current is None,
    {
        let mut previous: Option<CodeMemoryEntry> = None;
        core::mem::swap(&mut previous, &mut self.current);
        match previous {
            Some(e) => {
                proof {
                    assert(e.base + e.mmap.bytes@.len() <= self.next_base);
                }
                self.entries.push(e);
            }
            None => {}
        }
        if new_size == 0 {
            return Ok(());
        }
        let cap = if new_size < 0x10000 {
            0x10000
        } else {
            new_size
        };
        match CodeMemoryEntry::with_capacity(cap, self.next_base) {
            Ok(e) => {
                let end = e.base + e.mmap.bytes.len();
                self.next_base = end;
                self.current = Some(e);
                Ok(())
            }
            Err(err) => Err(err),
        }
    }

    /// Returns all published arenas' address ranges.
    pub fn published_ranges(&self) -> (r: Vec<(usize, usize)>)
        requires
            self.wf(),
        ensures
            r@.len() == self.published,
            forall|i: int|
                0 <= i < self.published ==> #[trigger] r@[i] == (
                    self.entries@[i].base,
                    (self.entries@[i].base + self.entries@[i].len) as usize,
                ),
    {
        let mut r: Vec<(usize, usize)> = Vec::new();
        let mut i: usize = 0;
        while i < self.published
            invariant
                self.published <= self.entries@.len(),
                forall|k: int| 0 <= k < self.entries@.len() ==> (#[trigger] self.entries@[k]).wf(),
                0 <= i <= self.published,
                r@.len() == i,
                forall|k: int|
                    0 <= k < i ==> #[trigger] r@[k] == (
                        self.entries@[k].base,
                        (self.entries@[k].base + self.entries@[k].len) as usize,
                    ),
            decreases self.published - i,
        {
            let e = &self.entries[i];
            r.push(e.range());
            i = i + 1;
        }
        r
    }

    /// Publishes every arena that is not yet published: the current
    /// arena is retired, each remaining writable arena has its unwind
    /// registry finalized, its pages made execute-only and its pending
    /// relocation records discarded, and the published boundary moves to
    /// the end. Already-published arenas are untouched.
    #[verifier::rlimit(100)]
    #[verifier::spinoff_prover]
    pub fn publish(&mut self)
        requires
            old(self).wf(),
        ensures
            final(self).wf(),
            final(self).current is None,
            final(self).published == final(self).entries@.len(),
            final(self).entries@.len() == old(self).entries@.len() + (match old(self).current {
                Some(_) => 1int,
                None => 0int,
            }),
            forall|i: int|
                0 <= i < old(self).published ==> final(self).entries@[i] == old(self).entries@[i],
            forall|i: int|
                old(self).published <= i < old(self).entries@.len() ==> published_from(
                    #[trigger] final(self).entries@[i],
                    old(self).entries@[i],
                ),
            match old(self).current {
                Some(c) => published_from(
                    final(self).entries@[old(self).entries@.len() as int],
                    c,
                ),
                None => true,
            },
    {
        let ghost pre = *old(self);
        let rr = self.push_current(0);
        proof {
            assert(rr is Ok);
        }
        let ghost mid = *self;
        publish_suffix(&mut self.entries, self.published);
        self.published = self.entries.len();
        proof {
            let n = self.entries@.len() as int;
            assert forall|k: int| 0 <= k < n implies (#[trigger] self.entries@[k]).wf() by {
                if k < mid.published {
                    assert(self.entries@[k] == mid.entries@[k]);
                } else {
                    assert(published_from(self.entries@[k], mid.entries@[k]));
                }
            }
            assert forall|k: int| 0 <= k < self.published implies published_ready(
                #[trigger] self.entries@[k],
            ) by {
                if k < mid.published {
                    assert(self.entries@[k] == mid.entries@[k]);
                    assert(published_ready(mid.entries@[k]));
                } else {
                    assert(published_from(self.entries@[k], mid.entries@[k]));
                }
            }
            assert forall|k: int| 0 <= k < n implies (#[trigger] self.entries@[k]).base
                == mid.entries@[k].base && self.entries@[k].mmap.bytes@.len()
                == mid.entries@[k].mmap.bytes@.len() by {
                if k < mid.published {
                    assert(self.entries@[k] == mid.entries@[k]);
                } else {
                    assert(published_from(self.entries@[k], mid.entries@[k]));
                }
            }
            assert forall|k: int, j: int| 0 <= k < j < n implies (#[trigger] self.entries@[k]).base
                + self.entries@[k].mmap.bytes@.len() <= (#[trigger] self.entries@[j]).base by {
                assert(mid.entries@[k].base + mid.entries@[k].mmap.bytes@.len()
                    <= mid.entries@[j].base);
            }
            assert forall|k: int| 0 <= k < n implies (#[trigger] self.entries@[k]).base
                + self.entries@[k].mmap.bytes@.len() <= self.frontier_base() by {
                assert(mid.entries@[k].base + mid.entries@[k].mmap.bytes@.len()
                    <= mid.frontier_base());
            }
            assert(self.wf());
        }
    }
}

/// Publishes every arena at or past `from`: each has its registry
/// finalized, its pages flipped to execute-only, and its pending
/// relocation records discarded; arenas before `from` are untouched.
#[verifier::rlimit(100)]
fn publish_suffix(entries: &mut Vec<CodeMemoryEntry>, from: usize)
    requires
        from <= old(entries)@.len(),
        forall|k: int|
            from <= k < old(entries)@.len() ==> (#[trigger] old(entries)@[k]).wf()
                && writable_entry(old(entries)@[k]),
    ensures
        final(entries)@.len() == old(entries)@.len(),
        forall|k: int| 0 <= k < from ==> final(entries)@[k] == old(entries)@[k],
        forall|k: int|
            from <= k < old(entries)@.len() ==> published_from(
                #[trigger] final(entries)@[k],
                old(entries)@[k],
            ) && final(entries)@[k].wf() && published_ready(final(entries)@[k]),
{
    let ghost orig = entries@;
    let mut i: usize = from;
    if from > entries.len() {
        proof {
            assert(false);
        }
    }
    while i < entries.len()
        invariant
            from <= i <= entries@.len(),
            entries@.len() == orig.len(),
            forall|k: int|
                from <= k < orig.len() ==> (#[trigger] orig[k]).wf() && writable_entry(orig[k]),
            forall|k: int| 0 <= k < from ==> #[trigger] entries@[k] == orig[k],
            forall|k: int|
                from <= k < i ==> published_from(#[trigger] entries@[k], orig[k])
                    && entries@[k].wf() && published_ready(entries@[k]),
            forall|k: int| i <= k < orig.len() ==> #[trigger] entries@[k] == orig[k],
        decreases entries@.len() - i,
    {
        let ghost before = entries@;
        let mut e = entries.remove(i);
        publish_entry(&mut e);
        entries.insert(i, e);
        proof {
            assert forall|k: int| 0 <= k < entries@.len() && k != i implies #[trigger] entries@[k]
                == before[k] by {
            }
        }
        i = i + 1;
    }
}

/// Publishes one arena: finalizes its registry, flips its pages to
/// execute-only, and discards its pending relocation records.
fn publish_entry(e: &mut CodeMemoryEntry)
    requires
        old(e).wf(),
        writable_entry(*old(e)),
    ensures
        final(e).wf(),
        published_from(*final(e), *old(e)),
        published_ready(*final(e)),
{
    let pr = e.registry.publish();
    proof {
        assert(pr is Ok);
    }
    e.mmap.protection = Protection::ReadExecute;
    e.relocs.clear();
}

/// A published arena: execute-only, finalized registry, no pending
/// relocations.
pub open spec fn published_ready(e: CodeMemoryEntry) -> bool {
    &&& e.mmap.protection == Protection::ReadExecute
    &&& e.registry.published
    &&& e.relocs@.len() == 0
}

/// A still-writable arena: writable pages and an open registry.
pub open spec fn writable_entry(e: CodeMemoryEntry) -> bool {
    &&& e.mmap.protection == Protection::ReadWrite
    &&& !e.registry.published
}

/// Facts about rounding up to a multiple of four.
pub proof fn lemma_align4(x: int)
    requires
        x >= 0,
    ensures
        x <= align4(x) < x + 4,
        align4(x) % 4 == 0,
        x % 4 == 0 ==> align4(x) == x,
{
    vstd::arithmetic::div_mod::lemma_fundamental_div_mod(x + 3, 4);
    vstd::arithmetic::div_mod::lemma_mod_bound(x + 3, 4);
    vstd::arithmetic::div_mod::lemma_mod_bound(align4(x), 4);
    vstd::arithmetic::div_mod::lemma_fundamental_div_mod_converse(
        align4(x),
        4,
        (x + 3) / 4,
        0,
    );
    if x % 4 == 0 {
        vstd::arithmetic::div_mod::lemma_fundamental_div_mod(x, 4);
        vstd::arithmetic::div_mod::lemma_mod_bound(x, 4);
        vstd::arithmetic::div_mod::lemma_fundamental_div_mod_converse(
            x + 3,
            4,
            x / 4,
            3,
        );
    }
}

/// Rounding distributes over a four-aligned left summand.
pub proof fn lemma_align4_add(s: int, z: int)
    requires
        s >= 0,
        z >= 0,
        s % 4 == 0,
    ensures
        align4(s + z) == s + align4(z),
{
    vstd::arithmetic::div_mod::lemma_fundamental_div_mod(s, 4);
    vstd::arithmetic::div_mod::lemma_fundamental_div_mod(z + 3, 4);
    vstd::arithmetic::div_mod::lemma_mod_bound(z + 3, 4);
    vstd::arithmetic::div_mod::lemma_fundamental_div_mod_converse(
        s + z + 3,
        4,
        s / 4 + (z + 3) / 4,
        (z + 3) % 4,
    );
}

/// A four-aligned frontier advanced by a rounded size stays within a
/// four-aligned capacity.
pub proof fn lemma_align4_fits(start: int, size: int, cap: int)
    requires
        start >= 0,
        size >= 0,
        start % 4 == 0,
        cap % 4 == 0,
        start + size <= cap,
    ensures
        start + align4(size) <= cap,
{
    lemma_align4(size);
    lemma_align4_add(start, size);
    lemma_align4(start + size);
    let a = align4(start + size);
    vstd::arithmetic::div_mod::lemma_fundamental_div_mod(a, 4);
    vstd::arithmetic::div_mod::lemma_fundamental_div_mod(cap, 4);
    if a > cap {
        assert(a == 4 * (a / 4));
        assert(cap == 4 * (cap / 4));
        assert(a - cap == 4 * (a / 4 - cap / 4));
        assert(a - cap < 4);
        assert(a / 4 - cap / 4 >= 1);
        assert(false);
    }
}

/// The bytes of `new` hold the function `f` at offset `start`: its body
/// there, and for Windows its emitted unwind block at the next four-byte
/// boundary after the body; everything below `start` kept from `old`.
pub open spec fn function_placed(
    new: CodeMemoryEntry,
    old: CodeMemoryEntry,
    f: CompiledFunction,
    start: int,
) -> bool {
    let bl = f.body@.len() as int;
    &&& forall|k: int| 0 <= k < start ==> new.mmap.bytes@[k] == old.mmap.bytes@[k]
    &&& new.mmap.bytes@.subrange(start, start + bl) == f.body@
    &&& match f.unwind_info {
        Some(UnwindInfo::WindowsX64(w)) => new.mmap.bytes@.subrange(
            start + align4(bl),
            start + align4(bl) + w.emit_size_spec(),
        ) == w.emit_spec(),
        _ => true,
    }
}

/// Computes the allocation size of one compiled function: its body
/// alone, or with its Windows unwind block and alignment padding.
pub fn function_allocation_size(func: &CompiledFunction) -> (r: usize)
    requires
        func.wf(),
    ensures
        r == spec_function_allocation_size(*func),
        0 < r < 0xFFFF_0000,
{
    proof {
        lemma_align4(func.body@.len() as int);
        match &func.unwind_info {
            Some(UnwindInfo::WindowsX64(w)) => {
                crate::winx64::lemma_node_count_bounds(w.unwind_codes@);
            }
            _ => {}
        }
    }
    match &func.unwind_info {
        Some(UnwindInfo::WindowsX64(info)) => {
            let aligned = ((func.body.len() + 3) / 4) * 4;
            aligned + info.emit_size()
        }
        _ => func.body.len(),
    }
}

impl CodeMemoryEntry {
    /// Copies one compiled function to the arena's frontier: the body,
    /// then for Windows its emitted unwind block at the next four-byte
    /// boundary; registers the function's unwind information and its
    /// pending relocations; and advances the frontier past the
    /// allocation, keeping it four-byte aligned.
    #[verifier::rlimit(100)]
    fn copy_function(&mut self, func: &CompiledFunction, relocs: &Vec<RelocationEntry>) -> (start:
        usize)
        requires
            old(self).wf(),
            writable_entry(*old(self)),
            func.wf(),
            old(self).len + spec_function_allocation_size(*func) <= old(self).mmap.bytes@.len(),
        ensures
            final(self).wf(),
            writable_entry(*final(self)),
            start == old(self).len,
            final(self).base == old(self).base,
            final(self).mmap.bytes@.len() == old(self).mmap.bytes@.len(),
            final(self).len == old(self).len + align4(spec_function_allocation_size(*func)),
            function_placed(*final(self), *old(self), *func, start as int),
            final(self).registry.base_address == old(self).registry.base_address,
            match func.unwind_info {
                Some(info) => {
                    &&& final(self).registry.entries@.len() == old(
                        self,
                    ).registry.entries@.len() + 1
                    &&& final(self).registry.entries@.take(
                        old(self).registry.entries@.len() as int,
                    ) == old(self).registry.entries@
                    &&& final(self).registry.entries@.last().offset == start
                    &&& final(self).registry.entries@.last().len == func.body@.len()
                    &&& crate::unwind::unwind_info_equiv(
                        final(self).registry.entries@.last().info,
                        info,
                    )
                }
                None => final(self).registry.entries@ == old(self).registry.entries@,
            },
            final(self).relocs@.len() == old(self).relocs@.len() + 1,
            final(self).relocs@.take(old(self).relocs@.len() as int) == old(self).relocs@,
            final(self).relocs@.last().0 == start,
            final(self).relocs@.last().1@ == relocs@,
    {
        let ghost pre = *old(self);
        let start = self.len;
        let bl = func.body.len();
        proof {
            lemma_align4(bl as int);
            match &func.unwind_info {
                Some(UnwindInfo::WindowsX64(w)) => {
                    crate::winx64::lemma_node_count_bounds(w.unwind_codes@);
                }
                _ => {}
            }
        }

        let mut i: usize = 0;
        while i < func.body.len()
            invariant
                0 <= i <= func.body@.len(),
                bl == func.body@.len(),
                start + func.body@.len() <= self.mmap.bytes@.len(),
                self.mmap.bytes@.len() <= usize::MAX,
                self.mmap.bytes@.len() == pre.mmap.bytes@.len(),
                self.base == pre.base,
                self.len == pre.len,
                self.registry == pre.registry,
                self.relocs == pre.relocs,
                self.mmap.protection == pre.mmap.protection,
                start == pre.len,
                forall|k: int| 0 <= k < start ==> self.mmap.bytes@[k] == pre.mmap.bytes@[k],
                forall|k: int|
                    start <= k < start + i ==> self.mmap.bytes@[k] == func.body@[k - start],
                forall|k: int|
                    start + i <= k < self.mmap.bytes@.len() ==> self.mmap.bytes@[k]
                        == pre.mmap.bytes@[k],
            decreases func.body@.len() - i,
        {
            let b = func.body[i];
            self.mmap.bytes[start + i] = b;
            i = i + 1;
        }
        let ghost after_body = self.mmap.bytes@;
        proof {
            assert(forall|k: int| 0 <= k < start ==> after_body[k] == pre.mmap.bytes@[k]);
            assert(forall|k: int|
                start <= k < start + bl ==> after_body[k] == func.body@[k - start]);
            assert(forall|k: int|
                start + bl <= k < after_body.len() ==> after_body[k] == pre.mmap.bytes@[k]);
        }

        let size: usize;
        match &func.unwind_info {
            Some(UnwindInfo::WindowsX64(info)) => {
                let ebytes = info.emit();
                let aligned = ((bl + 3) / 4) * 4;
                let ustart = start + aligned;
                let mut j: usize = 0;
                while j < ebytes.len()
                    invariant
                        0 <= j <= ebytes@.len(),
                        ustart + ebytes@.len() <= self.mmap.bytes@.len(),
                        self.mmap.bytes@.len() <= usize::MAX,
                        self.mmap.bytes@.len() == after_body.len(),
                        self.base == pre.base,
                        self.len == pre.len,
                        self.registry == pre.registry,
                        self.relocs == pre.relocs,
                        self.mmap.protection == pre.mmap.protection,
                        forall|k: int| 0 <= k < ustart ==> self.mmap.bytes@[k] == after_body[k],
                        forall|k: int|
                            ustart <= k < ustart + j ==> self.mmap.bytes@[k] == ebytes@[k
                                - ustart],
                        forall|k: int|
                            ustart + j <= k < self.mmap.bytes@.len() ==> self.mmap.bytes@[k]
                                == after_body[k],
                    decreases ebytes@.len() - j,
                {
                    let b = ebytes[j];
                    self.mmap.bytes[ustart + j] = b;
                    j = j + 1;
                }
                size = aligned + ebytes.len();
                proof {
                    assert(bl <= aligned);
                    assert forall|k: int| 0 <= k < start implies self.mmap.bytes@[k]
                        == pre.mmap.bytes@[k] by {
                        assert(self.mmap.bytes@[k] == after_body[k]);
                        assert(after_body[k] == pre.mmap.bytes@[k]);
                    }
                    assert forall|k: int| start <= k < start + bl implies self.mmap.bytes@[k]
                        == func.body@[k - start] by {
                        assert(k < ustart);
                        assert(self.mmap.bytes@[k] == after_body[k]);
                        assert(after_body[k] == func.body@[k - start]);
                    }
                    assert forall|k: int| ustart <= k < ustart + ebytes@.len() implies
                        self.mmap.bytes@[k] == info.emit_spec()[k - ustart] by {
                        assert(self.mmap.bytes@[k] == ebytes@[k - ustart]);
                    }
                    assert forall|k: int| start + size <= k < self.mmap.bytes@.len() implies
                        self.mmap.bytes@[k] == pre.mmap.bytes@[k] by {
                        assert(k >= ustart + ebytes@.len());
                        assert(self.mmap.bytes@[k] == after_body[k]);
                        assert(k >= start + bl);
                        assert(after_body[k] == pre.mmap.bytes@[k]);
                    }
                }
            }
            _ => {
                size = bl;
                proof {
                    assert(forall|k: int|
                        0 <= k < start ==> self.mmap.bytes@[k] == pre.mmap.bytes@[k]);
                    assert(forall|k: int|
                        start <= k < start + bl ==> self.mmap.bytes@[k] == func.body@[k - start]);
                    assert(forall|k: int|
                        start + size <= k < self.mmap.bytes@.len() ==> self.mmap.bytes@[k]
                            == pre.mmap.bytes@[k]);
                }
            }
        }

        proof {
            assert(size == spec_function_allocation_size(*func));
            lemma_align4(size as int);
            lemma_align4_add(start as int, size as int);
            lemma_align4_fits(start as int, size as int, self.mmap.bytes@.len() as int);
        }
        let new_len = start + ((size + 3) / 4) * 4;
        self.len = new_len;

        match &func.unwind_info {
            Some(info) => {
                let cloned = info.clone();
                let rres = self.registry.register(start as u32, bl as u32, cloned);
                proof {
                    assert(rres is Ok);
                    assert(self.registry.entries@.take(pre.registry.entries@.len() as int)
                        =~= pre.registry.entries@);
                }
            }
            None => {}
        }

        let copied = crate::copy_elements(relocs);
        self.relocs.push((start as u32, copied));
        proof {
            assert(self.relocs@.take(pre.relocs@.len() as int) =~= pre.relocs@);
            assert(self.mmap.bytes@.subrange(start as int, start + func.body@.len()) =~= func.body@);
            match &func.unwind_info {
                Some(UnwindInfo::WindowsX64(w)) => {
                    assert(self.mmap.bytes@.subrange(
                        start + align4(func.body@.len() as int),
                        start + align4(func.body@.len() as int) + w.emit_size_spec(),
                    ) =~= w.emit_spec());
                }
                _ => {}
            }
            assert forall|k: int| self.len <= k < self.mmap.bytes@.len() implies self.mmap.bytes@[k]
                == 0 by {
                assert(self.mmap.bytes@[k] == pre.mmap.bytes@[k]);
            }
            assert(self.wf());
        }
        start
    }
}

/// The bytes of arena `c` hold function `f` at offset `start`: its body
/// there and, for Windows, its emitted unwind block at the next
/// four-byte boundary after the body.
pub open spec fn function_in_arena(c: CodeMemoryEntry, f: CompiledFunction, start: int) -> bool {
    let bl = f.body@.len() as int;
    &&& 0 <= start
    &&& start + align4(spec_function_allocation_size(f)) <= c.len
    &&& c.mmap.bytes@.subrange(start, start + bl) == f.body@
    &&& match f.unwind_info {
        Some(UnwindInfo::WindowsX64(w)) => c.mmap.bytes@.subrange(
            start + align4(bl),
            start + align4(bl) + w.emit_size_spec(),
        ) == w.emit_spec(),
        _ => true,
    }
}

impl CodeMemory {
    /// Allocates a continuous block for one compiled function: copies
    /// its body (and, on Windows, its trailing unwind block) into a
    /// writable arena — growing into a fresh arena when the current one
    /// lacks room — records its pending relocations, and registers its
    /// unwind information in that arena's registry. Returns the
    /// function's absolute address and its body length. Fails exactly
    /// when no address space is left for a new arena.
    #[verifier::rlimit(100)]
    pub fn allocate_for_function(&mut self, func: &CompiledFunction, relocs: &Vec<RelocationEntry>) -> (r:
        Result<(usize, usize), CodeMemoryError>)
        requires
            old(self).wf(),
            func.wf(),
        ensures
            final(self).wf(),
            final(self).published == old(self).published,
            final(self).entries@.take(old(self).entries@.len() as int) == old(self).entries@,
            forall|i: int|
                0 <= i < old(self).entries@.len() ==> final(self).entries@[i] == old(
                    self,
                ).entries@[i],
            r is Ok <==> !needs_new_arena(*old(self), spec_function_allocation_size(*func)) || old(
                self,
            ).next_base + page_round(grown_capacity(spec_function_allocation_size(*func)))
                <= usize::MAX,
            match r {
                Ok((addr, blen)) => {
                    &&& blen == func.body@.len()
                    &&& match final(self).current {
                        Some(c) => {
                            &&& c.base <= addr
                            &&& addr - c.base + align4(spec_function_allocation_size(*func))
                                == c.len
                            &&& function_in_arena(c, *func, addr - c.base)
                            &&& (match func.unwind_info {
                                Some(info) => {
                                    &&& c.registry.entries@.len() >= 1
                                    &&& c.registry.entries@.last().offset == addr - c.base
                                    &&& c.registry.entries@.last().len == blen
                                    &&& crate::unwind::unwind_info_equiv(
                                        c.registry.entries@.last().info,
                                        info,
                                    )
                                }
                                None => true,
                            })
                            &&& c.relocs@.len() >= 1
                            &&& c.relocs@.last().0 == addr - c.base
                            &&& c.relocs@.last().1@ == relocs@
                        }
                        None => false,
                    }
                }
                Err(e) => e == CodeMemoryError::AddressSpaceExhausted,
            },
    {
        let size = function_allocation_size(func);
        let need_new = match &self.current {
            Some(e) => e.mmap.bytes.len() - e.len < size,
            None => true,
        };
        if need_new {
            match self.push_current(size) {
                Ok(()) => {}
                Err(e) => {
                    proof {
                        assert(final(self).entries@.take(old(self).entries@.len() as int)
                            =~= old(self).entries@);
                    }
                    return Err(e);
                }
            }
        }
        let ghost mid = *self;
        let addr: usize;
        let blen: usize;
        match &mut self.current {
            Some(e) => {
                proof {
                    assert(e.len + spec_function_allocation_size(*func)
                        <= e.mmap.bytes@.len());
                }
                let start = e.copy_function(func, relocs);
                addr = e.base + start;
                blen = func.body.len();
            }
            None => {
                proof {
                    assert(false);
                }
                return Err(CodeMemoryError::AddressSpaceExhausted);
            }
        }
        proof {
            assert(final(self).entries@.take(old(self).entries@.len() as int)
                =~= old(self).entries@);
            match &self.current {
                Some(c) => {
                    assert(c.mmap.bytes@.subrange(
                        addr - c.base,
                        addr - c.base + func.body@.len(),
                    ) == func.body@);
                }
                None => {
                    assert(false);
                }
            }
            assert(self.wf());
        }
        Ok((addr, blen))
    }
}

/// Total arena space a batch of functions needs, frontier alignment
/// included.
pub open spec fn total_alloc(fns: Seq<CompiledFunction>) -> int
    decreases fns.len(),
{
    if fns.len() == 0 {
        0
    } else {
        align4(spec_function_allocation_size(fns[0])) + total_alloc(fns.skip(1))
    }
}

/// Each summand of the total is nonnegative.
proof fn lemma_total_alloc_bounds(fns: Seq<CompiledFunction>)
    requires
        forall|i: int| 0 <= i < fns.len() ==> (#[trigger] fns[i]).wf(),
    ensures
        total_alloc(fns) >= 0,
        fns.len() > 0 ==> align4(spec_function_allocation_size(fns[0])) <= total_alloc(fns),
    decreases fns.len(),
{
    if fns.len() > 0 {
        assert(forall|i: int|
            0 <= i < fns.skip(1).len() ==> (#[trigger] fns.skip(1)[i]).wf());
        lemma_total_alloc_bounds(fns.skip(1));
        assert(fns[0].wf());
        match fns[0].unwind_info {
            Some(UnwindInfo::WindowsX64(w)) => {
                crate::winx64::lemma_node_count_bounds(w.unwind_codes@);
            }
            _ => {}
        }
        lemma_align4(spec_function_allocation_size(fns[0]));
    }
}

/// Number of functions in a batch that carry unwind information.
pub open spec fn reg_count(fns: Seq<CompiledFunction>) -> int
    decreases fns.len(),
{
    if fns.len() == 0 {
        0
    } else {
        (match fns[0].unwind_info {
            Some(_) => 1int,
            None => 0int,
        }) + reg_count(fns.skip(1))
    }
}

/// One more function adds its own allocation to the batch total.
pub proof fn lemma_total_alloc_take_step(fns: Seq<CompiledFunction>, i: int)
    requires
        0 <= i < fns.len(),
    ensures
        total_alloc(fns.take(i + 1)) == total_alloc(fns.take(i)) + align4(
            spec_function_allocation_size(fns[i]),
        ),
    decreases i,
{
    if i == 0 {
        assert(fns.take(0) =~= Seq::<CompiledFunction>::empty());
        assert(fns.take(1)[0] == fns[0]);
        assert(fns.take(1).skip(1) =~= Seq::<CompiledFunction>::empty());
    } else {
        lemma_total_alloc_take_step(fns.skip(1), i - 1);
        assert(fns.take(i + 1).skip(1) =~= fns.skip(1).take(i));
        assert(fns.take(i).skip(1) =~= fns.skip(1).take(i - 1));
        assert(fns.take(i + 1)[0] == fns[0]);
        assert(fns.take(i)[0] == fns[0]);
        assert(fns.skip(1)[i - 1] == fns[i]);
    }
}

/// One more function adds its own registration count to the batch's.
pub proof fn lemma_reg_count_take_step(fns: Seq<CompiledFunction>, i: int)
    requires
        0 <= i < fns.len(),
    ensures
        reg_count(fns.take(i + 1)) == reg_count(fns.take(i)) + (match fns[i].unwind_info {
            Some(_) => 1int,
            None => 0int,
        }),
    decreases i,
{
    if i == 0 {
        assert(fns.take(0) =~= Seq::<CompiledFunction>::empty());
        assert(fns.take(1)[0] == fns[0]);
        assert(fns.take(1).skip(1) =~= Seq::<CompiledFunction>::empty());
    } else {
        lemma_reg_count_take_step(fns.skip(1), i - 1);
        assert(fns.take(i + 1).skip(1) =~= fns.skip(1).take(i));
        assert(fns.take(i).skip(1) =~= fns.skip(1).take(i - 1));
        assert(fns.take(i + 1)[0] == fns[0]);
        assert(fns.take(i)[0] == fns[0]);
        assert(fns.skip(1)[i - 1] == fns[i]);
    }
}

/// A registration count is never negative.
pub proof fn lemma_reg_count_nonneg(fns: Seq<CompiledFunction>)
    ensures
        reg_count(fns) >= 0,
    decreases fns.len(),
{
    if fns.len() > 0 {
        lemma_reg_count_nonneg(fns.skip(1));
    }
}

/// Registration counts never shrink as functions are taken.
pub proof fn lemma_reg_count_take_mono(fns: Seq<CompiledFunction>, i: int, k: int)
    requires
        0 <= i <= k <= fns.len(),
    ensures
        0 <= reg_count(fns.take(i)) <= reg_count(fns.take(k)),
        i < k && fns[i].unwind_info is Some ==> reg_count(fns.take(i)) + 1 <= reg_count(
            fns.take(k),
        ),
    decreases k - i,
{
    lemma_reg_count_nonneg(fns.take(i));
    if i < k {
        lemma_reg_count_take_step(fns, i);
        lemma_reg_count_take_mono(fns, i + 1, k);
    }
}

/// Batch totals grow with every function taken: the regions the batch
/// places cannot run into one another.
pub proof fn lemma_total_alloc_take_mono(fns: Seq<CompiledFunction>, i: int, k: int)
    requires
        0 <= i <= k <= fns.len(),
        forall|m: int| 0 <= m < fns.len() ==> (#[trigger] fns[m]).wf(),
    ensures
        i < k ==> total_alloc(fns.take(i)) + align4(spec_function_allocation_size(fns[i]))
            <= total_alloc(fns.take(k)),
        total_alloc(fns.take(i)) <= total_alloc(fns.take(k)),
    decreases k - i,
{
    if i < k {
        assert(fns[i].wf());
        match fns[i].unwind_info {
            Some(UnwindInfo::WindowsX64(w)) => {
                crate::winx64::lemma_node_count_bounds(w.unwind_codes@);
            }
            _ => {}
        }
        lemma_align4(spec_function_allocation_size(fns[i]));
        lemma_total_alloc_take_step(fns, i);
        lemma_total_alloc_take_mono(fns, i + 1, k);
    }
}

impl CodeMemory {
    /// Allocates one continuous block for a whole compilation: the
    /// functions are copied back to back, in order, into one arena,
    /// each with its pending relocations recorded and its unwind
    /// information registered, regions never overlapping. Returns each
    /// function's absolute address and body length. Fails exactly when
    /// the batch fits neither the current arena nor a fresh one below
    /// the end of the address space.
    #[verifier::rlimit(100)]
    #[verifier::spinoff_prover]
    pub fn allocate_for_compilation(
        &mut self,
        compilation: &Vec<CompiledFunction>,
        relocations: &Vec<Vec<RelocationEntry>>,
    ) -> (r: Result<Vec<(usize, usize)>, CodeMemoryError>)
        requires
            old(self).wf(),
            compilation@.len() > 0,
            relocations@.len() == compilation@.len(),
            forall|i: int| 0 <= i < compilation@.len() ==> (#[trigger] compilation@[i]).wf(),
            total_alloc(compilation@) <= 0xFFFF_0000,
        ensures
            final(self).wf(),
            final(self).published == old(self).published,
            forall|i: int|
                0 <= i < old(self).entries@.len() ==> final(self).entries@[i] == old(
                    self,
                ).entries@[i],
            r is Ok <==> !needs_new_arena(*old(self), total_alloc(compilation@)) || old(
                self,
            ).next_base + page_round(grown_capacity(total_alloc(compilation@))) <= usize::MAX,
            match r {
                Ok(rs) => {
                    &&& rs@.len() == compilation@.len()
                    &&& match final(self).current {
                        Some(c) => ({
                            let total = total_alloc(compilation@);
                            let fresh = needs_new_arena(*old(self), total);
                            let reg0 = if fresh {
                                0int
                            } else {
                                old(self).current->0.registry.entries@.len() as int
                            };
                            let rel0 = if fresh {
                                0int
                            } else {
                                old(self).current->0.relocs@.len() as int
                            };
                            &&& forall|i: int|
                                0 <= i < rs@.len() ==> (#[trigger] rs@[i]).1
                                    == compilation@[i].body@.len() && c.base <= rs@[i].0
                                    && function_in_arena(c, compilation@[i], rs@[i].0 - c.base)
                                    && rs@[i].0 == c.base + c.len - total + total_alloc(
                                    compilation@.take(i),
                                )
                            &&& forall|i: int, k: int|
                                0 <= i < k < rs@.len() ==> (#[trigger] rs@[i]).0 + align4(
                                    spec_function_allocation_size(compilation@[i]),
                                ) <= (#[trigger] rs@[k]).0
                            &&& c.registry.entries@.len() == reg0 + reg_count(compilation@)
                            &&& (!fresh ==> c.registry.entries@.take(reg0) == old(
                                self,
                            ).current->0.registry.entries@)
                            &&& forall|i: int|
                                0 <= i < compilation@.len() ==> match (
                                #[trigger] compilation@[i]).unwind_info {
                                    Some(info) => ({
                                        let k = reg0 + reg_count(compilation@.take(i));
                                        &&& 0 <= k < c.registry.entries@.len()
                                        &&& c.registry.entries@[k].offset == rs@[i].0 - c.base
                                        &&& c.registry.entries@[k].len
                                            == compilation@[i].body@.len()
                                        &&& crate::unwind::unwind_info_equiv(
                                            c.registry.entries@[k].info,
                                            info,
                                        )
                                    }),
                                    None => true,
                                }
                            &&& c.relocs@.len() == rel0 + compilation@.len()
                            &&& (!fresh ==> c.relocs@.take(rel0) == old(
                                self,
                            ).current->0.relocs@)
                            &&& forall|i: int|
                                0 <= i < compilation@.len() ==> (#[trigger] c.relocs@[rel0
                                    + i]).0 == rs@[i].0 - c.base && c.relocs@[rel0 + i].1@
                                    == relocations@[i]@
                        }),
                        None => false,
                    }
                }
                Err(e) => e == CodeMemoryError::AddressSpaceExhausted,
            },
    {
        proof {
            lemma_total_alloc_bounds(compilation@);
            assert(compilation@.skip(0) =~= compilation@);
        }
        let mut total: usize = 0;
        let mut i: usize = 0;
        while i < compilation.len()
            invariant
                0 <= i <= compilation@.len(),
                forall|k: int|
                    0 <= k < compilation@.len() ==> (#[trigger] compilation@[k]).wf(),
                total_alloc(compilation@) <= 0xFFFF_0000,
                total + total_alloc(compilation@.skip(i as int)) == total_alloc(compilation@),
                0 <= total <= total_alloc(compilation@),
            decreases compilation@.len() - i,
        {
            let ghost rest = compilation@.skip(i as int);
            proof {
                assert(rest[0] == compilation@[i as int]);
                assert(rest.skip(1) =~= compilation@.skip(i + 1));
                assert(forall|k: int| 0 <= k < rest.len() ==> (#[trigger] rest[k]).wf());
                lemma_total_alloc_bounds(rest);
                lemma_total_alloc_bounds(rest.skip(1));
                match compilation@[i as int].unwind_info {
                    Some(UnwindInfo::WindowsX64(w)) => {
                        crate::winx64::lemma_node_count_bounds(w.unwind_codes@);
                    }
                    _ => {}
                }
                lemma_align4(spec_function_allocation_size(compilation@[i as int]));
            }
            let size = function_allocation_size(&compilation[i]);
            let aligned = ((size + 3) / 4) * 4;
            total = total + aligned;
            i = i + 1;
        }
        proof {
            assert(compilation@.skip(compilation@.len() as int)
                =~= Seq::<CompiledFunction>::empty());
        }

        proof {
            assert(total == total_alloc(compilation@));
            lemma_total_alloc_bounds(compilation@);
            match compilation@[0].unwind_info {
                Some(UnwindInfo::WindowsX64(w)) => {
                    crate::winx64::lemma_node_count_bounds(w.unwind_codes@);
                }
                _ => {}
            }
            lemma_align4(spec_function_allocation_size(compilation@[0]));
            assert(total > 0);
        }
        let need_new = match &self.current {
            Some(e) => e.mmap.bytes.len() - e.len < total,
            None => true,
        };
        proof {
            assert(need_new == needs_new_arena(*old(self), total_alloc(compilation@)));
        }
        if need_new {
            match self.push_current(total) {
                Ok(()) => {}
                Err(e) => {
                    return Err(e);
                }
            }
        }

        let mut result: Vec<(usize, usize)> = Vec::new();
        let mut j: usize = 0;
        match &mut self.current {
            Some(e) => {
                let ghost base = e.base;
                let ghost cap0 = e.mmap.bytes@.len();
                let ghost len0 = e.len as int;
                let ghost reg0 = e.registry.entries@.len() as int;
                let ghost regents0 = e.registry.entries@;
                let ghost rel0 = e.relocs@.len() as int;
                let ghost relocs0 = e.relocs@;
                proof {
                    assert(compilation@.skip(0) =~= compilation@);
                    assert(compilation@.take(0) =~= Seq::<CompiledFunction>::empty());
                    assert(e.len + total_alloc(compilation@) <= e.mmap.bytes@.len());
                    assert(e.registry.entries@.take(reg0) =~= regents0);
                    assert(e.relocs@.take(rel0) =~= relocs0);
                    if need_new {
                        assert(len0 == 0 && reg0 == 0 && rel0 == 0);
                    } else {
                        assert(*e == old(self).current->0);
                    }
                }
                while j < compilation.len()
                    invariant
                        0 <= j <= compilation@.len(),
                        result@.len() == j,
                        relocations@.len() == compilation@.len(),
                        forall|k: int|
                            0 <= k < compilation@.len() ==> (#[trigger] compilation@[k]).wf(),
                        e.wf(),
                        writable_entry(*e),
                        e.base == base,
                        e.mmap.bytes@.len() == cap0,
                        e.len == len0 + total_alloc(compilation@.take(j as int)),
                        e.len + total_alloc(compilation@.skip(j as int))
                            <= e.mmap.bytes@.len(),
                        forall|k: int|
                            0 <= k < j ==> (#[trigger] result@[k]).1
                                == compilation@[k].body@.len() && base <= result@[k].0
                                && function_in_arena(*e, compilation@[k], result@[k].0 - base),
                        forall|k: int|
                            0 <= k < j ==> (#[trigger] result@[k]).0 == base + len0
                                + total_alloc(compilation@.take(k)),
                        0 <= reg0 && regents0.len() == reg0,
                        0 <= rel0 && relocs0.len() == rel0,
                        e.registry.entries@.len() == reg0 + reg_count(compilation@.take(j as int)),
                        e.registry.entries@.take(reg0) == regents0,
                        forall|k: int|
                            0 <= k < j ==> match (#[trigger] compilation@[k]).unwind_info {
                                Some(info) => ({
                                    let at = reg0 + reg_count(compilation@.take(k));
                                    &&& 0 <= at < e.registry.entries@.len()
                                    &&& e.registry.entries@[at].offset == result@[k].0 - base
                                    &&& e.registry.entries@[at].len
                                        == compilation@[k].body@.len()
                                    &&& crate::unwind::unwind_info_equiv(
                                        e.registry.entries@[at].info,
                                        info,
                                    )
                                }),
                                None => true,
                            },
                        e.relocs@.len() == rel0 + j,
                        e.relocs@.take(rel0) == relocs0,
                        forall|k: int|
                            0 <= k < j ==> (#[trigger] e.relocs@[rel0 + k]).0 == result@[k].0
                                - base && e.relocs@[rel0 + k].1@ == relocations@[k]@,
                    decreases compilation@.len() - j,
                {
                    let ghost rest = compilation@.skip(j as int);
                    let ghost ebefore = *e;
                    proof {
                        assert(rest[0] == compilation@[j as int]);
                        assert(rest.skip(1) =~= compilation@.skip(j + 1));
                        assert(forall|k: int| 0 <= k < rest.len() ==> (#[trigger] rest[k]).wf());
                        lemma_total_alloc_bounds(rest.skip(1));
                        match compilation@[j as int].unwind_info {
                            Some(UnwindInfo::WindowsX64(w)) => {
                                crate::winx64::lemma_node_count_bounds(w.unwind_codes@);
                            }
                            _ => {}
                        }
                        lemma_align4(spec_function_allocation_size(compilation@[j as int]));
                        lemma_reg_count_take_mono(compilation@, 0, j as int);
                    }
                    let start = e.copy_function(&compilation[j], &relocations[j]);
                    result.push((e.base + start, compilation[j].body.len()));
                    proof {
                        lemma_total_alloc_take_step(compilation@, j as int);
                        lemma_reg_count_take_step(compilation@, j as int);
                        assert(reg0 <= ebefore.registry.entries@.len());
                        assert forall|k: int| 0 <= k < ebefore.registry.entries@.len() implies
                            e.registry.entries@[k] == ebefore.registry.entries@[k] by {
                            assert(e.registry.entries@.take(
                                ebefore.registry.entries@.len() as int,
                            )[k] == e.registry.entries@[k]);
                        }
                        assert forall|k: int| 0 <= k < reg0 implies e.registry.entries@[k]
                            == regents0[k] by {
                            assert(ebefore.registry.entries@.take(reg0)[k]
                                == ebefore.registry.entries@[k]);
                        }
                        assert(e.registry.entries@.take(reg0) =~= regents0);
                        assert(rel0 <= ebefore.relocs@.len());
                        assert forall|k: int| 0 <= k < ebefore.relocs@.len() implies
                            e.relocs@[k] == ebefore.relocs@[k] by {
                            assert(e.relocs@.take(ebefore.relocs@.len() as int)[k]
                                == e.relocs@[k]);
                        }
                        assert forall|k: int| 0 <= k < rel0 implies e.relocs@[k]
                            == relocs0[k] by {
                            assert(ebefore.relocs@.take(rel0)[k] == ebefore.relocs@[k]);
                        }
                        assert(e.relocs@.take(rel0) =~= relocs0);
                        assert(e.relocs@.len() == rel0 + j + 1);
                        assert(e.relocs@.last() == e.relocs@[rel0 + j]);
                        assert((e.relocs@[rel0 + j]).0 == start);
                        assert(e.relocs@[rel0 + j].1@ == relocations@[j as int]@);
                        assert forall|k: int| 0 <= k < j implies (#[trigger] e.relocs@[rel0
                            + k]).0 == result@[k].0 - base && e.relocs@[rel0 + k].1@
                            == relocations@[k]@ by {
                            assert(rel0 + k < ebefore.relocs@.len());
                            assert(e.relocs@[rel0 + k] == ebefore.relocs@[rel0 + k]);
                        }
                        match compilation@[j as int].unwind_info {
                            Some(_) => {
                                assert(e.registry.entries@.last()
                                    == e.registry.entries@[reg0 + reg_count(
                                    compilation@.take(j as int),
                                )]);
                            }
                            None => {}
                        }
                        assert forall|k: int| 0 <= k < j implies (#[trigger] result@[k]).1
                            == compilation@[k].body@.len() && base <= result@[k].0
                            && function_in_arena(*e, compilation@[k], result@[k].0 - base) by {
                            assert(function_in_arena(ebefore, compilation@[k], result@[k].0
                                - base));
                            match compilation@[k].unwind_info {
                                Some(UnwindInfo::WindowsX64(w)) => {
                                    crate::winx64::lemma_node_count_bounds(w.unwind_codes@);
                                }
                                _ => {}
                            }
                            lemma_align4(compilation@[k].body@.len() as int);
                            lemma_align4(spec_function_allocation_size(compilation@[k]));
                            let s = result@[k].0 - base;
                            let bl = compilation@[k].body@.len() as int;
                            assert(e.mmap.bytes@.subrange(s, s + bl) =~= ebefore.mmap.bytes@.subrange(
                                s,
                                s + bl,
                            ));
                            match compilation@[k].unwind_info {
                                Some(UnwindInfo::WindowsX64(w)) => {
                                    assert(e.mmap.bytes@.subrange(
                                        s + align4(bl),
                                        s + align4(bl) + w.emit_size_spec(),
                                    ) =~= ebefore.mmap.bytes@.subrange(
                                        s + align4(bl),
                                        s + align4(bl) + w.emit_size_spec(),
                                    ));
                                }
                                _ => {}
                            }
                        }
                        assert(result@[j as int] == ((base + start) as usize, compilation@[j as int].body@.len() as usize));
                        assert(function_in_arena(*e, compilation@[j as int], start as int));
                    }
                    j = j + 1;
                }
                proof {
                    assert(compilation@.take(compilation@.len() as int) =~= compilation@);
                    assert forall|a: int, b: int| 0 <= a < b < result@.len() implies (
                    #[trigger] result@[a]).0 + align4(
                        spec_function_allocation_size(compilation@[a]),
                    ) <= (#[trigger] result@[b]).0 by {
                        lemma_total_alloc_take_mono(compilation@, a, b);
                    }
                    assert forall|a: int| 0 <= a < compilation@.len() && (
                    #[trigger] compilation@[a]).unwind_info is Some implies reg0 + reg_count(
                        compilation@.take(a),
                    ) + 1 <= e.registry.entries@.len() by {
                        lemma_reg_count_take_mono(compilation@, a, compilation@.len() as int);
                    }
                }
            }
            None => {
                proof {
                    assert(false);
                }
                return Err(CodeMemoryError::AddressSpaceExhausted);
            }
        }
        proof {
            assert(self.wf());
        }
        Ok(result)
    }
}

/// The pending patch sites of one relocation group, each paired with
/// the absolute address its allocation starts at.
pub open spec fn group_pairs(base: int, g: (u32, Vec<RelocationEntry>)) -> Seq<(usize, RelocationEntry)> {
    g.1@.map_values(|r: RelocationEntry| (((base + g.0) as usize), r))
}

/// All pending patch sites of a list of relocation groups.
pub open spec fn groups_pairs(base: int, gs: Seq<(u32, Vec<RelocationEntry>)>) -> Seq<
    (usize, RelocationEntry),
>
    decreases gs.len(),
{
    if gs.len() == 0 {
        Seq::empty()
    } else {
        group_pairs(base, gs[0]) + groups_pairs(base, gs.skip(1))
    }
}

/// All pending patch sites of one arena.
pub open spec fn entry_pairs(e: CodeMemoryEntry) -> Seq<(usize, RelocationEntry)> {
    groups_pairs(e.base as int, e.relocs@)
}

/// All pending patch sites of a list of arenas.
pub open spec fn entries_pairs(es: Seq<CodeMemoryEntry>) -> Seq<(usize, RelocationEntry)>
    decreases es.len(),
{
    if es.len() == 0 {
        Seq::empty()
    } else {
        entry_pairs(es[0]) + entries_pairs(es.skip(1))
    }
}

/// Appends one arena's pending patch sites to `out`.
fn push_entry_pairs(out: &mut Vec<(usize, RelocationEntry)>, e: &CodeMemoryEntry)
    requires
        e.wf(),
    ensures
        final(out)@ == old(out)@ + entry_pairs(*e),
{
    let ghost base = e.base as int;
    let mut g: usize = 0;
    proof {
        assert(e.relocs@.skip(0) =~= e.relocs@);
        assert(old(out)@ + groups_pairs(base, e.relocs@) =~= old(out)@ + groups_pairs(
            base,
            e.relocs@.skip(0),
        ));
    }
    while g < e.relocs.len()
        invariant
            0 <= g <= e.relocs@.len(),
            e.wf(),
            base == e.base as int,
            old(out)@ + groups_pairs(base, e.relocs@) == out@ + groups_pairs(
                base,
                e.relocs@.skip(g as int),
            ),
        decreases e.relocs@.len() - g,
    {
        let ghost grest = e.relocs@.skip(g as int);
        proof {
            assert(grest[0] == e.relocs@[g as int]);
            assert(grest.skip(1) =~= e.relocs@.skip(g + 1));
        }
        let (start, relocs) = &e.relocs[g];
        proof {
            assert(e.relocs@[g as int].0 <= e.len);
        }
        let addr: usize = e.base + (*start as usize);
        let ghost mp = group_pairs(base, e.relocs@[g as int]);
        let ghost prev = out@;
        let mut j: usize = 0;
        while j < relocs.len()
            invariant
                0 <= j <= relocs@.len(),
                relocs@ == e.relocs@[g as int].1@,
                addr == base + e.relocs@[g as int].0,
                mp == group_pairs(base, e.relocs@[g as int]),
                out@ == prev + mp.take(j as int),
            decreases relocs@.len() - j,
        {
            let r = relocs[j];
            out.push((addr, r));
            proof {
                assert(mp[j as int] == (addr, e.relocs@[g as int].1@[j as int]));
                assert(mp.take(j + 1) =~= mp.take(j as int).push(mp[j as int]));
                assert(out@ =~= prev + mp.take(j + 1));
            }
            j = j + 1;
        }
        proof {
            assert(mp.take(mp.len() as int) =~= mp);
            assert(out@ =~= prev + mp);
            assert(groups_pairs(base, grest) == mp + groups_pairs(base, e.relocs@.skip(g + 1)));
            assert((prev + mp) + groups_pairs(base, e.relocs@.skip(g + 1)) =~= prev + groups_pairs(
                base,
                grest,
            ));
        }
        g = g + 1;
    }
    proof {
        assert(e.relocs@.skip(e.relocs@.len() as int) =~= Seq::<(u32, Vec<RelocationEntry>)>::empty());
        assert(out@ + groups_pairs(base, e.relocs@.skip(e.relocs@.len() as int)) =~= out@);
    }
}

impl CodeMemory {
    /// Returns every pending patch site of the not-yet-published
    /// arenas, each as the absolute address its allocation starts at
    /// together with the relocation to apply there.
    pub fn unpublished_relocations(&self) -> (r: Vec<(usize, RelocationEntry)>)
        requires
            self.wf(),
        ensures
            r@ == entries_pairs(self.entries@.skip(self.published as int)) + (match self.current {
                Some(c) => entry_pairs(c),
                None => Seq::<(usize, RelocationEntry)>::empty(),
            }),
    {
        let mut out: Vec<(usize, RelocationEntry)> = Vec::new();
        let ghost tail = self.entries@.skip(self.published as int);
        let mut i: usize = self.published;
        proof {
            assert(self.entries@.skip(self.published as int).skip(0) =~= tail);
            assert(out@ + entries_pairs(tail) =~= entries_pairs(tail));
        }
        while i < self.entries.len()
            invariant
                self.wf(),
                self.published <= i <= self.entries@.len(),
                tail == self.entries@.skip(self.published as int),
                entries_pairs(tail) == out@ + entries_pairs(
                    self.entries@.skip(i as int),
                ),
            decreases self.entries@.len() - i,
        {
            let ghost rest = self.entries@.skip(i as int);
            let ghost prev = out@;
            proof {
                assert(rest[0] == self.entries@[i as int]);
                assert(rest.skip(1) =~= self.entries@.skip(i + 1));
            }
            let e = &self.entries[i];
            push_entry_pairs(&mut out, e);
            proof {
                assert(entries_pairs(rest) == entry_pairs(self.entries@[i as int])
                    + entries_pairs(self.entries@.skip(i + 1)));
                assert((prev + entry_pairs(self.entries@[i as int])) + entries_pairs(
                    self.entries@.skip(i + 1),
                ) =~= prev + entries_pairs(rest));
            }
            i = i + 1;
        }
        proof {
            assert(self.entries@.skip(self.entries@.len() as int)
                =~= Seq::<CodeMemoryEntry>::empty());
        }
        match &self.current {
            Some(c) => {
                push_entry_pairs(&mut out, c);
            }
            None => {}
        }
        out
    }
}

/// The symbol name of each runtime library call.
pub open spec fn libcall_name(c: LibCall) -> Seq<u8> {
    match c {
        LibCall::UdivI64 => seq![119u8, 97u8, 115u8, 109u8, 116u8, 105u8, 109u8, 101u8, 95u8, 105u8, 54u8, 52u8, 95u8, 117u8, 100u8, 105u8, 118u8],  // `wasmtime_i64_udiv`
        LibCall::SdivI64 => seq![119u8, 97u8, 115u8, 109u8, 116u8, 105u8, 109u8, 101u8, 95u8, 105u8, 54u8, 52u8, 95u8, 115u8, 100u8, 105u8, 118u8],  // `wasmtime_i64_sdiv`
        LibCall::UremI64 => seq![119u8, 97u8, 115u8, 109u8, 116u8, 105u8, 109u8, 101u8, 95u8, 105u8, 54u8, 52u8, 95u8, 117u8, 114u8, 101u8, 109u8],  // `wasmtime_i64_urem`
        LibCall::SremI64 => seq![119u8, 97u8, 115u8, 109u8, 116u8, 105u8, 109u8, 101u8, 95u8, 105u8, 54u8, 52u8, 95u8, 115u8, 114u8, 101u8, 109u8],  // `wasmtime_i64_srem`
        LibCall::IshlI64 => seq![119u8, 97u8, 115u8, 109u8, 116u8, 105u8, 109u8, 101u8, 95u8, 105u8, 54u8, 52u8, 95u8, 105u8, 115u8, 104u8, 108u8],  // `wasmtime_i64_ishl`
        LibCall::UshrI64 => seq![119u8, 97u8, 115u8, 109u8, 116u8, 105u8, 109u8, 101u8, 95u8, 105u8, 54u8, 52u8, 95u8, 117u8, 115u8, 104u8, 114u8],  // `wasmtime_i64_ushr`
        LibCall::SshrI64 => seq![119u8, 97u8, 115u8, 109u8, 116u8, 105u8, 109u8, 101u8, 95u8, 105u8, 54u8, 52u8, 95u8, 115u8, 115u8, 104u8, 114u8],  // `wasmtime_i64_sshr`
        LibCall::CeilF32 => seq![119u8, 97u8, 115u8, 109u8, 116u8, 105u8, 109u8, 101u8, 95u8, 102u8, 51u8, 50u8, 95u8, 99u8, 101u8, 105u8, 108u8],  // `wasmtime_f32_ceil`
        LibCall::FloorF32 => seq![119u8, 97u8, 115u8, 109u8, 116u8, 105u8, 109u8, 101u8, 95u8, 102u8, 51u8, 50u8, 95u8, 102u8, 108u8, 111u8, 111u8, 114u8],  // `wasmtime_f32_floor`
        LibCall::TruncF32 => seq![119u8, 97u8, 115u8, 109u8, 116u8, 105u8, 109u8, 101u8, 95u8, 102u8, 51u8, 50u8, 95u8, 116u8, 114u8, 117u8, 110u8, 99u8],  // `wasmtime_f32_trunc`
        LibCall::NearestF32 => seq![119u8, 97u8, 115u8, 109u8, 116u8, 105u8, 109u8, 101u8, 95u8, 102u8, 51u8, 50u8, 95u8, 110u8, 101u8, 97u8, 114u8, 101u8, 115u8, 116u8],  // `wasmtime_f32_nearest`
        LibCall::CeilF64 => seq![119u8, 97u8, 115u8, 109u8, 116u8, 105u8, 109u8, 101u8, 95u8, 102u8, 54u8, 52u8, 95u8, 99u8, 101u8, 105u8, 108u8],  // `wasmtime_f64_ceil`
        LibCall::FloorF64 => seq![119u8, 97u8, 115u8, 109u8, 116u8, 105u8, 109u8, 101u8, 95u8, 102u8, 54u8, 52u8, 95u8, 102u8, 108u8, 111u8, 111u8, 114u8],  // `wasmtime_f64_floor`
        LibCall::TruncF64 => seq![119u8, 97u8, 115u8, 109u8, 116u8, 105u8, 109u8, 101u8, 95u8, 102u8, 54u8, 52u8, 95u8, 116u8, 114u8, 117u8, 110u8, 99u8],  // `wasmtime_f64_trunc`
        LibCall::NearestF64 => seq![119u8, 97u8, 115u8, 109u8, 116u8, 105u8, 109u8, 101u8, 95u8, 102u8, 54u8, 52u8, 95u8, 110u8, 101u8, 97u8, 114u8, 101u8, 115u8, 116u8],  // `wasmtime_f64_nearest`
    }
}

/// The library call a symbol name stands for, if any.
pub open spec fn spec_to_libcall(name: Seq<u8>) -> Option<LibCall> {
    if name == libcall_name(LibCall::UdivI64) {
        Some(LibCall::UdivI64)
    } else if name == libcall_name(LibCall::SdivI64) {
        Some(LibCall::SdivI64)
    } else if name == libcall_name(LibCall::UremI64) {
        Some(LibCall::UremI64)
    } else if name == libcall_name(LibCall::SremI64) {
        Some(LibCall::SremI64)
    } else if name == libcall_name(LibCall::IshlI64) {
        Some(LibCall::IshlI64)
    } else if name == libcall_name(LibCall::UshrI64) {
        Some(LibCall::UshrI64)
    } else if name == libcall_name(LibCall::SshrI64) {
        Some(LibCall::SshrI64)
    } else if name == libcall_name(LibCall::CeilF32) {
        Some(LibCall::CeilF32)
    } else if name == libcall_name(LibCall::FloorF32) {
        Some(LibCall::FloorF32)
    } else if name == libcall_name(LibCall::TruncF32) {
        Some(LibCall::TruncF32)
    } else if name == libcall_name(LibCall::NearestF32) {
        Some(LibCall::NearestF32)
    } else if name == libcall_name(LibCall::CeilF64) {
        Some(LibCall::CeilF64)
    } else if name == libcall_name(LibCall::FloorF64) {
        Some(LibCall::FloorF64)
    } else if name == libcall_name(LibCall::TruncF64) {
        Some(LibCall::TruncF64)
    } else if name == libcall_name(LibCall::NearestF64) {
        Some(LibCall::NearestF64)
    } else {
        None
    }
}

/// Builds the symbol name of a library call.
#[verifier::rlimit(60)]
fn libcall_name_vec(c: LibCall) -> (r: Vec<u8>)
    ensures
        r@ == libcall_name(c),
{
    let mut v: Vec<u8> = Vec::new();
    match c {
        LibCall::UdivI64 => {
            v.push(119);
            v.push(97);
            v.push(115);
            v.push(109);
            v.push(116);
            v.push(105);
            v.push(109);
            v.push(101);
            v.push(95);
            v.push(105);
            v.push(54);
            v.push(52);
            v.push(95);
            v.push(117);
            v.push(100);
            v.push(105);
            v.push(118);
        }
        LibCall::SdivI64 => {
            v.push(119);
            v.push(97);
            v.push(115);
            v.push(109);
            v.push(116);
            v.push(105);
            v.push(109);
            v.push(101);
            v.push(95);
            v.push(105);
            v.push(54);
            v.push(52);
            v.push(95);
            v.push(115);
            v.push(100);
            v.push(105);
            v.push(118);
        }
        LibCall::UremI64 => {
            v.push(119);
            v.push(97);
            v.push(115);
            v.push(109);
            v.push(116);
            v.push(105);
            v.push(109);
            v.push(101);
            v.push(95);
            v.push(105);
            v.push(54);
            v.push(52);
            v.push(95);
            v.push(117);
            v.push(114);
            v.push(101);
            v.push(109);
        }
        LibCall::SremI64 => {
            v.push(119);
            v.push(97);
            v.push(115);
            v.push(109);
            v.push(116);
            v.push(105);
            v.push(109);
            v.push(101);
            v.push(95);
            v.push(105);
            v.push(54);
            v.push(52);
            v.push(95);
            v.push(115);
            v.push(114);
            v.push(101);
            v.push(109);
        }
        LibCall::IshlI64 => {
            v.push(119);
            v.push(97);
            v.push(115);
            v.push(109);
            v.push(116);
            v.push(105);
            v.push(109);
            v.push(101);
            v.push(95);
            v.push(105);
            v.push(54);
            v.push(52);
            v.push(95);
            v.push(105);
            v.push(115);
            v.push(104);
            v.push(108);
        }
        LibCall::UshrI64 => {
            v.push(119);
            v.push(97);
            v.push(115);
            v.push(109);
            v.push(116);
            v.push(105);
            v.push(109);
            v.push(101);
            v.push(95);
            v.push(105);
            v.push(54);
            v.push(52);
            v.push(95);
            v.push(117);
            v.push(115);
            v.push(104);
            v.push(114);
        }
        LibCall::SshrI64 => {
            v.push(119);
            v.push(97);
            v.push(115);
            v.push(109);
            v.push(116);
            v.push(105);
            v.push(109);
            v.push(101);
            v.push(95);
            v.push(105);
            v.push(54);
            v.push(52);
            v.push(95);
            v.push(115);
            v.push(115);
            v.push(104);
            v.push(114);
        }
        LibCall::CeilF32 => {
            v.push(119);
            v.push(97);
            v.push(115);
            v.push(109);
            v.push(116);
            v.push(105);
            v.push(109);
            v.push(101);
            v.push(95);
            v.push(102);
            v.push(51);
            v.push(50);
            v.push(95);
            v.push(99);
            v.push(101);
            v.push(105);
            v.push(108);
        }
        LibCall::FloorF32 => {
            v.push(119);
            v.push(97);
            v.push(115);
            v.push(109);
            v.push(116);
            v.push(105);
            v.push(109);
            v.push(101);
            v.push(95);
            v.push(102);
            v.push(51);
            v.push(50);
            v.push(95);
            v.push(102);
            v.push(108);
            v.push(111);
            v.push(111);
            v.push(114);
        }
        LibCall::TruncF32 => {
            v.push(119);
            v.push(97);
            v.push(115);
            v.push(109);
            v.push(116);
            v.push(105);
            v.push(109);
            v.push(101);
            v.push(95);
            v.push(102);
            v.push(51);
            v.push(50);
            v.push(95);
            v.push(116);
            v.push(114);
            v.push(117);
            v.push(110);
            v.push(99);
        }
        LibCall::NearestF32 => {
            v.push(119);
            v.push(97);
            v.push(115);
            v.push(109);
            v.push(116);
            v.push(105);
            v.push(109);
            v.push(101);
            v.push(95);
            v.push(102);
            v.push(51);
            v.push(50);
            v.push(95);
            v.push(110);
            v.push(101);
            v.push(97);
            v.push(114);
            v.push(101);
            v.push(115);
            v.push(116);
        }
        LibCall::CeilF64 => {
            v.push(119);
            v.push(97);
            v.push(115);
            v.push(109);
            v.push(116);
            v.push(105);
            v.push(109);
            v.push(101);
            v.push(95);
            v.push(102);
            v.push(54);
            v.push(52);
            v.push(95);
            v.push(99);
            v.push(101);
            v.push(105);
            v.push(108);
        }
        LibCall::FloorF64 => {
            v.push(119);
            v.push(97);
            v.push(115);
            v.push(109);
            v.push(116);
            v.push(105);
            v.push(109);
            v.push(101);
            v.push(95);
            v.push(102);
            v.push(54);
            v.push(52);
            v.push(95);
            v.push(102);
            v.push(108);
            v.push(111);
            v.push(111);
            v.push(114);
        }
        LibCall::TruncF64 => {
            v.push(119);
            v.push(97);
            v.push(115);
            v.push(109);
            v.push(116);
            v.push(105);
            v.push(109);
            v.push(101);
            v.push(95);
            v.push(102);
            v.push(54);
            v.push(52);
            v.push(95);
            v.push(116);
            v.push(114);
            v.push(117);
            v.push(110);
            v.push(99);
        }
        LibCall::NearestF64 => {
            v.push(119);
            v.push(97);
            v.push(115);
            v.push(109);
            v.push(116);
            v.push(105);
            v.push(109);
            v.push(101);
            v.push(95);
            v.push(102);
            v.push(54);
            v.push(52);
            v.push(95);
            v.push(110);
            v.push(101);
            v.push(97);
            v.push(114);
            v.push(101);
            v.push(115);
            v.push(116);
        }
    }
    proof {
        assert(v@ =~= libcall_name(c));
    }
    v
}

/// Maps a symbol name to the runtime library call it stands for.
pub fn to_libcall(name: &Vec<u8>) -> (r: Option<LibCall>)
    ensures
        r == spec_to_libcall(name@),
{
    if crate::debug::bytes_eq(name, &libcall_name_vec(LibCall::UdivI64)) {
        Some(LibCall::UdivI64)
    } else if crate::debug::bytes_eq(name, &libcall_name_vec(LibCall::SdivI64)) {
        Some(LibCall::SdivI64)
    } else if crate::debug::bytes_eq(name, &libcall_name_vec(LibCall::UremI64)) {
        Some(LibCall::UremI64)
    } else if crate::debug::bytes_eq(name, &libcall_name_vec(LibCall::SremI64)) {
        Some(LibCall::SremI64)
    } else if crate::debug::bytes_eq(name, &libcall_name_vec(LibCall::IshlI64)) {
        Some(LibCall::IshlI64)
    } else if crate::debug::bytes_eq(name, &libcall_name_vec(LibCall::UshrI64)) {
        Some(LibCall::UshrI64)
    } else if crate::debug::bytes_eq(name, &libcall_name_vec(LibCall::SshrI64)) {
        Some(LibCall::SshrI64)
    } else if crate::debug::bytes_eq(name, &libcall_name_vec(LibCall::CeilF32)) {
        Some(LibCall::CeilF32)
    } else if crate::debug::bytes_eq(name, &libcall_name_vec(LibCall::FloorF32)) {
        Some(LibCall::FloorF32)
    } else if crate::debug::bytes_eq(name, &libcall_name_vec(LibCall::TruncF32)) {
        Some(LibCall::TruncF32)
    } else if crate::debug::bytes_eq(name, &libcall_name_vec(LibCall::NearestF32)) {
        Some(LibCall::NearestF32)
    } else if crate::debug::bytes_eq(name, &libcall_name_vec(LibCall::CeilF64)) {
        Some(LibCall::CeilF64)
    } else if crate::debug::bytes_eq(name, &libcall_name_vec(LibCall::FloorF64)) {
        Some(LibCall::FloorF64)
    } else if crate::debug::bytes_eq(name, &libcall_name_vec(LibCall::TruncF64)) {
        Some(LibCall::TruncF64)
    } else if crate::debug::bytes_eq(name, &libcall_name_vec(LibCall::NearestF64)) {
        Some(LibCall::NearestF64)
    } else {
        None
    }
}

/// Whether every byte is an ASCII decimal digit.
pub open spec fn all_digits(s: Seq<u8>) -> bool {
    forall|k: int| 0 <= k < s.len() ==> 48 <= #[trigger] s[k] <= 57
}

/// The number an ASCII decimal digit string denotes.
pub open spec fn decimal_value(s: Seq<u8>) -> int
    decreases s.len(),
{
    if s.len() == 0 {
        0
    } else {
        decimal_value(s.take(s.len() - 1)) * 10 + (s.last() - 48)
    }
}

/// A digit string's value never shrinks as digits are appended.
proof fn lemma_decimal_nonneg(s: Seq<u8>)
    requires
        all_digits(s),
    ensures
        decimal_value(s) >= 0,
    decreases s.len(),
{
    if s.len() > 0 {
        assert(all_digits(s.take(s.len() - 1)));
        lemma_decimal_nonneg(s.take(s.len() - 1));
    }
}

/// Parses the decimal digits of `s` from position `from` to its end.
/// Succeeds exactly when at least one digit follows, every byte is a
/// digit, and the value fits `u32`.
pub fn parse_u32_decimal(s: &Vec<u8>, from: usize) -> (r: Option<u32>)
    requires
        from <= s@.len(),
    ensures
        match r {
            Some(v) => {
                &&& s@.len() > from
                &&& all_digits(s@.skip(from as int))
                &&& decimal_value(s@.skip(from as int)) == v
            }
            None => s@.len() == from || !all_digits(s@.skip(from as int)) || decimal_value(
                s@.skip(from as int),
            ) > u32::MAX,
        },
{
    let ghost digits = s@.skip(from as int);
    if from == s.len() {
        return None;
    }
    let mut acc: u64 = 0;
    let mut i: usize = from;
    proof {
        assert(digits.take(0) =~= Seq::<u8>::empty());
    }
    while i < s.len()
        invariant
            from <= i <= s@.len(),
            from < s@.len(),
            digits == s@.skip(from as int),
            all_digits(digits.take(i - from)),
            acc == decimal_value(digits.take(i - from)),
            acc <= u32::MAX,
        decreases s@.len() - i,
    {
        let b = s[i];
        if b < 48 || b > 57 {
            proof {
                assert(digits[i - from] == s@[i as int]);
                assert(!all_digits(digits));
            }
            return None;
        }
        let d = (b - 48) as u64;
        let next: u64 = acc * 10 + d;
        proof {
            assert(digits.take(i - from + 1).last() == s@[i as int]);
            assert(digits.take(i - from + 1).take(i - from) =~= digits.take(i - from));
            assert(all_digits(digits.take(i - from + 1)));
            assert(next == decimal_value(digits.take(i - from + 1)));
        }
        if next > 0xFFFF_FFFF {
            proof {
                if all_digits(digits) {
                    lemma_decimal_grows(digits, i - from + 1);
                }
            }
            return None;
        }
        acc = next;
        i = i + 1;
    }
    proof {
        assert(digits.take(s@.len() - from) =~= digits);
    }
    Some(acc as u32)
}

/// Once a digit prefix exceeds a bound, the whole string does.
proof fn lemma_decimal_grows(s: Seq<u8>, p: int)
    requires
        0 <= p <= s.len(),
        all_digits(s),
    ensures
        decimal_value(s) >= decimal_value(s.take(p)),
    decreases s.len() - p,
{
    if p < s.len() {
        lemma_decimal_grows(s, p + 1);
        assert(s.take(p + 1).take(p) =~= s.take(p));
        assert(all_digits(s.take(p)));
        lemma_decimal_nonneg(s.take(p));
        assert(s.take(p + 1).last() == s[p]);
        assert(decimal_value(s.take(p + 1)) == decimal_value(s.take(p)) * 10 + (s[p] - 48));
    } else {
        assert(s.take(p) =~= s);
    }
}

/// What a symbol name stands for.
#[derive(Clone, Copy, Debug, PartialEq, Eq, Structural)]
pub enum SymbolKind {
    /// A module function, `_wasm_function_` followed by its index.
    WasmFunction(u32),
    /// A trampoline, `_trampoline_` followed by its index.
    Trampoline(u32),
    /// A runtime library call, named `wasmtime_` and a suffix.
    Library,
    /// Anything else.
    Other,
}

/// The bytes of `_wasm_function_`.
pub open spec fn wasm_function_sym_prefix() -> Seq<u8> {
    seq![95u8, 119u8, 97u8, 115u8, 109u8, 95u8, 102u8, 117u8, 110u8, 99u8, 116u8, 105u8, 111u8, 110u8, 95u8]
}

/// The bytes of `_trampoline_`.
pub open spec fn trampoline_sym_prefix() -> Seq<u8> {
    seq![95u8, 116u8, 114u8, 97u8, 109u8, 112u8, 111u8, 108u8, 105u8, 110u8, 101u8, 95u8]
}

/// The bytes of `wasmtime_`.
pub open spec fn library_sym_prefix() -> Seq<u8> {
    seq![119u8, 97u8, 115u8, 109u8, 116u8, 105u8, 109u8, 101u8, 95u8]
}

/// Whether `s` starts with `prefix`.
pub open spec fn has_prefix(s: Seq<u8>, prefix: Seq<u8>) -> bool {
    s.len() >= prefix.len() && s.subrange(0, prefix.len() as int) == prefix
}

/// Tests whether `name` starts with `prefix`.
pub fn starts_with(name: &Vec<u8>, prefix: &Vec<u8>) -> (r: bool)
    ensures
        r == has_prefix(name@, prefix@),
{
    if name.len() < prefix.len() {
        proof {
            assert(!has_prefix(name@, prefix@));
        }
        return false;
    }
    let mut i: usize = 0;
    while i < prefix.len()
        invariant
            0 <= i <= prefix@.len(),
            name@.len() >= prefix@.len(),
            forall|k: int| 0 <= k < i ==> name@[k] == prefix@[k],
        decreases prefix@.len() - i,
    {
        if name[i] != prefix[i] {
            proof {
                assert(name@.subrange(0, prefix@.len() as int)[i as int] != prefix@[i as int]);
            }
            return false;
        }
        i = i + 1;
    }
    proof {
        assert(name@.subrange(0, prefix@.len() as int) =~= prefix@);
    }
    true
}

/// Builds the `_wasm_function_` prefix.
fn wasm_function_sym_prefix_vec() -> (r: Vec<u8>)
    ensures
        r@ == wasm_function_sym_prefix(),
{
    let mut v: Vec<u8> = Vec::new();
    v.push(95);
    v.push(119);
    v.push(97);
    v.push(115);
    v.push(109);
    v.push(95);
    v.push(102);
    v.push(117);
    v.push(110);
    v.push(99);
    v.push(116);
    v.push(105);
    v.push(111);
    v.push(110);
    v.push(95);
    proof {
        assert(v@ =~= wasm_function_sym_prefix());
    }
    v
}

/// Builds the `_trampoline_` prefix.
fn trampoline_sym_prefix_vec() -> (r: Vec<u8>)
    ensures
        r@ == trampoline_sym_prefix(),
{
    let mut v: Vec<u8> = Vec::new();
    v.push(95);
    v.push(116);
    v.push(114);
    v.push(97);
    v.push(109);
    v.push(112);
    v.push(111);
    v.push(108);
    v.push(105);
    v.push(110);
    v.push(101);
    v.push(95);
    proof {
        assert(v@ =~= trampoline_sym_prefix());
    }
    v
}

/// Builds the `wasmtime_` prefix.
fn library_sym_prefix_vec() -> (r: Vec<u8>)
    ensures
        r@ == library_sym_prefix(),
{
    let mut v: Vec<u8> = Vec::new();
    v.push(119);
    v.push(97);
    v.push(115);
    v.push(109);
    v.push(116);
    v.push(105);
    v.push(109);
    v.push(101);
    v.push(95);
    proof {
        assert(v@ =~= library_sym_prefix());
    }
    v
}

/// What a symbol name stands for: module function or trampoline with a
/// parsable index, a runtime library call, or something else. `None`
/// when a function or trampoline index does not parse as a `u32`.
pub open spec fn spec_symbol_kind(name: Seq<u8>) -> Option<SymbolKind> {
    if has_prefix(name, wasm_function_sym_prefix()) {
        let digits = name.skip(wasm_function_sym_prefix().len() as int);
        if digits.len() > 0 && all_digits(digits) && decimal_value(digits) <= u32::MAX {
            Some(SymbolKind::WasmFunction(decimal_value(digits) as u32))
        } else {
            None
        }
    } else if has_prefix(name, trampoline_sym_prefix()) {
        let digits = name.skip(trampoline_sym_prefix().len() as int);
        if digits.len() > 0 && all_digits(digits) && decimal_value(digits) <= u32::MAX {
            Some(SymbolKind::Trampoline(decimal_value(digits) as u32))
        } else {
            None
        }
    } else if has_prefix(name, library_sym_prefix()) {
        Some(SymbolKind::Library)
    } else {
        Some(SymbolKind::Other)
    }
}

/// Classifies a symbol name.
pub fn symbol_kind(name: &Vec<u8>) -> (r: Option<SymbolKind>)
    ensures
        r == spec_symbol_kind(name@),
{
    let wasm_prefix = wasm_function_sym_prefix_vec();
    if starts_with(name, &wasm_prefix) {
        proof {
            assert(name@.len() >= wasm_prefix@.len());
        }
        match parse_u32_decimal(name, wasm_prefix.len()) {
            Some(idx) => {
                return Some(SymbolKind::WasmFunction(idx));
            }
            None => {
                return None;
            }
        }
    }
    let tramp_prefix = trampoline_sym_prefix_vec();
    if starts_with(name, &tramp_prefix) {
        proof {
            assert(name@.len() >= tramp_prefix@.len());
        }
        match parse_u32_decimal(name, tramp_prefix.len()) {
            Some(idx) => {
                return Some(SymbolKind::Trampoline(idx));
            }
            None => {
                return None;
            }
        }
    }
    let lib_prefix = library_sym_prefix_vec();
    if starts_with(name, &lib_prefix) {
        return Some(SymbolKind::Library);
    }
    Some(SymbolKind::Other)
}

/// A symbol of an object image: its name, value and size, and whether
/// the image defines it.
#[derive(Clone, Debug, PartialEq, Eq)]
pub struct ObjSymbol {
    /// The symbol's name.
    pub name: Vec<u8>,
    /// The symbol's address within its section.
    pub address: u64,
    /// The symbol's size in bytes.
    pub size: u64,
    /// Whether the image defines the symbol.
    pub defined: bool,
}

/// Unwind information attached to one symbol of an object image.
#[derive(Debug)]
pub enum ObjectUnwindInfo {
    /// Unwind information of the module function with this index.
    Func(u32, UnwindInfo),
    /// Unwind information of the trampoline with this index.
    Trampoline(u32, UnwindInfo),
}

/// The kind of a relocation read from an object image.
#[derive(Clone, Copy, Debug, PartialEq, Eq, Structural)]
pub enum RawRelocKind {
    /// Absolute address.
    Absolute,
    /// PC-relative.
    Relative,
    /// PLT-relative.
    PltRelative,
    /// GOT-relative.
    GotRelative,
    /// An ELF-specific kind.
    Elf(u32),
    /// Anything else.
    Other,
}

/// The encoding of a relocation read from an object image.
#[derive(Clone, Copy, Debug, PartialEq, Eq, Structural)]
pub enum RawRelocEncoding {
    /// Generic encoding.
    Generic,
    /// x86 branch encoding.
    X86Branch,
    /// Anything else.
    Other,
}

/// One relocation read from an object image's text section.
#[derive(Clone, Copy, Debug, PartialEq, Eq, Structural)]
pub struct RawRelocation {
    /// Offset of the patch site within the section.
    pub offset: u64,
    /// The relocation's kind.
    pub kind: RawRelocKind,
    /// The relocation's encoding.
    pub encoding: RawRelocEncoding,
    /// The relocation's size in bits.
    pub size: u8,
    /// Index of the target symbol in the image's symbol list.
    pub symbol: usize,
    /// The relocation's addend.
    pub addend: i64,
}

/// The JIT relocation kind a raw kind, encoding and bit size stand for,
/// if this runtime can apply it.
pub open spec fn spec_reloc_kind(
    kind: RawRelocKind,
    encoding: RawRelocEncoding,
    size: u8,
) -> Option<RelocKind> {
    if kind == RawRelocKind::Absolute && encoding == RawRelocEncoding::Generic && size == 32 {
        Some(RelocKind::Abs4)
    } else if kind == RawRelocKind::Absolute && encoding == RawRelocEncoding::Generic && size
        == 64 {
        Some(RelocKind::Abs8)
    } else if kind == RawRelocKind::Relative && encoding == RawRelocEncoding::Generic && size
        == 32 {
        Some(RelocKind::X86PCRel4)
    } else if kind == RawRelocKind::Relative && encoding == RawRelocEncoding::X86Branch && size
        == 32 {
        Some(RelocKind::X86CallPCRel4)
    } else if kind == RawRelocKind::PltRelative && encoding == RawRelocEncoding::X86Branch && size
        == 32 {
        Some(RelocKind::X86CallPLTRel4)
    } else if kind == RawRelocKind::GotRelative && encoding == RawRelocEncoding::Generic && size
        == 32 {
        Some(RelocKind::X86GOTPCRel4)
    } else if kind == RawRelocKind::Elf(19) && encoding == RawRelocEncoding::Generic && size
        == 32 {
        Some(RelocKind::ElfX86_64TlsGd)
    } else {
        None
    }
}

/// What a relocation against the symbol named `name` refers to: a
/// module function by its index, or a runtime library call.
pub open spec fn spec_relocation_target(name: Seq<u8>) -> Option<RelocationTarget> {
    match spec_symbol_kind(name) {
        Some(SymbolKind::WasmFunction(n)) => Some(RelocationTarget::UserFunc(n)),
        Some(SymbolKind::Library) => match spec_to_libcall(name) {
            Some(c) => Some(RelocationTarget::LibCall(c)),
            None => None,
        },
        _ => None,
    }
}

/// Converts one relocation read from an object image into a JIT
/// relocation: the kind triple must be one this runtime applies, the
/// target symbol must name a module function or a known library call,
/// and the patch offset must fit the JIT's 32-bit offsets. The addend
/// is carried by the patch site itself, so the record's addend is zero.
pub fn to_cranelift_relocation(raw: &RawRelocation, symbols: &Vec<ObjSymbol>) -> (r: Result<
    RelocationEntry,
    CodeMemoryError,
>)
    ensures
        match r {
            Ok(rel) => {
                &&& raw.symbol < symbols@.len()
                &&& raw.offset <= u32::MAX
                &&& spec_reloc_kind(raw.kind, raw.encoding, raw.size) == Some(rel.reloc)
                &&& spec_relocation_target(symbols@[raw.symbol as int].name@) == Some(
                    rel.reloc_target,
                )
                &&& rel.offset == raw.offset
                &&& rel.addend == 0
            }
            Err(e) => {
                ||| (e == CodeMemoryError::UnsupportedRelocation && (spec_reloc_kind(
                    raw.kind,
                    raw.encoding,
                    raw.size,
                ) is None || raw.offset > u32::MAX))
                ||| (e == CodeMemoryError::UnknownSymbol && (raw.symbol >= symbols@.len()
                    || spec_relocation_target(symbols@[raw.symbol as int].name@) is None))
            }
        },
{
    let kind = if raw.kind == RawRelocKind::Absolute && raw.encoding == RawRelocEncoding::Generic
        && raw.size == 32 {
        RelocKind::Abs4
    } else if raw.kind == RawRelocKind::Absolute && raw.encoding == RawRelocEncoding::Generic
        && raw.size == 64 {
        RelocKind::Abs8
    } else if raw.kind == RawRelocKind::Relative && raw.encoding == RawRelocEncoding::Generic
        && raw.size == 32 {
        RelocKind::X86PCRel4
    } else if raw.kind == RawRelocKind::Relative && raw.encoding == RawRelocEncoding::X86Branch
        && raw.size == 32 {
        RelocKind::X86CallPCRel4
    } else if raw.kind == RawRelocKind::PltRelative && raw.encoding == RawRelocEncoding::X86Branch
        && raw.size == 32 {
        RelocKind::X86CallPLTRel4
    } else if raw.kind == RawRelocKind::GotRelative && raw.encoding == RawRelocEncoding::Generic
        && raw.size == 32 {
        RelocKind::X86GOTPCRel4
    } else if raw.kind == RawRelocKind::Elf(19) && raw.encoding == RawRelocEncoding::Generic
        && raw.size == 32 {
        RelocKind::ElfX86_64TlsGd
    } else {
        return Err(CodeMemoryError::UnsupportedRelocation);
    };
    if raw.offset > 0xFFFF_FFFF {
        return Err(CodeMemoryError::UnsupportedRelocation);
    }
    if raw.symbol >= symbols.len() {
        return Err(CodeMemoryError::UnknownSymbol);
    }
    let name = &symbols[raw.symbol].name;
    let target = match symbol_kind(name) {
        Some(SymbolKind::WasmFunction(n)) => RelocationTarget::UserFunc(n),
        Some(SymbolKind::Library) => match to_libcall(name) {
            Some(c) => RelocationTarget::LibCall(c),
            None => {
                return Err(CodeMemoryError::UnknownSymbol);
            }
        },
        _ => {
            return Err(CodeMemoryError::UnknownSymbol);
        }
    };
    Ok(
        RelocationEntry {
            reloc: kind,
            reloc_target: target,
            offset: raw.offset as u32,
            addend: 0,
        },
    )
}

/// A list of indexed address ranges is strictly sorted by index.
pub open spec fn sorted_indexed(s: Seq<(u32, u64, u64)>) -> bool {
    forall|i: int, j: int| 0 <= i < j < s.len() ==> (#[trigger] s[i]).0 < (#[trigger] s[j]).0
}

/// `s` with `e` recorded in index order: before the first record with
/// a larger index, replacing a record with the same index.
pub open spec fn insert_sorted(s: Seq<(u32, u64, u64)>, e: (u32, u64, u64)) -> Seq<(u32, u64, u64)>
    decreases s.len(),
{
    if s.len() == 0 {
        seq![e]
    } else if s[0].0 < e.0 {
        seq![s[0]] + insert_sorted(s.skip(1), e)
    } else if s[0].0 == e.0 {
        seq![e] + s.skip(1)
    } else {
        seq![e] + s
    }
}

/// The recording position determines the inserted shape: at the first
/// record with an index at least `e`'s, either replacing or inserting.
proof fn lemma_insert_sorted_at(s: Seq<(u32, u64, u64)>, e: (u32, u64, u64), pos: int)
    requires
        0 <= pos <= s.len(),
        forall|k: int| 0 <= k < pos ==> (#[trigger] s[k]).0 < e.0,
        pos < s.len() ==> s[pos].0 >= e.0,
    ensures
        pos < s.len() && s[pos].0 == e.0 ==> insert_sorted(s, e) == s.update(pos, e),
        !(pos < s.len() && s[pos].0 == e.0) ==> insert_sorted(s, e) == s.take(pos).push(e)
            + s.skip(pos),
    decreases pos,
{
    if pos == 0 {
        if s.len() == 0 {
            assert(insert_sorted(s, e) =~= s.take(0).push(e) + s.skip(0));
        } else if s[0].0 == e.0 {
            assert(insert_sorted(s, e) =~= s.update(0, e));
        } else {
            assert(insert_sorted(s, e) =~= s.take(0).push(e) + s.skip(0));
        }
    } else {
        assert(s[0].0 < e.0);
        let rest = s.skip(1);
        assert(forall|k: int| 0 <= k < pos - 1 ==> (#[trigger] rest[k]).0 < e.0) by {
            assert(forall|k: int| 0 <= k < rest.len() ==> #[trigger] rest[k] == s[k + 1]);
        }
        assert(pos - 1 < rest.len() ==> rest[pos - 1].0 >= e.0);
        lemma_insert_sorted_at(rest, e, pos - 1);
        if pos < s.len() && s[pos].0 == e.0 {
            assert(insert_sorted(s, e) =~= s.update(pos, e)) by {
                assert(insert_sorted(s, e) == seq![s[0]] + insert_sorted(rest, e));
                assert(insert_sorted(rest, e) == rest.update(pos - 1, e));
            }
        } else {
            assert(insert_sorted(s, e) =~= s.take(pos).push(e) + s.skip(pos)) by {
                assert(insert_sorted(s, e) == seq![s[0]] + insert_sorted(rest, e));
                assert(insert_sorted(rest, e) == rest.take(pos - 1).push(e) + rest.skip(pos - 1));
                assert(rest.take(pos - 1) =~= s.take(pos).skip(1));
                assert(rest.skip(pos - 1) =~= s.skip(pos));
            }
        }
    }
}

/// Records `(idx, addr, size)` keeping the list strictly sorted by
/// index; a record with the same index is replaced.
fn insert_indexed(v: &mut Vec<(u32, u64, u64)>, idx: u32, addr: u64, size: u64)
    requires
        sorted_indexed(old(v)@),
    ensures
        final(v)@ == insert_sorted(old(v)@, (idx, addr, size)),
        sorted_indexed(final(v)@),
        final(v)@.len() <= old(v)@.len() + 1,
{
    let mut pos: usize = 0;
    while pos < v.len() && v[pos].0 < idx
        invariant
            0 <= pos <= v@.len(),
            sorted_indexed(v@),
            *v == *old(v),
            forall|k: int| 0 <= k < pos ==> (#[trigger] v@[k]).0 < idx,
        decreases v@.len() - pos,
    {
        pos = pos + 1;
    }
    proof {
        lemma_insert_sorted_at(v@, (idx, addr, size), pos as int);
    }
    if pos < v.len() && v[pos].0 == idx {
        let p = pos;
        v[pos] = (idx, addr, size);
        proof {
            assert(v@ =~= insert_sorted(old(v)@, (idx, addr, size)));
            assert forall|i: int, j: int| 0 <= i < j < v@.len() implies (#[trigger] v@[i]).0 < (
            #[trigger] v@[j]).0 by {
                assert((old(v)@[i]).0 < (old(v)@[j]).0);
            }
        }
    } else {
        v.insert(pos, (idx, addr, size));
        proof {
            assert(v@ =~= insert_sorted(old(v)@, (idx, addr, size))) by {
                assert(v@ =~= old(v)@.take(pos as int).push((idx, addr, size)) + old(v)@.skip(
                    pos as int,
                ));
            }
            assert forall|i: int, j: int| 0 <= i < j < v@.len() implies (#[trigger] v@[i]).0 < (
            #[trigger] v@[j]).0 by {
                if j < pos {
                    assert(v@[i] == old(v)@[i]);
                    assert(v@[j] == old(v)@[j]);
                } else if i > pos {
                    assert(v@[i] == old(v)@[i - 1]);
                    assert(v@[j] == old(v)@[j - 1]);
                } else if i == pos {
                    assert(v@[j] == old(v)@[j - 1]);
                    assert((old(v)@[j - 1]).0 >= idx);
                    assert((old(v)@[j - 1]).0 != idx || j - 1 == pos);
                } else if j == pos {
                    assert(v@[i] == old(v)@[i]);
                } else {
                    assert(v@[i] == old(v)@[i]);
                    assert(v@[j] == old(v)@[j - 1]);
                }
            }
        }
    }
}

/// The first record with index `idx`, if the list has one.
pub open spec fn table_find(s: Seq<(u32, u64, u64)>, idx: u32) -> Option<(u64, u64)>
    decreases s.len(),
{
    if s.len() == 0 {
        None
    } else if s[0].0 == idx {
        Some((s[0].1, s[0].2))
    } else {
        table_find(s.skip(1), idx)
    }
}

/// Finds the record with index `idx`.
fn find_indexed(v: &Vec<(u32, u64, u64)>, idx: u32) -> (r: Option<(u64, u64)>)
    ensures
        r == table_find(v@, idx),
{
    let mut i: usize = 0;
    proof {
        assert(v@.skip(0) =~= v@);
    }
    while i < v.len()
        invariant
            0 <= i <= v@.len(),
            table_find(v@, idx) == table_find(v@.skip(i as int), idx),
        decreases v@.len() - i,
    {
        let ghost rest = v@.skip(i as int);
        proof {
            assert(rest[0] == v@[i as int]);
            assert(rest.skip(1) =~= v@.skip(i + 1));
        }
        let e = v[i];
        if e.0 == idx {
            return Some((e.1, e.2));
        }
        i = i + 1;
    }
    proof {
        assert(v@.skip(v@.len() as int) =~= Seq::<(u32, u64, u64)>::empty());
    }
    None
}

/// The table of module functions an image's symbols define: for each
/// defined symbol named `_wasm_function_` and an index, its index,
/// address and size, in index order, a later symbol replacing an
/// earlier one with the same index.
pub open spec fn func_table(syms: Seq<(Seq<u8>, u64, u64, bool)>) -> Seq<(u32, u64, u64)>
    decreases syms.len(),
{
    if syms.len() == 0 {
        Seq::empty()
    } else {
        let rest = func_table(syms.take(syms.len() - 1));
        let s = syms.last();
        match spec_symbol_kind(s.0) {
            Some(SymbolKind::WasmFunction(i)) => if s.3 {
                insert_sorted(rest, (i, s.1, s.2))
            } else {
                rest
            },
            _ => rest,
        }
    }
}

/// The table of trampolines an image's symbols name, like `func_table`
/// but for `_trampoline_` symbols, defined or not.
pub open spec fn trampoline_table(syms: Seq<(Seq<u8>, u64, u64, bool)>) -> Seq<(u32, u64, u64)>
    decreases syms.len(),
{
    if syms.len() == 0 {
        Seq::empty()
    } else {
        let rest = trampoline_table(syms.take(syms.len() - 1));
        let s = syms.last();
        match spec_symbol_kind(s.0) {
            Some(SymbolKind::Trampoline(i)) => insert_sorted(rest, (i, s.1, s.2)),
            _ => rest,
        }
    }
}

/// The contents of an object image's text section, when the image
/// parses and has one.
pub uninterp spec fn object_text(image: Seq<u8>) -> Option<Seq<u8>>;

/// The symbols of an object image — name, address, size, defined — in
/// the image's order, when the image parses.
pub uninterp spec fn object_symbol_list(image: Seq<u8>) -> Option<
    Seq<(Seq<u8>, u64, u64, bool)>,
>;

/// Relies on object's read::File: parses an ELF or other object image
/// and returns the raw contents of its `.text` section. `None` when the
/// image does not parse, has no text section, or its data cannot be
/// read.
#[verifier::external_body]
fn obj_text_section(obj: &Vec<u8>) -> (r: Option<Vec<u8>>)
    ensures
        match r {
            Some(v) => object_text(obj@) == Some(v@),
            None => object_text(obj@) is None,
        },
{
    let file = match object::read::File::parse(obj.as_slice()) {
        Ok(f) => f,
        Err(_) => return None,
    };
    let section = object::read::Object::section_by_name(&file, ".text")?;
    let data = object::read::ObjectSection::data(&section).ok()?;
    Some(data.to_vec())
}

/// Relies on object's read::File: lists the symbols of an object image
/// as name bytes, address, size and whether a section defines them, in
/// the image's order. `None` when the image does not parse.
#[verifier::external_body]
fn obj_symbols(obj: &Vec<u8>) -> (r: Option<Vec<ObjSymbol>>)
    ensures
        match r {
            Some(v) => object_symbol_list(obj@) == Some(
                v@.map_values(|s: ObjSymbol| (s.name@, s.address, s.size, s.defined)),
            ),
            None => object_symbol_list(obj@) is None,
        },
{
    let file = match object::read::File::parse(obj.as_slice()) {
        Ok(f) => f,
        Err(_) => return None,
    };
    let mut out = Vec::new();
    for sym in object::read::Object::symbols(&file) {
        out.push(ObjSymbol {
            name: object::read::ObjectSymbol::name_bytes(&sym).unwrap_or(&[]).to_vec(),
            address: object::read::ObjectSymbol::address(&sym),
            size: object::read::ObjectSymbol::size(&sym),
            defined: object::read::ObjectSymbol::section_index(&sym).is_some(),
        });
    }
    Some(out)
}

#[verifier::external_type_specification]
#[verifier::external_body]
pub struct ExReadRelocation(object::read::Relocation);

/// Relies on object's read::File: lists the relocations of the text
/// section with the offset of each, in the image's order. `None` when
/// the image does not parse or has no text section.
#[verifier::external_body]
fn obj_text_relocations(obj: &Vec<u8>) -> (r: Option<Vec<(u64, object::read::Relocation)>>)
{
    let file = match object::read::File::parse(obj.as_slice()) {
        Ok(f) => f,
        Err(_) => return None,
    };
    let section = object::read::Object::section_by_name(&file, ".text")?;
    Some(object::read::ObjectSection::relocations(&section).collect())
}

/// Relies on object's read::RelocationEntry::kind and flags: the operation
/// of the relocation, with ELF-specific operations by their raw type.
#[verifier::external_body]
fn reloc_kind_of(rel: &object::read::Relocation) -> RawRelocKind {
    match rel.kind() {
        object::RelocationKind::Absolute => RawRelocKind::Absolute,
        object::RelocationKind::Relative => RawRelocKind::Relative,
        object::RelocationKind::PltRelative => RawRelocKind::PltRelative,
        object::RelocationKind::GotRelative => RawRelocKind::GotRelative,
        _ => match rel.flags() {
            object::RelocationFlags::Elf { r_type } => RawRelocKind::Elf(r_type.0),
            _ => RawRelocKind::Other,
        },
    }
}

/// Relies on object's read::RelocationEntry::encoding.
#[verifier::external_body]
fn reloc_encoding_of(rel: &object::read::Relocation) -> RawRelocEncoding {
    match rel.encoding() {
        object::RelocationEncoding::Generic => RawRelocEncoding::Generic,
        object::RelocationEncoding::X86Branch => RawRelocEncoding::X86Branch,
        _ => RawRelocEncoding::Other,
    }
}

/// Relies on object's read::RelocationEntry::size: the relocation's size in
/// bits.
#[verifier::external_body]
fn reloc_size_of(rel: &object::read::Relocation) -> u8 {
    rel.size()
}

/// Relies on object's read::RelocationEntry::target: the index of the
/// target symbol, or the largest index when the target is no symbol.
#[verifier::external_body]
fn reloc_symbol_of(rel: &object::read::Relocation) -> usize {
    match rel.target() {
        object::read::RelocationTarget::Symbol(i) => i.0,
        _ => usize::MAX,
    }
}

/// Relies on object's read::RelocationEntry::addend.
#[verifier::external_body]
fn reloc_addend_of(rel: &object::read::Relocation) -> i64 {
    rel.addend()
}

/// Reads one relocation's fields into a plain record.
fn raw_reloc_of(offset: u64, rel: &object::read::Relocation) -> (r: RawRelocation)
    ensures
        r.offset == offset,
{
    RawRelocation {
        offset,
        kind: reloc_kind_of(rel),
        encoding: reloc_encoding_of(rel),
        size: reloc_size_of(rel),
        symbol: reloc_symbol_of(rel),
        addend: reloc_addend_of(rel),
    }
}

impl CodeMemoryEntry {
    /// Copies a raw block to the arena's frontier and advances it,
    /// keeping it four-byte aligned. Registrations and relocation
    /// records are untouched.
    fn copy_block(&mut self, data: &Vec<u8>) -> (start: usize)
        requires
            old(self).wf(),
            writable_entry(*old(self)),
            old(self).len + data@.len() <= old(self).mmap.bytes@.len(),
        ensures
            final(self).wf(),
            writable_entry(*final(self)),
            start == old(self).len,
            final(self).base == old(self).base,
            final(self).mmap.bytes@.len() == old(self).mmap.bytes@.len(),
            final(self).len == old(self).len + align4(data@.len() as int),
            final(self).mmap.bytes@.subrange(start as int, start + data@.len()) == data@,
            forall|k: int|
                0 <= k < start ==> final(self).mmap.bytes@[k] == old(self).mmap.bytes@[k],
            final(self).registry == old(self).registry,
            final(self).relocs == old(self).relocs,
    {
        let ghost pre = *old(self);
        let start = self.len;
        let mut i: usize = 0;
        while i < data.len()
            invariant
                0 <= i <= data@.len(),
                start + data@.len() <= self.mmap.bytes@.len(),
                self.mmap.bytes@.len() <= usize::MAX,
                self.mmap.bytes@.len() == pre.mmap.bytes@.len(),
                self.base == pre.base,
                self.len == pre.len,
                self.registry == pre.registry,
                self.relocs == pre.relocs,
                self.mmap.protection == pre.mmap.protection,
                start == pre.len,
                forall|k: int| 0 <= k < start ==> self.mmap.bytes@[k] == pre.mmap.bytes@[k],
                forall|k: int|
                    start <= k < start + i ==> self.mmap.bytes@[k] == data@[k - start],
                forall|k: int|
                    start + i <= k < self.mmap.bytes@.len() ==> self.mmap.bytes@[k]
                        == pre.mmap.bytes@[k],
            decreases data@.len() - i,
        {
            let b = data[i];
            self.mmap.bytes[start + i] = b;
            i = i + 1;
        }
        proof {
            lemma_align4(data@.len() as int);
            lemma_align4_add(start as int, data@.len() as int);
            lemma_align4_fits(start as int, data@.len() as int, self.mmap.bytes@.len() as int);
        }
        let new_len = start + ((data.len() + 3) / 4) * 4;
        self.len = new_len;
        proof {
            assert(self.mmap.bytes@.subrange(start as int, start + data@.len()) =~= data@);
            assert forall|k: int| self.len <= k < self.mmap.bytes@.len() implies
                self.mmap.bytes@[k] == 0 by {
                assert(self.mmap.bytes@[k] == pre.mmap.bytes@[k]);
            }
            assert(self.wf());
        }
        start
    }

    /// Records one group of pending relocations for the allocation that
    /// starts at `start`.
    fn push_reloc_group(&mut self, start: u32, relocs: Vec<RelocationEntry>)
        requires
            old(self).wf(),
            start <= old(self).len,
        ensures
            final(self).wf(),
            final(self).mmap == old(self).mmap,
            final(self).base == old(self).base,
            final(self).len == old(self).len,
            final(self).registry == old(self).registry,
            final(self).relocs@ == old(self).relocs@.push((start, relocs)),
            writable_entry(*old(self)) ==> writable_entry(*final(self)),
    {
        self.relocs.push((start, relocs));
    }
}

impl CodeMemory {
    /// Ingests an externally linked object image: copies its text
    /// section whole into a writable arena, registers the given unwind
    /// information against the module-function and trampoline symbols
    /// the image defines, and records the text section's relocations.
    /// Returns the absolute address ranges of the module functions and
    /// of the trampolines, each list ordered by symbol index. An image
    /// without text yields empty lists and leaves the memory untouched.
    /// The text section's relocation records are the one read whose
    /// outcome no contract names; every other failure is pinned to its
    /// cause below, and `to_cranelift_relocation` fixes what each
    /// recorded relocation is for every value that read can return.
    #[verifier::rlimit(100)]
    #[verifier::spinoff_prover]
    pub fn allocate_for_object(&mut self, obj: &Vec<u8>, unwind_info: Vec<ObjectUnwindInfo>) -> (r:
        Result<(Vec<(usize, usize)>, Vec<(usize, usize)>), CodeMemoryError>)
        requires
            old(self).wf(),
        ensures
            final(self).wf(),
            final(self).published == old(self).published,
            forall|i: int|
                0 <= i < old(self).entries@.len() ==> final(self).entries@[i] == old(
                    self,
                ).entries@[i],
            object_text(obj@) is None ==> r == Err::<
                (Vec<(usize, usize)>, Vec<(usize, usize)>),
                CodeMemoryError,
            >(CodeMemoryError::ObjectParse),
            (match object_text(obj@) {
                Some(t) => t.len() == 0,
                None => false,
            }) ==> (match r {
                Ok(p) => p.0@.len() == 0 && p.1@.len() == 0,
                Err(_) => false,
            }) && *final(self) == *old(self),
            (match object_text(obj@) {
                Some(t) => t.len() >= 0xFFFE_0000,
                None => false,
            }) ==> r == Err::<
                (Vec<(usize, usize)>, Vec<(usize, usize)>),
                CodeMemoryError,
            >(CodeMemoryError::ObjectParse),
            (match object_text(obj@) {
                Some(t) => 0 < t.len() < 0xFFFE_0000 && object_symbol_list(obj@) is None,
                None => false,
            }) ==> r == Err::<
                (Vec<(usize, usize)>, Vec<(usize, usize)>),
                CodeMemoryError,
            >(CodeMemoryError::ObjectParse),
            (match (object_text(obj@), object_symbol_list(obj@)) {
                (Some(t), Some(syms)) => 0 < t.len() < 0xFFFE_0000 && exists|k: int|
                    0 <= k < syms.len() && spec_symbol_kind((#[trigger] syms[k]).0) is None,
                _ => false,
            }) ==> r == Err::<
                (Vec<(usize, usize)>, Vec<(usize, usize)>),
                CodeMemoryError,
            >(CodeMemoryError::UnknownSymbol),
            r == Err::<(Vec<(usize, usize)>, Vec<(usize, usize)>), CodeMemoryError>(
                CodeMemoryError::AddressSpaceExhausted,
            ) ==> (match object_text(obj@) {
                Some(t) => needs_new_arena(*old(self), t.len() as int) && old(self).next_base
                    + page_round(grown_capacity(t.len() as int)) > usize::MAX,
                None => false,
            }),
            match r {
                Ok(p) => match (final(self).current, object_text(obj@), object_symbol_list(obj@)) {
                    (Some(c), Some(t), Some(syms)) => t.len() == 0 || ({
                        let fresh = needs_new_arena(*old(self), t.len() as int);
                        let start = if fresh {
                            0int
                        } else {
                            old(self).current->0.len as int
                        };
                        let reg0 = if fresh {
                            0int
                        } else {
                            old(self).current->0.registry.entries@.len() as int
                        };
                        let rel0 = if fresh {
                            0int
                        } else {
                            old(self).current->0.relocs@.len() as int
                        };
                        let funcs = func_table(syms);
                        let trampolines = trampoline_table(syms);
                        &&& c.len == start + align4(t.len() as int)
                        &&& c.mmap.bytes@.subrange(start, start + t.len()) == t
                        &&& p.0@.len() == funcs.len()
                        &&& forall|i: int|
                            0 <= i < funcs.len() ==> #[trigger] p.0@[i] == (
                                ((c.base + start + funcs[i].1) as usize),
                                (funcs[i].2 as usize),
                            )
                        &&& p.1@.len() == trampolines.len()
                        &&& forall|i: int|
                            0 <= i < trampolines.len() ==> #[trigger] p.1@[i] == (
                                ((c.base + start + trampolines[i].1) as usize),
                                (trampolines[i].2 as usize),
                            )
                        &&& c.registry.entries@.len() == reg0 + unwind_info@.len()
                        &&& (!fresh ==> c.registry.entries@.take(reg0) == old(
                            self,
                        ).current->0.registry.entries@)
                        &&& forall|u: int|
                            0 <= u < unwind_info@.len() ==> match #[trigger] unwind_info@[u] {
                                ObjectUnwindInfo::Func(idx, info) => ({
                                    let found = table_find(funcs, idx);
                                    &&& found is Some
                                    &&& c.registry.entries@[reg0 + u].offset == start
                                        + (found->0).0
                                    &&& c.registry.entries@[reg0 + u].len == (found->0).1
                                    &&& crate::unwind::unwind_info_equiv(
                                        c.registry.entries@[reg0 + u].info,
                                        info,
                                    )
                                }),
                                ObjectUnwindInfo::Trampoline(idx, info) => ({
                                    let found = table_find(trampolines, idx);
                                    &&& found is Some
                                    &&& c.registry.entries@[reg0 + u].offset == start
                                        + (found->0).0
                                    &&& c.registry.entries@[reg0 + u].len == (found->0).1
                                    &&& crate::unwind::unwind_info_equiv(
                                        c.registry.entries@[reg0 + u].info,
                                        info,
                                    )
                                }),
                            }
                        &&& c.relocs@.len() == rel0 + 1
                        &&& (!fresh ==> c.relocs@.take(rel0) == old(self).current->0.relocs@)
                        &&& (c.relocs@.last().0 == start)
                    }),
                    (_, Some(t), _) => t.len() == 0,
                    _ => false,
                },
                Err(_) => true,
            },
    {
        let text = match obj_text_section(obj) {
            Some(t) => t,
            None => {
                return Err(CodeMemoryError::ObjectParse);
            }
        };
        if text.len() == 0 {
            return Ok((Vec::new(), Vec::new()));
        }
        if text.len() >= 0xFFFE_0000 {
            return Err(CodeMemoryError::ObjectParse);
        }
        let symbols = match obj_symbols(obj) {
            Some(v) => v,
            None => {
                return Err(CodeMemoryError::ObjectParse);
            }
        };
        let ghost mapped = symbols@.map_values(|s: ObjSymbol| (s.name@, s.address, s.size, s.defined));

        // Classify the image's symbols.
        let mut funcs: Vec<(u32, u64, u64)> = Vec::new();
        let mut trampolines: Vec<(u32, u64, u64)> = Vec::new();
        let mut s: usize = 0;
        proof {
            assert(mapped.take(0) =~= Seq::<(Seq<u8>, u64, u64, bool)>::empty());
        }
        while s < symbols.len()
            invariant
                0 <= s <= symbols@.len(),
                mapped == symbols@.map_values(
                    |q: ObjSymbol| (q.name@, q.address, q.size, q.defined),
                ),
                sorted_indexed(funcs@),
                sorted_indexed(trampolines@),
                funcs@ == func_table(mapped.take(s as int)),
                trampolines@ == trampoline_table(mapped.take(s as int)),
                forall|k: int|
                    0 <= k < s ==> spec_symbol_kind((#[trigger] mapped[k]).0) is Some,
                *self == *old(self),
                old(self).wf(),
                object_text(obj@) == Some(text@),
                0 < text@.len() < 0xFFFE_0000,
                object_symbol_list(obj@) == Some(mapped),
            decreases symbols@.len() - s,
        {
            let sym = &symbols[s];
            proof {
                assert(mapped[s as int] == (sym.name@, sym.address, sym.size, sym.defined));
                assert(mapped.take(s + 1).take(s as int) =~= mapped.take(s as int));
                assert(mapped.take(s + 1).last() == mapped[s as int]);
            }
            match symbol_kind(&sym.name) {
                Some(SymbolKind::WasmFunction(idx)) => {
                    if sym.defined {
                        insert_indexed(&mut funcs, idx, sym.address, sym.size);
                    }
                }
                Some(SymbolKind::Trampoline(idx)) => {
                    insert_indexed(&mut trampolines, idx, sym.address, sym.size);
                }
                Some(_) => {}
                None => {
                    proof {
                        assert(spec_symbol_kind(mapped[s as int].0) is None);
                    }
                    return Err(CodeMemoryError::UnknownSymbol);
                }
            }
            s = s + 1;
        }
        proof {
            assert(mapped.take(mapped.len() as int) =~= mapped);
        }

        // Read and convert the text section's relocations.
        let raw_relocs = match obj_text_relocations(obj) {
            Some(v) => v,
            None => {
                return Err(CodeMemoryError::ObjectParse);
            }
        };
        let mut converted: Vec<RelocationEntry> = Vec::new();
        let mut cr: usize = 0;
        while cr < raw_relocs.len()
            invariant
                *self == *old(self),
                old(self).wf(),
                object_text(obj@) == Some(text@),
                0 < text@.len() < 0xFFFE_0000,
                object_symbol_list(obj@) == Some(mapped),
                forall|k: int|
                    0 <= k < mapped.len() ==> spec_symbol_kind((#[trigger] mapped[k]).0) is Some,
            decreases raw_relocs@.len() - cr,
        {
            let pair = &raw_relocs[cr];
            let raw = raw_reloc_of(pair.0, &pair.1);
            match to_cranelift_relocation(&raw, &symbols) {
                Ok(rel) => {
                    converted.push(rel);
                }
                Err(e) => {
                    return Err(e);
                }
            }
            cr = cr + 1;
        }

        // Make room for the text section.
        let need_new = match &self.current {
            Some(e) => e.mmap.bytes.len() - e.len < text.len(),
            None => true,
        };
        proof {
            assert(need_new == needs_new_arena(*old(self), text@.len() as int));
        }
        if need_new {
            match self.push_current(text.len()) {
                Ok(()) => {}
                Err(e) => {
                    return Err(e);
                }
            }
        }
        let start: usize;
        let base: usize;
        match &self.current {
            Some(e) => {
                start = e.len;
                base = e.base;
            }
            None => {
                proof {
                    assert(false);
                }
                return Err(CodeMemoryError::ObjectParse);
            }
        }
        let ghost after_room = *self;
        proof {
            assert(after_room.wf());
            assert(after_room.published == old(self).published);
            assert(forall|i: int|
                0 <= i < old(self).entries@.len() ==> after_room.entries@[i] == old(
                    self,
                ).entries@[i]);
            assert(after_room.current is Some);
            assert(start <= 0xFFFF_F000);
            if need_new {
                assert(start == 0);
            } else {
                assert(after_room.current->0 == old(self).current->0);
            }
        }

        // Resolve the unwind registrations before touching memory.
        let mut regs: Vec<(u32, u32, UnwindInfo)> = Vec::new();
        let mut u: usize = 0;
        while u < unwind_info.len()
            invariant
                0 <= u <= unwind_info@.len(),
                start <= 0xFFFF_F000,
                regs@.len() == u,
                funcs@ == func_table(mapped),
                trampolines@ == trampoline_table(mapped),
                forall|k: int|
                    0 <= k < u ==> match #[trigger] unwind_info@[k] {
                        ObjectUnwindInfo::Func(idx, info) => ({
                            let found = table_find(funcs@, idx);
                            &&& found is Some
                            &&& regs@[k].0 == start + (found->0).0
                            &&& regs@[k].1 == (found->0).1
                            &&& crate::unwind::unwind_info_equiv(regs@[k].2, info)
                        }),
                        ObjectUnwindInfo::Trampoline(idx, info) => ({
                            let found = table_find(trampolines@, idx);
                            &&& found is Some
                            &&& regs@[k].0 == start + (found->0).0
                            &&& regs@[k].1 == (found->0).1
                            &&& crate::unwind::unwind_info_equiv(regs@[k].2, info)
                        }),
                    },
                *self == after_room,
                after_room.wf(),
                after_room.published == old(self).published,
                forall|i: int|
                    0 <= i < old(self).entries@.len() ==> after_room.entries@[i] == old(
                        self,
                    ).entries@[i],
                after_room.current is Some,
                object_text(obj@) == Some(text@),
                0 < text@.len() < 0xFFFE_0000,
                object_symbol_list(obj@) == Some(mapped),
                forall|k: int|
                    0 <= k < mapped.len() ==> spec_symbol_kind((#[trigger] mapped[k]).0) is Some,
            decreases unwind_info@.len() - u,
        {
            let (idx, info): (u32, &UnwindInfo) = match &unwind_info[u] {
                ObjectUnwindInfo::Func(i, inf) => (*i, inf),
                ObjectUnwindInfo::Trampoline(i, inf) => (*i, inf),
            };
            let table = match &unwind_info[u] {
                ObjectUnwindInfo::Func(_, _) => find_indexed(&funcs, idx),
                ObjectUnwindInfo::Trampoline(_, _) => find_indexed(&trampolines, idx),
            };
            proof {
                match unwind_info@[u as int] {
                    ObjectUnwindInfo::Func(idx0, info0) => {
                        assert(idx0 == idx && info0 == *info);
                        assert(table == table_find(funcs@, idx0));
                    }
                    ObjectUnwindInfo::Trampoline(idx0, info0) => {
                        assert(idx0 == idx && info0 == *info);
                        assert(table == table_find(trampolines@, idx0));
                    }
                }
            }
            match table {
                Some((addr, len)) => {
                    let s64: u64 = start as u64;
                    let sum = match s64.checked_add(addr) {
                        Some(v) => v,
                        None => {
                            return Err(CodeMemoryError::ObjectParse);
                        }
                    };
                    if sum > 0xFFFF_FFFF || len > 0xFFFF_FFFF {
                        return Err(CodeMemoryError::ObjectParse);
                    }
                    let off: u32 = sum as u32;
                    let cloned = info.clone();
                    let ghost gcloned = cloned;
                    regs.push((off, len as u32, cloned));
                    proof {
                        assert(regs@[u as int] == (off, (len as u32), gcloned));
                        assert(crate::unwind::unwind_info_equiv(gcloned, *info));
                        assert(s64 as int == start as int) by (bit_vector)
                            requires s64 == start as u64 && start <= 0xFFFF_F000usize;
                        assert(off == start + addr);
                        assert(match unwind_info@[u as int] {
                            ObjectUnwindInfo::Func(idx2, info2) => ({
                                let found = table_find(funcs@, idx2);
                                &&& found is Some
                                &&& regs@[u as int].0 == start + (found->0).0
                                &&& regs@[u as int].1 == (found->0).1
                                &&& crate::unwind::unwind_info_equiv(regs@[u as int].2, info2)
                            }),
                            ObjectUnwindInfo::Trampoline(idx2, info2) => ({
                                let found = table_find(trampolines@, idx2);
                                &&& found is Some
                                &&& regs@[u as int].0 == start + (found->0).0
                                &&& regs@[u as int].1 == (found->0).1
                                &&& crate::unwind::unwind_info_equiv(regs@[u as int].2, info2)
                            }),
                        });
                    }
                }
                None => {
                    return Err(CodeMemoryError::UnknownSymbol);
                }
            }
            u = u + 1;
        }

        // Resolve the returned address ranges.
        let mut func_ranges: Vec<(usize, usize)> = Vec::new();
        let mut fi: usize = 0;
        while fi < funcs.len()
            invariant
                0 <= fi <= funcs@.len(),
                func_ranges@.len() == fi,
                funcs@ == func_table(mapped),
                trampolines@ == trampoline_table(mapped),
                base == after_room.current->0.base,
                forall|i: int|
                    0 <= i < fi ==> #[trigger] func_ranges@[i] == (
                        ((base + start + funcs@[i].1) as usize),
                        (funcs@[i].2 as usize),
                    ),
                *self == after_room,
                after_room.wf(),
                after_room.published == old(self).published,
                forall|i: int|
                    0 <= i < old(self).entries@.len() ==> after_room.entries@[i] == old(
                        self,
                    ).entries@[i],
                after_room.current is Some,
                object_text(obj@) == Some(text@),
                0 < text@.len() < 0xFFFE_0000,
                object_symbol_list(obj@) == Some(mapped),
                forall|k: int|
                    0 <= k < mapped.len() ==> spec_symbol_kind((#[trigger] mapped[k]).0) is Some,
            decreases funcs@.len() - fi,
        {
            let (_, addr, len) = funcs[fi];
            match range_of(base, start, addr, len) {
                Some(rg) => {
                    func_ranges.push(rg);
                }
                None => {
                    return Err(CodeMemoryError::ObjectParse);
                }
            }
            fi = fi + 1;
        }
        let mut tramp_ranges: Vec<(usize, usize)> = Vec::new();
        let mut ti: usize = 0;
        while ti < trampolines.len()
            invariant
                0 <= ti <= trampolines@.len(),
                tramp_ranges@.len() == ti,
                funcs@ == func_table(mapped),
                trampolines@ == trampoline_table(mapped),
                base == after_room.current->0.base,
                forall|i: int|
                    0 <= i < ti ==> #[trigger] tramp_ranges@[i] == (
                        ((base + start + trampolines@[i].1) as usize),
                        (trampolines@[i].2 as usize),
                    ),
                *self == after_room,
                after_room.wf(),
                after_room.published == old(self).published,
                forall|i: int|
                    0 <= i < old(self).entries@.len() ==> after_room.entries@[i] == old(
                        self,
                    ).entries@[i],
                after_room.current is Some,
                object_text(obj@) == Some(text@),
                0 < text@.len() < 0xFFFE_0000,
                object_symbol_list(obj@) == Some(mapped),
                forall|k: int|
                    0 <= k < mapped.len() ==> spec_symbol_kind((#[trigger] mapped[k]).0) is Some,
            decreases trampolines@.len() - ti,
        {
            let (_, addr, len) = trampolines[ti];
            match range_of(base, start, addr, len) {
                Some(rg) => {
                    tramp_ranges.push(rg);
                }
                None => {
                    return Err(CodeMemoryError::ObjectParse);
                }
            }
            ti = ti + 1;
        }

        // Copy the text, register the unwind information, and record
        // the relocations.
        match &mut self.current {
            Some(e) => {
                proof {
                    assert(e.len + text@.len() <= e.mmap.bytes@.len());
                }
                let placed = e.copy_block(&text);
                proof {
                    assert(placed == start);
                }
                let mut ri: usize = 0;
                let ghost bytes_after = e.mmap.bytes@;
                let ghost len_after = e.len;
                let ghost reg0 = if need_new {
                    0int
                } else {
                    old(self).current->0.registry.entries@.len() as int
                };
                let ghost regents0 = e.registry.entries@;
                let ghost relocs_pre = e.relocs@;
                proof {
                    assert(e.registry.entries@.len() == reg0);
                    assert(e.registry.entries@.take(reg0) =~= regents0);
                    if !need_new {
                        assert(regents0 == old(self).current->0.registry.entries@);
                        assert(relocs_pre == old(self).current->0.relocs@);
                    }
                }
                while ri < regs.len()
                    invariant
                        0 <= ri <= regs@.len(),
                        e.wf(),
                        writable_entry(*e),
                        e.base == base,
                        e.len == len_after,
                        e.mmap.bytes@ == bytes_after,
                        start <= e.len,
                        0 <= reg0 && regents0.len() == reg0,
                        e.relocs@ == relocs_pre,
                        e.registry.entries@.len() == reg0 + ri,
                        e.registry.entries@.take(reg0) == regents0,
                        forall|k: int|
                            0 <= k < ri ==> (#[trigger] e.registry.entries@[reg0 + k]).offset
                                == regs@[k].0 && e.registry.entries@[reg0 + k].len == regs@[k].1
                                && crate::unwind::unwind_info_equiv(
                                e.registry.entries@[reg0 + k].info,
                                regs@[k].2,
                            ),
                    decreases regs@.len() - ri,
                {
                    let ghost ebefore = *e;
                    let entry = &regs[ri];
                    let cloned = entry.2.clone();
                    let rr = e.registry.register(entry.0, entry.1, cloned);
                    proof {
                        assert(rr is Ok);
                        assert forall|k: int| 0 <= k < ebefore.registry.entries@.len() implies
                            e.registry.entries@[k] == ebefore.registry.entries@[k] by {
                            assert(ebefore.registry.entries@.push(
                                RegistryEntry { offset: entry.0, len: entry.1, info: cloned },
                            )[k] == ebefore.registry.entries@[k]);
                        }
                        assert(e.registry.entries@.take(reg0) =~= regents0);
                        assert(e.registry.entries@[reg0 + ri] == RegistryEntry {
                            offset: entry.0,
                            len: entry.1,
                            info: cloned,
                        });
                    }
                    ri = ri + 1;
                }
                if start > 0xFFFF_FFFF {
                    proof {
                        assert(false);
                    }
                    return Err(CodeMemoryError::ObjectParse);
                }
                e.push_reloc_group(start as u32, converted);
            }
            None => {
                proof {
                    assert(false);
                }
                return Err(CodeMemoryError::ObjectParse);
            }
        }
        proof {
            match &self.current {
                Some(c) => {
                    assert(c.mmap.bytes@.subrange(start as int, start + text@.len()) == text@);
                    if !need_new {
                        assert(c.relocs@.take(old(self).current->0.relocs@.len() as int)
                            =~= old(self).current->0.relocs@);
                    }
                    assert forall|uu: int| 0 <= uu < unwind_info@.len() implies match
                        #[trigger] unwind_info@[uu] {
                        ObjectUnwindInfo::Func(idx, info) => ({
                            let found = table_find(func_table(mapped), idx);
                            &&& found is Some
                            &&& c.registry.entries@[(if need_new {
                                0int
                            } else {
                                old(self).current->0.registry.entries@.len() as int
                            }) + uu].offset == start + (found->0).0
                            &&& c.registry.entries@[(if need_new {
                                0int
                            } else {
                                old(self).current->0.registry.entries@.len() as int
                            }) + uu].len == (found->0).1
                            &&& crate::unwind::unwind_info_equiv(
                                c.registry.entries@[(if need_new {
                                    0int
                                } else {
                                    old(self).current->0.registry.entries@.len() as int
                                }) + uu].info,
                                info,
                            )
                        }),
                        ObjectUnwindInfo::Trampoline(idx, info) => ({
                            let found = table_find(trampoline_table(mapped), idx);
                            &&& found is Some
                            &&& c.registry.entries@[(if need_new {
                                0int
                            } else {
                                old(self).current->0.registry.entries@.len() as int
                            }) + uu].offset == start + (found->0).0
                            &&& c.registry.entries@[(if need_new {
                                0int
                            } else {
                                old(self).current->0.registry.entries@.len() as int
                            }) + uu].len == (found->0).1
                            &&& crate::unwind::unwind_info_equiv(
                                c.registry.entries@[(if need_new {
                                    0int
                                } else {
                                    old(self).current->0.registry.entries@.len() as int
                                }) + uu].info,
                                info,
                            )
                        }),
                    } by {
                        match unwind_info@[uu] {
                            ObjectUnwindInfo::Func(idx, info) => {
                                assert(regs@[uu].0 == start + (table_find(funcs@, idx)->0).0);
                            }
                            ObjectUnwindInfo::Trampoline(idx, info) => {
                                assert(regs@[uu].0 == start + (table_find(trampolines@, idx)->0).0);
                            }
                        }
                    }
                }
                None => {
                    assert(false);
                }
            }
            assert(self.wf());
        }
        Ok((func_ranges, tramp_ranges))
    }
}

/// The absolute range of a symbol placed `start` bytes into the arena
/// at `base`: `(base + start + addr, len)`, when it fits the address
/// space.
fn range_of(base: usize, start: usize, addr: u64, len: u64) -> (r: Option<(usize, usize)>)
    ensures
        match r {
            Some(p) => base + start + addr <= usize::MAX && p.0 == base + start + addr && p.1
                == len,
            None => true,
        },
{
    if addr > usize::MAX as u64 || len > usize::MAX as u64 {
        return None;
    }
    let a = base.checked_add(start)?;
    let b = a.checked_add(addr as usize)?;
    Some((b, len as usize))
}

/// Law: a function placed in the current arena and then published ends
/// on execute-only pages with a finalized registry, and the published
/// arenas — exactly what `published_ranges` lists — include the range
/// that holds it; nothing published stays writable. `mid` is a state
/// `allocate_for_function` may leave after returning the range
/// `(addr, blen)`, and `post` a state `publish` may then leave.
pub proof fn lemma_function_published(mid: CodeMemory, post: CodeMemory, addr: usize, blen: usize)
    requires
        mid.wf(),
        mid.current matches Some(c) && c.base <= addr && addr - c.base + blen <= c.len,
        post.wf(),
        post.published == post.entries@.len(),
        post.entries@.len() == mid.entries@.len() + 1,
        published_from(post.entries@.last(), mid.current->0),
    ensures
        post.entries@.last().mmap.protection == Protection::ReadExecute,
        post.entries@.last().registry.published,
        post.entries@.last().relocs@.len() == 0,
        post.entries@.last().base <= addr,
        addr + blen <= post.entries@.last().base + post.entries@.last().len,
        exists|i: int|
            0 <= i < post.published && post.entries@[i].base <= addr && addr + blen
                <= post.entries@[i].base + #[trigger] post.entries@[i].len,
        forall|i: int|
            0 <= i < post.published ==> (#[trigger] post.entries@[i]).mmap.protection
                == Protection::ReadExecute,
{
    let last = post.entries@.len() - 1;
    assert(post.entries@[last] == post.entries@.last());
    assert(post.entries@[last].base <= addr && addr + blen <= post.entries@[last].base
        + post.entries@[last].len);
}

} // verus!
