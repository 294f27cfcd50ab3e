//! Prologue/epilogue scanner: walks one compiled function's instruction
//! stream and its byte-offset layout, pattern-matching the instruction
//! shapes that affect the stack frame into target-independent unwind
//! codes.

use vstd::prelude::*;
use crate::ir::UnwindCode;
use crate::reg::{rsp, spec_rsp, Register};

verus! {

/// The instruction shapes the scanner recognizes. Offsets and sizes are
/// immediates taken from the instruction; anything else is `Other`.
#[derive(Clone, Copy, Debug, PartialEq, Eq, Structural)]
pub enum Inst {
    /// `push reg`.
    Push64 { reg: Register },
    /// `mov src, dst` between registers.
    MovRR { src: Register, dst: Register },
    /// `sub imm, dst`: subtract an immediate from a register.
    SubImm { dst: Register, imm: u32 },
    /// `mov src, simm32(base)`: store a register at a constant offset.
    MovRM { src: Register, base: Register, simm32: u32 },
    /// `add imm, dst`: add an immediate to a register.
    AddImm { dst: Register, imm: u32 },
    /// Any instruction with no effect on the unwind state.
    Other,
}

impl Inst {
    /// Every register the instruction names is a valid machine register.
    pub open spec fn regs_valid(self) -> bool {
        match self {
            Inst::Push64 { reg } => reg.valid(),
            Inst::MovRR { src, dst } => src.valid() && dst.valid(),
            Inst::SubImm { dst, .. } => dst.valid(),
            Inst::MovRM { src, base, .. } => src.valid() && base.valid(),
            Inst::AddImm { dst, .. } => dst.valid(),
            Inst::Other => true,
        }
    }
}

/// A half-open range of instruction indices.
#[derive(Clone, Copy, Debug, PartialEq, Eq, Structural)]
pub struct InstRange {
    /// Index of the first instruction of the range.
    pub start: u32,
    /// Index one past the last instruction of the range.
    pub end: u32,
}

/// Everything the scanner needs of one compiled function: its
/// instructions, the byte offset at which each instruction ends, the
/// total code length, and which index ranges form the prologue and the
/// epilogues.
pub struct UnwindInfoContext {
    /// The instruction stream, in code order.
    pub insts: Vec<Inst>,
    /// For each instruction, the code offset at which it ends.
    pub insts_layout: Vec<u32>,
    /// Total length in bytes of the function's code.
    pub len: u32,
    /// The prologue's instruction-index range.
    pub prologue: InstRange,
    /// Each epilogue's instruction-index range, ordered by appearance.
    pub epilogues: Vec<InstRange>,
}

impl UnwindInfoContext {
    /// A well-formed context: layout parallel to the instructions and
    /// non-decreasing, ranges inside the stream, the prologue before
    /// every epilogue, epilogues in order, and valid registers
    /// throughout.
    pub open spec fn wf(self) -> bool {
        &&& self.insts@.len() == self.insts_layout@.len()
        &&& self.prologue.start <= self.prologue.end
        &&& (self.prologue.end as int) < self.insts@.len()
        &&& forall|i: int, j: int|
            0 <= i <= j < self.insts_layout@.len() ==> #[trigger] self.insts_layout@[i]
                <= #[trigger] self.insts_layout@[j]
        &&& forall|i: int|
            0 <= i < self.insts_layout@.len() ==> #[trigger] self.insts_layout@[i] <= self.len
        &&& forall|i: int| 0 <= i < self.insts@.len() ==> (#[trigger] self.insts@[i]).regs_valid()
        &&& forall|e: int|
            0 <= e < self.epilogues@.len() ==> (#[trigger] self.epilogues@[e]).start
                < self.epilogues@[e].end
        &&& forall|e: int|
            0 <= e < self.epilogues@.len() ==> (#[trigger] self.epilogues@[e]).end
                <= self.insts@.len()
        &&& forall|e: int|
            0 <= e < self.epilogues@.len() ==> self.prologue.end <= (
            #[trigger] self.epilogues@[e]).start
        &&& forall|e: int|
            0 <= e < self.epilogues@.len() - 1 ==> (#[trigger] self.epilogues@[e]).end
                <= self.epilogues@[e + 1].start
    }
}

/// The unwind codes one instruction contributes, given the offset at
/// which it ends: a push saves a register, a move off the stack pointer
/// establishes the frame pointer, immediate arithmetic on the stack
/// pointer grows or shrinks the frame, and a store relative to the
/// stack pointer saves a register at that slot.
pub open spec fn scan_inst(inst: Inst, offset: u32) -> Seq<UnwindCode> {
    match inst {
        Inst::Push64 { reg } => seq![UnwindCode::PushRegister { offset, reg }],
        Inst::MovRR { src, dst } => {
            if src == spec_rsp() {
                seq![UnwindCode::SetCfaRegister { offset, reg: dst }]
            } else {
                Seq::empty()
            }
        }
        Inst::SubImm { dst, imm } => {
            if dst == spec_rsp() {
                seq![UnwindCode::StackAlloc { offset, size: imm }]
            } else {
                Seq::empty()
            }
        }
        Inst::MovRM { src, base, simm32 } => {
            if base == spec_rsp() {
                seq![UnwindCode::SaveRegister { offset, reg: src, stack_offset: simm32 }]
            } else {
                Seq::empty()
            }
        }
        Inst::AddImm { dst, imm } => {
            if dst == spec_rsp() {
                seq![UnwindCode::StackDealloc { offset, size: imm }]
            } else {
                Seq::empty()
            }
        }
        Inst::Other => Seq::empty(),
    }
}

/// The unwind codes of the prologue's instruction range `[start, end)`.
pub open spec fn scan_prologue(insts: Seq<Inst>, layout: Seq<u32>, start: int, end: int) -> Seq<
    UnwindCode,
>
    decreases end - start,
{
    if start >= end {
        Seq::empty()
    } else {
        scan_inst(insts[start], layout[start]) + scan_prologue(insts, layout, start + 1, end)
    }
}

/// The unwind codes of one epilogue: a `RememberState` at its first
/// instruction's offset and a `RestoreState` at its last instruction's
/// offset — except for the epilogue that ends at the function's last
/// offset, which needs neither.
pub open spec fn scan_epilogue(r: InstRange, layout: Seq<u32>, len: u32) -> Seq<UnwindCode> {
    let end_offset = layout[r.end - 1];
    if end_offset == len {
        Seq::empty()
    } else {
        seq![
            UnwindCode::RememberState { offset: layout[r.start as int] },
            UnwindCode::RestoreState { offset: end_offset },
        ]
    }
}

/// Whether `u` is exactly the scanner's output for context `ctx`.
pub open spec fn is_scan_output(ctx: UnwindInfoContext, u: crate::ir::UnwindInfo, word_size: u8) -> bool {
    &&& u.prologue_size == ctx.insts_layout@[ctx.prologue.end as int]
    &&& u.prologue_unwind_codes@ == scan_prologue(
        ctx.insts@,
        ctx.insts_layout@,
        ctx.prologue.start as int,
        ctx.prologue.end as int,
    )
    &&& u.epilogues_unwind_codes@.len() == ctx.epilogues@.len()
    &&& forall|e: int|
        0 <= e < ctx.epilogues@.len() ==> (#[trigger] u.epilogues_unwind_codes@[e])@
            == scan_epilogue(ctx.epilogues@[e], ctx.insts_layout@, ctx.len)
    &&& u.function_size == ctx.len
    &&& u.word_size == word_size
}

/// Scans one function's instruction stream into its target-independent
/// unwind description: the prologue's effects in code order, one code
/// list per epilogue, and the prologue and function sizes.
pub fn create_unwind_info(ctx: &UnwindInfoContext, word_size: u8) -> (r: Option<
    crate::ir::UnwindInfo,
>)
    requires
        ctx.wf(),
    ensures
        match r {
            Some(u) => {
                &&& is_scan_output(*ctx, u, word_size)
                &&& u.wf()
                &&& crate::ir::codes_sorted(crate::systemv::all_codes(u))
                &&& crate::ir::codes_bounded(crate::systemv::all_codes(u), ctx.len)
                &&& crate::ir::codes_bounded(u.prologue_unwind_codes@, u.prologue_size)
                &&& crate::systemv::all_codes(u) == scan_codes(*ctx)
            }
            None => false,
        },
{
    let ghost insts = ctx.insts@;
    let ghost layout = ctx.insts_layout@;
    let p_start = ctx.prologue.start as usize;
    let p_end = ctx.prologue.end as usize;

    let mut codes: Vec<UnwindCode> = Vec::new();
    let mut i: usize = p_start;
    while i < p_end
        invariant
            ctx.wf(),
            insts == ctx.insts@,
            layout == ctx.insts_layout@,
            p_start == ctx.prologue.start,
            p_end == ctx.prologue.end,
            p_start <= i <= p_end,
            p_end < insts.len(),
            codes@ == scan_prologue(insts, layout, p_start as int, i as int),
            crate::ir::codes_sorted(codes@),
            crate::ir::codes_regs_valid(codes@),
            crate::ir::codes_bounded(codes@, layout[i as int]),
        decreases p_end - i,
    {
        let ghost prev = codes@;
        let inst = ctx.insts[i];
        let offset = ctx.insts_layout[i];
        let ghost new_codes = scan_inst(inst, offset);
        match inst {
            Inst::Push64 { reg } => {
                codes.push(UnwindCode::PushRegister { offset, reg });
            }
            Inst::MovRR { src, dst } => {
                if src == rsp() {
                    codes.push(UnwindCode::SetCfaRegister { offset, reg: dst });
                }
            }
            Inst::SubImm { dst, imm } => {
                if dst == rsp() {
                    codes.push(UnwindCode::StackAlloc { offset, size: imm });
                }
            }
            Inst::MovRM { src, base, simm32 } => {
                if base == rsp() {
                    codes.push(UnwindCode::SaveRegister { offset, reg: src, stack_offset: simm32 });
                }
            }
            Inst::AddImm { dst, imm } => {
                if dst == rsp() {
                    codes.push(UnwindCode::StackDealloc { offset, size: imm });
                }
            }
            Inst::Other => {}
        }
        proof {
            assert(codes@ =~= prev + new_codes);
            lemma_scan_prologue_snoc(insts, layout, p_start as int, i as int);
            assert(forall|k: int|
                0 <= k < new_codes.len() ==> (#[trigger] new_codes[k]).code_offset() == layout[i as int]);
            assert(forall|k: int|
                0 <= k < new_codes.len() ==> (#[trigger] new_codes[k]).regs_valid());
            assert(layout[i as int] <= layout[i + 1]);
        }
        i = i + 1;
    }

    let prologue_size = ctx.insts_layout[p_end];
    let last_epilogue_end = ctx.len;

    let mut epilogues_unwind_codes: Vec<Vec<UnwindCode>> = Vec::new();
    // Bound, as an index into the layout, on every offset recorded so far.
    let ghost mut hi_idx: int = p_end as int;
    proof {
        assert(crate::ir::codes_bounded(codes@, layout[hi_idx]));
    }
    let mut e: usize = 0;
    while e < ctx.epilogues.len()
        invariant
            ctx.wf(),
            insts == ctx.insts@,
            layout == ctx.insts_layout@,
            p_start == ctx.prologue.start,
            p_end == ctx.prologue.end,
            codes@ == scan_prologue(insts, layout, p_start as int, p_end as int),
            crate::ir::codes_sorted(codes@),
            crate::ir::codes_regs_valid(codes@),
            0 <= e <= ctx.epilogues@.len(),
            last_epilogue_end == ctx.len,
            epilogues_unwind_codes@.len() == e,
            forall|k: int|
                0 <= k < e ==> (#[trigger] epilogues_unwind_codes@[k])@ == scan_epilogue(
                    ctx.epilogues@[k],
                    layout,
                    ctx.len,
                ),
            0 <= hi_idx < layout.len(),
            e < ctx.epilogues@.len() ==> hi_idx <= ctx.epilogues@[e as int].start,
            crate::ir::codes_sorted(
                codes@ + crate::systemv::flatten_epilogues(
                    epilogues_unwind_codes@.map_values(|v: Vec<UnwindCode>| v@),
                ),
            ),
            crate::ir::codes_bounded(
                codes@ + crate::systemv::flatten_epilogues(
                    epilogues_unwind_codes@.map_values(|v: Vec<UnwindCode>| v@),
                ),
                layout[hi_idx],
            ),
        decreases ctx.epilogues@.len() - e,
    {
        let ghost flat_prev = crate::systemv::flatten_epilogues(
            epilogues_unwind_codes@.map_values(|v: Vec<UnwindCode>| v@),
        );
        let epilogue = ctx.epilogues[e];
        let end_idx = (epilogue.end - 1) as usize;
        let end_offset = ctx.insts_layout[end_idx];
        let ghost chunk = scan_epilogue(ctx.epilogues@[e as int], layout, ctx.len);
        let entry: Vec<UnwindCode>;
        let ghost new_hi_idx: int;
        proof {
            assert(epilogue == ctx.epilogues@[e as int]);
            assert(epilogue.start < epilogue.end <= layout.len());
            assert(end_idx as int == epilogue.end - 1);
            assert(end_offset == layout[epilogue.end - 1]);
        }
        if end_offset == last_epilogue_end {
            entry = Vec::new();
            proof {
                new_hi_idx = hi_idx;
                assert(chunk =~= Seq::<UnwindCode>::empty());
                assert(entry@ =~= chunk);
            }
        } else {
            let start_offset = ctx.insts_layout[epilogue.start as usize];
            let mut pair: Vec<UnwindCode> = Vec::new();
            pair.push(UnwindCode::RememberState { offset: start_offset });
            pair.push(UnwindCode::RestoreState { offset: end_offset });
            entry = pair;
            proof {
                new_hi_idx = epilogue.end - 1;
                assert(layout[hi_idx] <= layout[epilogue.start as int]);
                assert(layout[epilogue.start as int] <= layout[epilogue.end - 1]);
                assert(chunk =~= seq![
                    UnwindCode::RememberState { offset: layout[epilogue.start as int] },
                    UnwindCode::RestoreState { offset: layout[epilogue.end - 1] },
                ]);
                assert(entry@ =~= chunk);
            }
        }
        proof {
            assert(entry@ =~= chunk);
        }
        let ghost prev_view = epilogues_unwind_codes@;
        epilogues_unwind_codes.push(entry);
        proof {
            let mapped_prev = prev_view.map_values(|v: Vec<UnwindCode>| v@);
            let mapped = epilogues_unwind_codes@.map_values(|v: Vec<UnwindCode>| v@);
            assert(epilogues_unwind_codes@ =~= prev_view.push(entry));
            assert(mapped =~= mapped_prev.push(chunk));
            lemma_flatten_push(mapped_prev, chunk);
            assert(crate::systemv::flatten_epilogues(mapped) == flat_prev + chunk);
            let combined_prev = codes@ + flat_prev;
            let combined = codes@ + crate::systemv::flatten_epilogues(mapped);
            assert(combined =~= combined_prev + chunk);
            assert(forall|k: int|
                0 <= k < chunk.len() ==> layout[hi_idx] <= (#[trigger] chunk[k]).code_offset());
            assert(crate::ir::codes_bounded(chunk, layout[new_hi_idx]));
            assert(layout[hi_idx] <= layout[new_hi_idx]);
            hi_idx = new_hi_idx;
            assert(crate::ir::codes_sorted(combined));
            assert(crate::ir::codes_bounded(combined, layout[hi_idx]));
            if e + 1 < ctx.epilogues@.len() {
                assert((ctx.epilogues@[e as int]).end <= (ctx.epilogues@[e + 1]).start);
                assert(hi_idx <= ctx.epilogues@[e + 1].start);
            }
        }
        e = e + 1;
    }

    proof {
        let mapped = epilogues_unwind_codes@.map_values(|v: Vec<UnwindCode>| v@);
        assert(forall|k: int|
            0 <= k < mapped.len() ==> crate::ir::codes_regs_valid(#[trigger] mapped[k]));
        assert(forall|k: int|
            0 <= k < mapped.len() ==> crate::ir::codes_sorted(#[trigger] mapped[k]));
    }

    let unwind = crate::ir::UnwindInfo {
        prologue_size,
        prologue_unwind_codes: codes,
        epilogues_unwind_codes,
        function_size: ctx.len,
        word_size,
    };
    proof {
        assert(crate::systemv::all_codes(unwind) == unwind.prologue_unwind_codes@
            + crate::systemv::flatten_epilogues(
            unwind.epilogues_unwind_codes@.map_values(|v: Vec<UnwindCode>| v@),
        ));
        assert(unwind.epilogues_unwind_codes@.map_values(|v: Vec<UnwindCode>| v@)
            =~= epilogue_chunks(*ctx));
        assert(crate::systemv::all_codes(unwind) == scan_codes(*ctx));
    }
    Some(unwind)
}

/// Extending the prologue range by one instruction appends that
/// instruction's codes.
proof fn lemma_scan_prologue_snoc(insts: Seq<Inst>, layout: Seq<u32>, start: int, mid: int)
    requires
        start <= mid,
    ensures
        scan_prologue(insts, layout, start, mid + 1) == scan_prologue(insts, layout, start, mid)
            + scan_inst(insts[mid], layout[mid]),
    decreases mid - start,
{
    if start == mid {
        assert(scan_prologue(insts, layout, mid + 1, mid + 1) =~= Seq::<UnwindCode>::empty());
        assert(scan_prologue(insts, layout, start, mid) =~= Seq::<UnwindCode>::empty());
        assert(scan_prologue(insts, layout, start, mid + 1) == scan_inst(insts[start], layout[start])
            + scan_prologue(insts, layout, start + 1, mid + 1));
        assert(scan_inst(insts[mid], layout[mid]) + scan_prologue(insts, layout, start, mid)
            =~= scan_inst(insts[mid], layout[mid]));
        assert(scan_prologue(insts, layout, start, mid + 1) =~= scan_prologue(
            insts,
            layout,
            start,
            mid,
        ) + scan_inst(insts[mid], layout[mid]));
    } else {
        lemma_scan_prologue_snoc(insts, layout, start + 1, mid);
        assert(scan_prologue(insts, layout, start, mid + 1) == scan_inst(insts[start], layout[start])
            + scan_prologue(insts, layout, start + 1, mid + 1));
        assert(scan_prologue(insts, layout, start, mid) == scan_inst(insts[start], layout[start])
            + scan_prologue(insts, layout, start + 1, mid));
        assert((scan_inst(insts[start], layout[start]) + scan_prologue(insts, layout, start + 1, mid))
            + scan_inst(insts[mid], layout[mid]) =~= scan_inst(insts[start], layout[start]) + (
        scan_prologue(insts, layout, start + 1, mid) + scan_inst(insts[mid], layout[mid])));
    }
}

/// Appending one code list to a list of lists appends its codes to the
/// flattening.
proof fn lemma_flatten_push(es: Seq<Seq<UnwindCode>>, chunk: Seq<UnwindCode>)
    ensures
        crate::systemv::flatten_epilogues(es.push(chunk)) == crate::systemv::flatten_epilogues(es)
            + chunk,
    decreases es.len(),
{
    if es.len() == 0 {
        assert(es.push(chunk)[0] == chunk);
        assert(es.push(chunk).skip(1) =~= Seq::<Seq<UnwindCode>>::empty());
        assert(crate::systemv::flatten_epilogues(es.push(chunk)) == chunk
            + crate::systemv::flatten_epilogues(es.push(chunk).skip(1)));
        assert(crate::systemv::flatten_epilogues(Seq::<Seq<UnwindCode>>::empty()) =~= Seq::<
            UnwindCode,
        >::empty());
        assert(crate::systemv::flatten_epilogues(es.push(chunk)) =~= chunk);
        assert(crate::systemv::flatten_epilogues(es) + chunk =~= chunk);
    } else {
        lemma_flatten_push(es.skip(1), chunk);
        assert(es.push(chunk).skip(1) =~= es.skip(1).push(chunk));
        assert(es.push(chunk)[0] == es[0]);
        assert(crate::systemv::flatten_epilogues(es.push(chunk)) == es[0]
            + crate::systemv::flatten_epilogues(es.skip(1).push(chunk)));
        assert(es[0] + (crate::systemv::flatten_epilogues(es.skip(1)) + chunk) =~= (es[0]
            + crate::systemv::flatten_epilogues(es.skip(1))) + chunk);
    }
}

/// The per-epilogue code lists of a context, as the scanner produces
/// them.
pub open spec fn epilogue_chunks(ctx: UnwindInfoContext) -> Seq<Seq<UnwindCode>> {
    Seq::new(
        ctx.epilogues@.len(),
        |e: int| scan_epilogue(ctx.epilogues@[e], ctx.insts_layout@, ctx.len),
    )
}

/// Every unwind code of a context, in processing order: the prologue's
/// codes, then each epilogue's.
pub open spec fn scan_codes(ctx: UnwindInfoContext) -> Seq<UnwindCode> {
    scan_prologue(
        ctx.insts@,
        ctx.insts_layout@,
        ctx.prologue.start as int,
        ctx.prologue.end as int,
    ) + crate::systemv::flatten_epilogues(epilogue_chunks(ctx))
}

/// The prologue scan yields only frame-building codes, at most one per
/// instruction.
pub proof fn lemma_scan_prologue_shape(insts: Seq<Inst>, layout: Seq<u32>, start: int, end: int)
    requires
        start <= end,
    ensures
        crate::systemv::frame_building_codes(scan_prologue(insts, layout, start, end)),
        scan_prologue(insts, layout, start, end).len() <= end - start,
    decreases end - start,
{
    if start < end {
        lemma_scan_prologue_shape(insts, layout, start + 1, end);
        let head = scan_inst(insts[start], layout[start]);
        let tail = scan_prologue(insts, layout, start + 1, end);
        let out = scan_prologue(insts, layout, start, end);
        assert(out == head + tail);
        assert forall|i: int| 0 <= i < out.len() implies match #[trigger] out[i] {
            UnwindCode::PopRegister { .. } => false,
            UnwindCode::RememberState { .. } => false,
            UnwindCode::RestoreState { .. } => false,
            _ => true,
        } by {
            if i < head.len() {
                assert(out[i] == head[i]);
            } else {
                assert(out[i] == tail[i - head.len()]);
            }
        }
    }
}

/// Each epilogue's code list is empty or one remember/restore pair.
pub proof fn lemma_scan_chunks_shape(ctx: UnwindInfoContext)
    requires
        ctx.wf(),
    ensures
        forall|e: int|
            0 <= e < epilogue_chunks(ctx).len() ==> crate::systemv::remember_restore_chunk(
                #[trigger] epilogue_chunks(ctx)[e],
            ),
{
}

/// With a frame pointer configured, the CFA state machine accepts every
/// code sequence the scanner produces: the prologue only builds the
/// frame, and each epilogue restores what it remembered.
pub proof fn lemma_scan_codes_run_ok(ctx: UnwindInfoContext, fp: Option<crate::reg::Register>)
    requires
        ctx.wf(),
        ctx.insts@.len() < 0x0FFF_FFFF,
        fp is Some,
    ensures
        crate::systemv::run_ok(crate::systemv::init_state(), scan_codes(ctx), fp),
{
    let pro = scan_prologue(
        ctx.insts@,
        ctx.insts_layout@,
        ctx.prologue.start as int,
        ctx.prologue.end as int,
    );
    let chunks = epilogue_chunks(ctx);
    let init = crate::systemv::init_state();
    lemma_scan_prologue_shape(
        ctx.insts@,
        ctx.insts_layout@,
        ctx.prologue.start as int,
        ctx.prologue.end as int,
    );
    crate::systemv::lemma_run_ok_frame_building(init, pro, fp);
    lemma_scan_chunks_shape(ctx);
    crate::systemv::lemma_run_ok_chunks(
        crate::systemv::run_state(init, pro, fp),
        chunks,
        fp,
    );
    crate::systemv::lemma_run_append(
        init,
        pro,
        crate::systemv::flatten_epilogues(chunks),
        fp,
    );
}

/// Law: a function with N non-terminal epilogues — epilogues not ending
/// at the function's last offset — gets exactly N `RememberState` and N
/// `RestoreState` instructions in its System V unwind program, one pair
/// per such epilogue, each pair ordered by offset and successive pairs
/// ordered between epilogues; epilogues ending at the function's last
/// offset contribute nothing.
pub proof fn lemma_remember_restore_pairs(
    ctx: UnwindInfoContext,
    fp: Option<crate::reg::Register>,
)
    requires
        ctx.wf(),
    ensures
        crate::systemv::count_remember_instrs(
            crate::systemv::run_instrs(crate::systemv::init_state(), scan_codes(ctx), fp),
        ) == crate::systemv::nonempty_chunks(epilogue_chunks(ctx)),
        crate::systemv::count_restore_instrs(
            crate::systemv::run_instrs(crate::systemv::init_state(), scan_codes(ctx), fp),
        ) == crate::systemv::nonempty_chunks(epilogue_chunks(ctx)),
        forall|e: int|
            0 <= e < ctx.epilogues@.len() ==> ((#[trigger] epilogue_chunks(ctx)[e]).len() > 0
                <==> ctx.insts_layout@[ctx.epilogues@[e].end - 1] != ctx.len),
        forall|e: int|
            0 <= e < ctx.epilogues@.len() && ctx.insts_layout@[ctx.epilogues@[e].end - 1]
                != ctx.len ==> #[trigger] epilogue_chunks(ctx)[e] == seq![
                UnwindCode::RememberState {
                    offset: ctx.insts_layout@[ctx.epilogues@[e].start as int],
                },
                UnwindCode::RestoreState { offset: ctx.insts_layout@[ctx.epilogues@[e].end - 1] },
            ] && ctx.insts_layout@[ctx.epilogues@[e].start as int]
                <= ctx.insts_layout@[ctx.epilogues@[e].end - 1],
        forall|e: int|
            0 <= e < ctx.epilogues@.len() - 1 ==> ctx.insts_layout@[(
            #[trigger] ctx.epilogues@[e]).end - 1]
                <= ctx.insts_layout@[ctx.epilogues@[e + 1].start as int],
{
    let pro = scan_prologue(
        ctx.insts@,
        ctx.insts_layout@,
        ctx.prologue.start as int,
        ctx.prologue.end as int,
    );
    let chunks = epilogue_chunks(ctx);
    let init = crate::systemv::init_state();
    crate::systemv::lemma_run_instrs_counts(init, scan_codes(ctx), fp);
    lemma_scan_prologue_shape(
        ctx.insts@,
        ctx.insts_layout@,
        ctx.prologue.start as int,
        ctx.prologue.end as int,
    );
    crate::systemv::lemma_count_frame_building(pro);
    lemma_scan_chunks_shape(ctx);
    crate::systemv::lemma_count_chunks(chunks);
    crate::systemv::lemma_count_codes_add(pro, crate::systemv::flatten_epilogues(chunks));
}

} // verus!
