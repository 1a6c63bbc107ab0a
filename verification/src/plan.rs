//! The layout half of bootstrap planning: which segments are mapped, the
//! synthetic regions beside them, the initial stack, the entry point and
//! the initial registers, and the warnings a plan carries.
use vstd::prelude::*;
use crate::bootstrap::{
    build_image_region, build_initial_stack_layout, lemma_align4_law, spec_align4, synthetic_region_error, synthetic_region_names,
    synthetic_region_spans, BootstrapPlanner, CoreConfig, PlannedRegion, SegmentInfo, StackBootstrap,
};
use crate::error::{CoreError, CoreResult};
use crate::memory::{spec_mach_prot_to_guest, spec_prot_string, GUEST_PROT_EXEC, GUEST_PROT_READ, GUEST_PROT_WRITE};
use crate::text::{hex_padded, push_hex, str_eq};

verus! {

/// Where execution starts: the program counter with the Thumb bit cleared,
/// the stack pointer, and whether the entry is Thumb code.
#[derive(Debug, Clone, Copy)]
pub struct EntryPoint {
    pub pc: u32,
    pub sp: u32,
    pub thumb: bool,
}

/// The register file handed to the guest at entry.
#[derive(Debug, Clone, Copy)]
pub struct InitialRegisters {
    pub r0: u32,
    pub r1: u32,
    pub r2: u32,
    pub r3: u32,
    pub lr: u32,
    pub sp: u32,
    pub pc: u32,
    pub thumb: bool,
}

/// The planned layout of a bootstrap.
#[derive(Debug, Clone)]
pub struct BootstrapLayout {
    pub page_size: u32,
    pub entry: EntryPoint,
    pub stack: StackBootstrap,
    pub registers: InitialRegisters,
    pub mapped_regions: Vec<PlannedRegion>,
    pub warnings: Vec<String>,
}

/// The guard segment that is never mapped.
pub open spec fn seg_is_pagezero(s: SegmentInfo) -> bool {
    s.name@ == "__PAGEZERO"@
}

/// A segment the plan leaves unmapped: the guard segment, or one with no
/// virtual size.
pub open spec fn seg_skipped(s: SegmentInfo) -> bool {
    seg_is_pagezero(s) || s.vmsize == 0
}

/// The warning recorded for a skipped segment.
pub open spec fn seg_skip_warning(s: SegmentInfo) -> Seq<char> {
    if seg_is_pagezero(s) {
        "__PAGEZERO intentionally left unmapped as a guard region"@
    } else {
        "segment "@ + s.name@ + " has zero vmsize and was skipped"@
    }
}

/// First page of a mapped segment.
pub open spec fn image_region_start(s: SegmentInfo, page_size: u32) -> u32 {
    s.vmaddr & !((page_size - 1) as u32)
}

/// End of a mapped segment, rounded up to a page.
pub open spec fn image_region_end(s: SegmentInfo, page_size: u32) -> u32 {
    ((s.vmaddr + s.vmsize + (page_size - 1)) as u32) & !((page_size - 1) as u32)
}

/// Why a segment cannot be given a region, if it cannot.
pub open spec fn image_region_error(s: SegmentInfo, page_size: u32) -> Option<Seq<char>> {
    if s.vmaddr + s.vmsize > u32::MAX {
        Some("segment "@ + s.name@ + " overflows guest address space"@)
    } else if s.vmaddr + s.vmsize + (page_size - 1) > u32::MAX {
        Some("align_up overflow"@)
    } else if image_region_end(s, page_size) < image_region_start(s, page_size) {
        Some("segment "@ + s.name@ + " produced negative size"@)
    } else {
        None
    }
}

/// The segments that are mapped, in order.
pub open spec fn kept_segments(segs: Seq<SegmentInfo>) -> Seq<SegmentInfo>
    decreases segs.len(),
{
    if segs.len() == 0 {
        Seq::empty()
    } else if seg_skipped(segs.last()) {
        kept_segments(segs.drop_last())
    } else {
        kept_segments(segs.drop_last()).push(segs.last())
    }
}

/// The warnings of the skipped segments, in order.
pub open spec fn skip_warnings(segs: Seq<SegmentInfo>) -> Seq<Seq<char>>
    decreases segs.len(),
{
    if segs.len() == 0 {
        Seq::empty()
    } else if seg_skipped(segs.last()) {
        skip_warnings(segs.drop_last()).push(seg_skip_warning(segs.last()))
    } else {
        skip_warnings(segs.drop_last())
    }
}

/// The error of the first mapped segment that cannot be given a region.
pub open spec fn image_plan_error(segs: Seq<SegmentInfo>, page_size: u32) -> Option<Seq<char>>
    decreases segs.len(),
{
    if segs.len() == 0 {
        None
    } else {
        match image_plan_error(segs.drop_last(), page_size) {
            Some(m) => Some(m),
            None => if seg_skipped(segs.last()) {
                None
            } else {
                image_region_error(segs.last(), page_size)
            },
        }
    }
}

/// Once a prefix of the segments fails, the whole list fails the same way.
pub proof fn lemma_image_plan_error_prefix(segs: Seq<SegmentInfo>, n: int, page_size: u32)
    requires
        0 <= n <= segs.len(),
        image_plan_error(segs.take(n), page_size) is Some,
    ensures
        image_plan_error(segs, page_size) == image_plan_error(segs.take(n), page_size),
    decreases segs.len(),
{
    if n == segs.len() {
        assert(segs.take(n) =~= segs);
    } else {
        assert(segs.drop_last().take(n) =~= segs.take(n));
        lemma_image_plan_error_prefix(segs.drop_last(), n, page_size);
    }
}

/// The region planned for a mapped segment.
pub open spec fn region_of_segment(r: PlannedRegion, s: SegmentInfo, page_size: u32) -> bool {
    &&& r.name@ == s.name@
    &&& r.kind@ == "image"@
    &&& r.start == image_region_start(s, page_size)
    &&& r.end == image_region_end(s, page_size)
    &&& r.size == r.end - r.start
    &&& r.prot@ == spec_prot_string(spec_mach_prot_to_guest(s.initprot))
}

/// The name `argv[0]` carries: the configured one, or else the bundle's
/// executable.
pub open spec fn chosen_argv0(cfg: CoreConfig, executable: Seq<char>) -> Seq<char> {
    if cfg.argv0@.len() == 0 {
        executable
    } else {
        cfg.argv0@
    }
}

/// Top of the stack mapping.
pub open spec fn stack_top(cfg: CoreConfig) -> int {
    cfg.stack_base + cfg.stack_size
}

/// Bytes that an `argv[0]` of `n` UTF-8 bytes takes on the stack.
pub open spec fn argv0_slot(n: nat) -> int {
    spec_align4((n + 1) as u32) as int
}

/// Why the initial stack cannot be laid out for an `argv[0]` of `n` bytes.
pub open spec fn stack_error(cfg: CoreConfig, n: nat) -> Option<Seq<char>> {
    let top = stack_top(cfg);
    let slot = argv0_slot(n);
    if top > u32::MAX {
        Some("stack top overflow"@)
    } else if top < 0x1000 {
        Some("stack reservation underflow"@)
    } else if top - 0x1000 < slot {
        Some("argv0 placement underflow"@)
    } else if top - 0x1000 - slot < 8 {
        Some("argv vector underflow"@)
    } else if top - 0x1000 - slot - 8 < 4 {
        Some("argc slot underflow"@)
    } else {
        None
    }
}

/// Why no layout can be planned, checked in the planner's order: segments,
/// synthetic regions, stack, entry point.
pub open spec fn plan_error(cfg: CoreConfig, segs: Seq<SegmentInfo>, entry_pc: Option<u32>, executable: Seq<char>) -> Option<
    Seq<char>,
> {
    match image_plan_error(segs, cfg.page_size) {
        Some(m) => Some(m),
        None => match synthetic_region_error(cfg) {
            Some(m) => Some(m),
            None => match stack_error(cfg, vstd::utf8::encode_utf8(chosen_argv0(cfg, executable)).len()) {
                Some(m) => Some(m),
                None => if entry_pc is None {
                    Some("Mach-O does not expose LC_MAIN or LC_UNIXTHREAD entry PC"@)
                } else {
                    None
                },
            },
        },
    }
}

/// Some planned region contains `pc`.
pub open spec fn pc_mapped(regions: Seq<PlannedRegion>, pc: u32) -> bool {
    exists|i: int| 0 <= i < regions.len() && (#[trigger] regions[i]).start <= pc < regions[i].end
}

/// The warning recorded when the entry lies outside every region.
pub open spec fn entry_warning(pc: u32) -> Seq<char> {
    "entry PC 0x"@ + hex_padded(pc as nat, 8) + " does not land inside any mapped image region"@
}

/// The texts of a list of warnings.
pub open spec fn texts(w: Seq<String>) -> Seq<Seq<char>> {
    w.map_values(|s: String| s@)
}

/// The layout that a successful plan yields.
pub open spec fn layout_matches(
    p: BootstrapLayout,
    cfg: CoreConfig,
    segs: Seq<SegmentInfo>,
    raw_pc: u32,
    executable: Seq<char>,
) -> bool {
    let kept = kept_segments(segs);
    let k = kept.len() as int;
    let slot = argv0_slot(vstd::utf8::encode_utf8(chosen_argv0(cfg, executable)).len());
    let top = stack_top(cfg);
    let regions = p.mapped_regions@;
    &&& p.page_size == cfg.page_size
    &&& regions.len() == k + 5
    &&& forall|i: int| 0 <= i < k ==> region_of_segment(#[trigger] regions[i], kept[i], cfg.page_size)
    &&& forall|i: int|
        0 <= i < 5 ==> {
            &&& (#[trigger] regions[k + i]).name@ == synthetic_region_names()[i]
            &&& regions[k + i].kind@ == synthetic_region_names()[i]
            &&& regions[k + i].start == synthetic_region_spans(cfg)[i].0
            &&& regions[k + i].end == synthetic_region_spans(cfg)[i].0 + synthetic_region_spans(cfg)[i].1
            &&& regions[k + i].prot@ == spec_prot_string(
                if i == 4 {
                    GUEST_PROT_READ | GUEST_PROT_EXEC
                } else {
                    GUEST_PROT_READ | GUEST_PROT_WRITE
                },
            )
        }
    &&& p.stack.argv0@ == chosen_argv0(cfg, executable)
    &&& p.stack.argc == 1
    &&& p.stack.argv0_addr == top - 0x1000 - slot
    &&& p.stack.argv_ptr == top - 0x1000 - slot - 8
    &&& p.stack.sp == top - 0x1000 - slot - 12
    &&& p.entry.pc == raw_pc & !1u32
    &&& p.entry.thumb == (raw_pc & 1u32 != 0)
    &&& p.entry.sp == p.stack.sp
    &&& p.registers == (InitialRegisters {
        r0: 1,
        r1: p.stack.argv_ptr,
        r2: 0,
        r3: 0,
        lr: 0,
        sp: p.stack.sp,
        pc: p.entry.pc,
        thumb: p.entry.thumb,
    })
    &&& texts(p.warnings@) == skip_warnings(segs) + (if pc_mapped(regions, p.entry.pc) {
        Seq::<Seq<char>>::empty()
    } else {
        seq![entry_warning(p.entry.pc)]
    })
}

impl BootstrapPlanner {
    /// Plans the guest layout of an image with segments `segs` and entry
    /// `entry_pc`: maps every segment but the guard and empty ones (each
    /// skip leaves a warning), then the synthetic regions, lays out the
    /// initial stack for `argv[0]` (the configured name, or else
    /// `executable`), and derives the entry point and the initial
    /// registers (`r0` = argc, `r1` = argv). A warning is added when the
    /// entry lies outside every planned region. Fails with the first error
    /// met, in that order; an image without an entry point fails last.
    pub fn plan_layout(&self, segs: &Vec<SegmentInfo>, entry_pc: Option<u32>, executable: &str) -> (r: CoreResult<
        BootstrapLayout,
    >)
        requires
            self.cfg.page_size > 0,
            vstd::utf8::encode_utf8(chosen_argv0(self.cfg, executable@)).len() + 4 <= u32::MAX,
        ensures
            match plan_error(self.cfg, segs@, entry_pc, executable@) {
                Some(m) => r is Err && r->Err_0.spec_message() == m,
                None => r matches Ok(p) && layout_matches(p, self.cfg, segs@, entry_pc->0, executable@),
            },
    {
        let ps = self.cfg.page_size;
        let mut regions: Vec<PlannedRegion> = Vec::new();
        let mut warnings: Vec<String> = Vec::new();
        let mut i: usize = 0;
        while i < segs.len()
            invariant
                i <= segs.len(),
                image_plan_error(segs@.take(i as int), ps) is None,
                regions@.len() == kept_segments(segs@.take(i as int)).len(),
                forall|j: int|
                    0 <= j < regions@.len() ==> region_of_segment(
                        #[trigger] regions@[j],
                        kept_segments(segs@.take(i as int))[j],
                        ps,
                    ),
                texts(warnings@) == skip_warnings(segs@.take(i as int)),
            decreases segs.len() - i,
        {
            let seg = &segs[i];
            proof {
                assert(segs@.take(i + 1).drop_last() =~= segs@.take(i as int));
                assert(segs@.take(i + 1).last() == segs@[i as int]);
            }
            let ghost before = warnings@;
            if str_eq(seg.name.as_str(), "__PAGEZERO") {
                warnings.push(String::from_str("__PAGEZERO intentionally left unmapped as a guard region"));
                proof {
                    assert(texts(warnings@) =~= texts(before).push(seg_skip_warning(*seg)));
                }
            } else if seg.vmsize == 0 {
                let mut msg = String::from_str("segment ");
                msg.append(seg.name.as_str());
                msg.append(" has zero vmsize and was skipped");
                warnings.push(msg);
                proof {
                    assert(texts(warnings@) =~= texts(before).push(seg_skip_warning(*seg)));
                }
            } else {
                let region = match build_image_region(seg, ps) {
                    Ok(r) => r,
                    Err(e) => {
                        proof {
                            lemma_image_plan_error_prefix(segs@, i + 1, ps);
                        }
                        return Err(e);
                    },
                };
                regions.push(region);
            }
            i = i + 1;
        }
        proof {
            assert(segs@.take(segs.len() as int) =~= segs@);
        }
        let ghost k = regions@.len() as int;
        let mut synthetic = match self.synthetic_regions() {
            Ok(v) => v,
            Err(e) => return Err(e),
        };
        let ghost pre = regions@;
        let ghost syn = synthetic@;
        regions.append(&mut synthetic);
        proof {
            assert forall|i: int| 0 <= i < 5 implies #[trigger] regions@[k + i] == syn[i] by {}
        }
        let argv0: &str = if self.cfg.argv0.as_str().is_empty() {
            executable
        } else {
            self.cfg.argv0.as_str()
        };
        let stack = match build_initial_stack_layout(&self.cfg, argv0) {
            Ok(s) => s,
            Err(e) => return Err(e),
        };
        let raw_pc = match entry_pc {
            Some(pc) => pc,
            None => {
                return Err(
                    CoreError::InvalidImage(String::from_str("Mach-O does not expose LC_MAIN or LC_UNIXTHREAD entry PC")),
                )
            },
        };
        let entry = EntryPoint { pc: raw_pc & !1u32, sp: stack.sp, thumb: (raw_pc & 1u32) != 0 };
        let mut inside = false;
        let mut j: usize = 0;
        while j < regions.len()
            invariant
                j <= regions@.len(),
                inside == exists|q: int| 0 <= q < j && (#[trigger] regions@[q]).start <= entry.pc < regions@[q].end,
            decreases regions.len() - j,
        {
            if regions[j].start <= entry.pc && entry.pc < regions[j].end {
                inside = true;
            }
            j = j + 1;
        }
        proof {
            assert(inside == pc_mapped(regions@, entry.pc));
        }
        let ghost skips = warnings@;
        if !inside {
            let mut msg = String::from_str("entry PC 0x");
            push_hex(&mut msg, entry.pc as u64, 8);
            msg.append(" does not land inside any mapped image region");
            warnings.push(msg);
            proof {
                assert(texts(warnings@) =~= texts(skips).push(entry_warning(entry.pc)));
            }
        } else {
            proof {
                assert(texts(warnings@) =~= texts(skips) + Seq::<Seq<char>>::empty());
            }
        }
        proof {
            assert(texts(skips) == skip_warnings(segs@));
            assert(texts(warnings@) =~= skip_warnings(segs@) + (if inside {
                Seq::<Seq<char>>::empty()
            } else {
                seq![entry_warning(entry.pc)]
            }));
        }
        let registers = InitialRegisters {
            r0: stack.argc,
            r1: stack.argv_ptr,
            r2: 0,
            r3: 0,
            lr: 0,
            sp: entry.sp,
            pc: entry.pc,
            thumb: entry.thumb,
        };
        Ok(BootstrapLayout { page_size: ps, entry, stack, registers, mapped_regions: regions, warnings })
    }
}

/// A planned bootstrap starts the guest on a well-formed initial frame:
/// `r0` holds argc (one argument) and `r1` the argv vector, which lies
/// just above the argc word at the stack pointer and just below
/// `argv[0]`; the NUL-terminated `argv[0]` ends below the page reserved at
/// the top of the stack, and the stack pointer keeps the alignment of the
/// stack top to 4 bytes. The program counter has its Thumb bit cleared;
/// adding the Thumb bit back for a Thumb entry gives the raw entry address.
pub proof fn lemma_initial_frame(
    p: BootstrapLayout,
    cfg: CoreConfig,
    segs: Seq<SegmentInfo>,
    raw_pc: u32,
    executable: Seq<char>,
)
    requires
        layout_matches(p, cfg, segs, raw_pc, executable),
        vstd::utf8::encode_utf8(chosen_argv0(cfg, executable)).len() + 4 <= u32::MAX,
    ensures
        p.registers.r0 == p.stack.argc,
        p.stack.argc == 1,
        p.registers.r1 == p.stack.argv_ptr,
        p.registers.sp + 4 == p.stack.argv_ptr,
        p.stack.argv_ptr + 8 == p.stack.argv0_addr,
        p.stack.argv0_addr + vstd::utf8::encode_utf8(p.stack.argv0@).len() + 1 <= stack_top(cfg) - 0x1000,
        p.registers.sp % 4 == stack_top(cfg) % 4,
        p.registers.sp == p.entry.sp,
        p.registers.pc % 2 == 0,
        p.registers.pc + (if p.registers.thumb {
            1int
        } else {
            0int
        }) == raw_pc,
{
    let n = vstd::utf8::encode_utf8(chosen_argv0(cfg, executable)).len();
    lemma_align4_law((n + 1) as u32);
    let slot = argv0_slot(n);
    assert(slot % 4 == 0);
    assert((stack_top(cfg) - 0x1000 - slot - 12) % 4 == stack_top(cfg) % 4) by (nonlinear_arith)
        requires
            slot % 4 == 0,
    ;
    let pc = raw_pc & !1u32;
    assert(pc % 2 == 0 && pc + (if raw_pc & 1u32 != 0 {
        1int
    } else {
        0int
    }) == raw_pc) by (bit_vector)
        requires
            pc == raw_pc & !1u32,
    ;
}

} // verus!
