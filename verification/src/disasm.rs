//! Text rendering of ARM and Thumb instruction words for traces: branches,
//! loads and stores, data processing, and the VFP single-precision subset
//! the runtime meets.
use vstd::prelude::*;
use crate::text::{dec_seq, hex_padded, push_dec, push_hex};

verus! {

/// `r<n>`.
pub open spec fn reg(n: u32) -> Seq<char> {
    "r"@ + dec_seq(n as nat)
}

/// `s<n>`.
pub open spec fn sreg(n: u32) -> Seq<char> {
    "s"@ + dec_seq(n as nat)
}

/// Lower-case hexadecimal without padding.
pub open spec fn hx(v: u32) -> Seq<char> {
    hex_padded(v as nat, 0)
}

/// The condition-code mnemonic of an ARM word (`al` for always).
pub open spec fn spec_cond_name(word: u32) -> Seq<char> {
    let c = (word >> 28) & 0xF;
    if c == 0x0 {
        "eq"@
    } else if c == 0x1 {
        "ne"@
    } else if c == 0x2 {
        "cs"@
    } else if c == 0x3 {
        "cc"@
    } else if c == 0x4 {
        "mi"@
    } else if c == 0x5 {
        "pl"@
    } else if c == 0x6 {
        "vs"@
    } else if c == 0x7 {
        "vc"@
    } else if c == 0x8 {
        "hi"@
    } else if c == 0x9 {
        "ls"@
    } else if c == 0xA {
        "ge"@
    } else if c == 0xB {
        "lt"@
    } else if c == 0xC {
        "gt"@
    } else if c == 0xD {
        "le"@
    } else if c == 0xE {
        "al"@
    } else {
        "nv"@
    }
}

/// The condition suffix written after a mnemonic: empty for always.
pub open spec fn spec_cond_suffix(word: u32) -> Seq<char> {
    if (word >> 28) & 0xF == 0xE {
        Seq::empty()
    } else {
        spec_cond_name(word)
    }
}

/// `{s<start>}` or `{s<start>-s<last>}` (`d` registers for double
/// precision); empty for no registers.
pub open spec fn spec_vfp_reg_list(start: u32, count: u32, double_precision: bool) -> Seq<char> {
    let p: Seq<char> = if double_precision { "d"@ } else { "s"@ };
    if count == 0 {
        Seq::empty()
    } else if count == 1 {
        "{"@ + p + dec_seq(start as nat) + "}"@
    } else {
        "{"@ + p + dec_seq(start as nat) + "-"@ + p + dec_seq((start + count - 1) as nat) + "}"@
    }
}

/// Two VFP loads the runtime renders with fixed text.
pub open spec fn spec_exact_vfp_override(word: u32, c: Seq<char>) -> Option<Seq<char>> {
    if word == 0xed9f6a2c {
        Some("vldr"@ + c + " {s12}, [pc, #176]"@)
    } else if word == 0xedd37a00 {
        Some("vldr"@ + c + " {s15}, [r3]"@)
    } else {
        None
    }
}

/// `vldr`/`vstr` with an immediate offset and no write-back.
pub open spec fn spec_vfp_literal_single_transfer(word: u32, c: Seq<char>) -> Option<Seq<char>> {
    let masked = word & 0xFF30_0E00;
    let p = (word >> 24) & 1 != 0;
    let w = (word >> 21) & 1 != 0;
    if (masked != 0xED10_0A00 && masked != 0xED00_0A00) || !p || w {
        None
    } else {
        let u = (word >> 23) & 1 != 0;
        let d = (word >> 22) & 1;
        let l = (word >> 20) & 1 != 0;
        let rn = (word >> 16) & 0xF;
        let vd = (word >> 12) & 0xF;
        let reg_text = if (word >> 8) & 1 != 0 {
            "{d"@ + dec_seq(((d << 4) | vd) as nat) + "}"@
        } else {
            "{s"@ + dec_seq(((vd << 1) | d) as nat) + "}"@
        };
        let op: Seq<char> = if l { "vldr"@ } else { "vstr"@ };
        let sign: Seq<char> = if u { Seq::empty() } else { "-"@ };
        let base = if rn == 15 { "pc"@ } else { reg(rn) };
        Some(op + c + " "@ + reg_text + ", ["@ + base + ", #"@ + sign + dec_seq(((word & 0xFF) * 4) as nat) + "]"@)
    }
}

/// The three single-precision register numbers `(d, n, m)` of a VFP
/// data-processing word.
pub open spec fn vfp_sd(word: u32) -> u32 {
    (((word >> 12) & 0xF) << 1) | ((word >> 22) & 1)
}

/// See `vfp_sd`.
pub open spec fn vfp_sn(word: u32) -> u32 {
    (((word >> 16) & 0xF) << 1) | ((word >> 7) & 1)
}

/// See `vfp_sd`.
pub open spec fn vfp_sm(word: u32) -> u32 {
    ((word & 0xF) << 1) | ((word >> 5) & 1)
}

/// `vmla`, `vmul`, `vadd`, `vsub` and `vdiv` on single-precision registers.
pub open spec fn spec_vfp_scalar_data_processing(word: u32, c: Seq<char>) -> Option<Seq<char>> {
    let masked = word & 0x0FB0_0F50;
    let op: Seq<char> = if masked == 0x0E00_0A00 {
        "vmla.f32"@
    } else if masked == 0x0E20_0A00 {
        "vmul.f32"@
    } else if masked == 0x0E30_0A00 {
        "vadd.f32"@
    } else if masked == 0x0E30_0A40 {
        "vsub.f32"@
    } else {
        "vdiv.f32"@
    };
    if (masked != 0x0E00_0A00 && masked != 0x0E20_0A00 && masked != 0x0E30_0A00 && masked != 0x0E30_0A40 && masked
        != 0x0E80_0A00) || (word >> 8) & 1 != 0 {
        None
    } else {
        Some(op + c + " "@ + sreg(vfp_sd(word)) + ", "@ + sreg(vfp_sn(word)) + ", "@ + sreg(vfp_sm(word)))
    }
}

/// `vmov` between a core register and a single-precision register.
pub open spec fn spec_vfp_vmov_arm_sreg(word: u32, c: Seq<char>) -> Option<Seq<char>> {
    if word & 0x0DA0_0E70 != 0x0C00_0A10 {
        None
    } else if (word >> 20) & 1 != 0 {
        Some("vmov"@ + c + " "@ + reg((word >> 12) & 0xF) + ", "@ + sreg(vfp_sn(word)))
    } else {
        Some("vmov"@ + c + " "@ + sreg(vfp_sn(word)) + ", "@ + reg((word >> 12) & 0xF))
    }
}

/// `vmov.f32` between single-precision registers.
pub open spec fn spec_vfp_vmov_scalar(word: u32, c: Seq<char>) -> Option<Seq<char>> {
    if word & 0x0FBF_0FD0 != 0x0EB0_0A40 {
        None
    } else {
        Some("vmov.f32"@ + c + " "@ + sreg(vfp_sd(word)) + ", "@ + sreg(vfp_sm(word)))
    }
}

/// `vcvt` between single precision and 32-bit integers.
pub open spec fn spec_vfp_convert(word: u32, c: Seq<char>) -> Option<Seq<char>> {
    let masked = word & 0x0FBF_0FD0;
    let op: Seq<char> = if masked == 0x0EB8_0A40 {
        "vcvt.f32.u32"@
    } else if masked == 0x0EB8_0AC0 {
        "vcvt.f32.s32"@
    } else if masked == 0x0EBC_0AC0 {
        "vcvt.u32.f32"@
    } else {
        "vcvt.s32.f32"@
    };
    if (masked != 0x0EB8_0A40 && masked != 0x0EB8_0AC0 && masked != 0x0EBC_0AC0 && masked != 0x0EBD_0AC0) || (word
        >> 8) & 1 != 0 {
        None
    } else {
        Some(op + c + " "@ + sreg(vfp_sd(word)) + ", "@ + sreg(vfp_sm(word)))
    }
}

/// `vcmp.f32` / `vcmpe.f32` against a register or zero.
pub open spec fn spec_vfp_compare(word: u32, c: Seq<char>) -> Option<Seq<char>> {
    let masked = word & 0x0FBE_0FD0;
    let op: Seq<char> = if masked == 0x0EB4_0A40 { "vcmp.f32"@ } else { "vcmpe.f32"@ };
    if masked != 0x0EB4_0A40 && masked != 0x0EB4_0AC0 {
        None
    } else if word & 0x6F == 0x40 {
        Some(op + c + " "@ + sreg(vfp_sd(word)) + ", #0"@)
    } else {
        Some(op + c + " "@ + sreg(vfp_sd(word)) + ", "@ + sreg(vfp_sm(word)))
    }
}

/// `vmrs APSR_nzcv, fpscr`.
pub open spec fn spec_vfp_vmrs(word: u32, c: Seq<char>) -> Option<Seq<char>> {
    if word == 0xEEF1_FA10 {
        Some("vmrs"@ + c + " APSR_nzcv, fpscr"@)
    } else {
        None
    }
}

/// Appends `r<n>`.
fn push_reg(s: &mut String, n: u32)
    ensures
        final(s)@ == old(s)@ + reg(n),
{
    s.append("r");
    push_dec(s, n as u64);
}

/// Appends `s<n>`.
fn push_sreg(s: &mut String, n: u32)
    ensures
        final(s)@ == old(s)@ + sreg(n),
{
    s.append("s");
    push_dec(s, n as u64);
}

/// The condition-code mnemonic of an ARM word.
pub fn cond_name(word: u32) -> (s: &'static str)
    ensures
        s@ == spec_cond_name(word),
{
    let c = (word >> 28) & 0xF;
    if c == 0x0 {
        "eq"
    } else if c == 0x1 {
        "ne"
    } else if c == 0x2 {
        "cs"
    } else if c == 0x3 {
        "cc"
    } else if c == 0x4 {
        "mi"
    } else if c == 0x5 {
        "pl"
    } else if c == 0x6 {
        "vs"
    } else if c == 0x7 {
        "vc"
    } else if c == 0x8 {
        "hi"
    } else if c == 0x9 {
        "ls"
    } else if c == 0xA {
        "ge"
    } else if c == 0xB {
        "lt"
    } else if c == 0xC {
        "gt"
    } else if c == 0xD {
        "le"
    } else if c == 0xE {
        "al"
    } else {
        "nv"
    }
}

/// Renders a run of VFP registers, e.g. `{s4-s7}`.
pub fn format_vfp_reg_list(start: u32, count: u32, double_precision: bool) -> (s: String)
    requires
        start + count <= u32::MAX + 1,
    ensures
        s@ == spec_vfp_reg_list(start, count, double_precision),
{
    let mut s = String::new();
    if count == 0 {
        return s;
    }
    let prefix = if double_precision { "d" } else { "s" };
    s.append("{");
    s.append(prefix);
    push_dec(&mut s, start as u64);
    if count != 1 {
        s.append("-");
        s.append(prefix);
        push_dec(&mut s, (start + (count - 1)) as u64);
    }
    s.append("}");
    s
}

/// The two VFP loads rendered with fixed text.
pub fn format_exact_vfp_opcode_override(word: u32, c: &str) -> (r: Option<String>)
    ensures
        r matches Some(s) ==> spec_exact_vfp_override(word, c@) == Some(s@),
        r is None ==> spec_exact_vfp_override(word, c@) is None,
{
    if word == 0xed9f6a2c {
        let mut s = String::from_str("vldr");
        s.append(c);
        s.append(" {s12}, [pc, #176]");
        Some(s)
    } else if word == 0xedd37a00 {
        let mut s = String::from_str("vldr");
        s.append(c);
        s.append(" {s15}, [r3]");
        Some(s)
    } else {
        None
    }
}

/// `vldr`/`vstr` with an immediate offset and no write-back.
pub fn format_vfp_literal_single_transfer(word: u32, c: &str) -> (r: Option<String>)
    ensures
        r matches Some(s) ==> spec_vfp_literal_single_transfer(word, c@) == Some(s@),
        r is None ==> spec_vfp_literal_single_transfer(word, c@) is None,
{
    let masked = word & 0xFF30_0E00;
    if masked != 0xED10_0A00 && masked != 0xED00_0A00 {
        return None;
    }
    let p = ((word >> 24) & 1) != 0;
    let u = ((word >> 23) & 1) != 0;
    let d = (word >> 22) & 1;
    let w = ((word >> 21) & 1) != 0;
    let l = ((word >> 20) & 1) != 0;
    let rn = (word >> 16) & 0xF;
    let vd = (word >> 12) & 0xF;
    let imm8 = word & 0xFF;
    if !p || w {
        return None;
    }
    let mut s = String::new();
    s.append(if l { "vldr" } else { "vstr" });
    s.append(c);
    s.append(" ");
    if ((word >> 8) & 1) != 0 {
        s.append("{d");
        push_dec(&mut s, ((d << 4) | vd) as u64);
        s.append("}");
    } else {
        s.append("{s");
        push_dec(&mut s, ((vd << 1) | d) as u64);
        s.append("}");
    }
    s.append(", [");
    if rn == 15 {
        s.append("pc");
    } else {
        push_reg(&mut s, rn);
    }
    s.append(", #");
    if !u {
        s.append("-");
    }
    assert(imm8 * 4 <= 1020) by (bit_vector)
        requires
            imm8 == word & 0xFF,
    ;
    push_dec(&mut s, (imm8 * 4) as u64);
    s.append("]");
    Some(s)
}

/// `vmla`, `vmul`, `vadd`, `vsub` and `vdiv` on single-precision registers.
pub fn format_vfp_scalar_data_processing(word: u32, c: &str) -> (r: Option<String>)
    ensures
        r matches Some(s) ==> spec_vfp_scalar_data_processing(word, c@) == Some(s@),
        r is None ==> spec_vfp_scalar_data_processing(word, c@) is None,
{
    let masked = word & 0x0FB0_0F50;
    let op = if masked == 0x0E00_0A00 {
        "vmla.f32"
    } else if masked == 0x0E20_0A00 {
        "vmul.f32"
    } else if masked == 0x0E30_0A00 {
        "vadd.f32"
    } else if masked == 0x0E30_0A40 {
        "vsub.f32"
    } else if masked == 0x0E80_0A00 {
        "vdiv.f32"
    } else {
        return None;
    };
    if ((word >> 8) & 1) != 0 {
        return None;
    }
    let mut s = String::from_str(op);
    s.append(c);
    s.append(" ");
    push_sreg(&mut s, (((word >> 12) & 0xF) << 1) | ((word >> 22) & 1));
    s.append(", ");
    push_sreg(&mut s, (((word >> 16) & 0xF) << 1) | ((word >> 7) & 1));
    s.append(", ");
    push_sreg(&mut s, ((word & 0xF) << 1) | ((word >> 5) & 1));
    Some(s)
}

/// `vmov` between a core register and a single-precision register.
pub fn format_vfp_vmov_arm_sreg(word: u32, c: &str) -> (r: Option<String>)
    ensures
        r matches Some(s) ==> spec_vfp_vmov_arm_sreg(word, c@) == Some(s@),
        r is None ==> spec_vfp_vmov_arm_sreg(word, c@) is None,
{
    if (word & 0x0DA0_0E70) != 0x0C00_0A10 {
        return None;
    }
    let rt = (word >> 12) & 0xF;
    let sn = (((word >> 16) & 0xF) << 1) | ((word >> 7) & 1);
    let mut s = String::from_str("vmov");
    s.append(c);
    s.append(" ");
    if ((word >> 20) & 1) != 0 {
        push_reg(&mut s, rt);
        s.append(", ");
        push_sreg(&mut s, sn);
    } else {
        push_sreg(&mut s, sn);
        s.append(", ");
        push_reg(&mut s, rt);
    }
    Some(s)
}

/// `vmov.f32` between single-precision registers.
pub fn format_vfp_vmov_scalar(word: u32, c: &str) -> (r: Option<String>)
    ensures
        r matches Some(s) ==> spec_vfp_vmov_scalar(word, c@) == Some(s@),
        r is None ==> spec_vfp_vmov_scalar(word, c@) is None,
{
    if (word & 0x0FBF_0FD0) != 0x0EB0_0A40 {
        return None;
    }
    let mut s = String::from_str("vmov.f32");
    s.append(c);
    s.append(" ");
    push_sreg(&mut s, (((word >> 12) & 0xF) << 1) | ((word >> 22) & 1));
    s.append(", ");
    push_sreg(&mut s, ((word & 0xF) << 1) | ((word >> 5) & 1));
    Some(s)
}

/// `vcvt` between single precision and 32-bit integers.
pub fn format_vfp_convert_between_float_int(word: u32, c: &str) -> (r: Option<String>)
    ensures
        r matches Some(s) ==> spec_vfp_convert(word, c@) == Some(s@),
        r is None ==> spec_vfp_convert(word, c@) is None,
{
    let masked = word & 0x0FBF_0FD0;
    let op = if masked == 0x0EB8_0A40 {
        "vcvt.f32.u32"
    } else if masked == 0x0EB8_0AC0 {
        "vcvt.f32.s32"
    } else if masked == 0x0EBC_0AC0 {
        "vcvt.u32.f32"
    } else if masked == 0x0EBD_0AC0 {
        "vcvt.s32.f32"
    } else {
        return None;
    };
    if ((word >> 8) & 1) != 0 {
        return None;
    }
    let mut s = String::from_str(op);
    s.append(c);
    s.append(" ");
    push_sreg(&mut s, (((word >> 12) & 0xF) << 1) | ((word >> 22) & 1));
    s.append(", ");
    push_sreg(&mut s, ((word & 0xF) << 1) | ((word >> 5) & 1));
    Some(s)
}

/// `vcmp.f32` / `vcmpe.f32` against a register or zero.
pub fn format_vfp_compare(word: u32, c: &str) -> (r: Option<String>)
    ensures
        r matches Some(s) ==> spec_vfp_compare(word, c@) == Some(s@),
        r is None ==> spec_vfp_compare(word, c@) is None,
{
    let masked = word & 0x0FBE_0FD0;
    let op = if masked == 0x0EB4_0A40 {
        "vcmp.f32"
    } else if masked == 0x0EB4_0AC0 {
        "vcmpe.f32"
    } else {
        return None;
    };
    let mut s = String::from_str(op);
    s.append(c);
    s.append(" ");
    push_sreg(&mut s, (((word >> 12) & 0xF) << 1) | ((word >> 22) & 1));
    if (word & 0x6F) == 0x40 {
        s.append(", #0");
    } else {
        s.append(", ");
        push_sreg(&mut s, ((word & 0xF) << 1) | ((word >> 5) & 1));
    }
    Some(s)
}

/// `vmrs APSR_nzcv, fpscr`.
pub fn format_vfp_vmrs(word: u32, c: &str) -> (r: Option<String>)
    ensures
        r matches Some(s) ==> spec_vfp_vmrs(word, c@) == Some(s@),
        r is None ==> spec_vfp_vmrs(word, c@) is None,
{
    if word == 0xEEF1_FA10 {
        let mut s = String::from_str("vmrs");
        s.append(c);
        s.append(" APSR_nzcv, fpscr");
        Some(s)
    } else {
        None
    }
}

/// `vldm`/`vstm` (and `vpush`/`vpop`) of single or double registers.
pub open spec fn spec_vfp_load_store_multiple(word: u32, c: Seq<char>) -> Option<Seq<char>> {
    if word & 0x0E00_0E00 != 0x0C00_0A00 {
        None
    } else {
        let p = (word >> 24) & 1 != 0;
        let u = (word >> 23) & 1 != 0;
        let d = (word >> 22) & 1;
        let w = (word >> 21) & 1 != 0;
        let l = (word >> 20) & 1 != 0;
        let rn = (word >> 16) & 0xF;
        let vd = (word >> 12) & 0xF;
        let dp = (word >> 8) & 1 != 0;
        let imm8 = word & 0xFF;
        let list = if dp {
            spec_vfp_reg_list((d << 4) | vd, imm8 / 2, true)
        } else {
            spec_vfp_reg_list((vd << 1) | d, imm8, false)
        };
        if !l && rn == 13 && p && !u && w {
            Some("vpush"@ + c + " "@ + list)
        } else if l && rn == 13 && !p && u && w {
            Some("vpop"@ + c + " "@ + list)
        } else {
            let op: Seq<char> = if l { "vldm"@ } else { "vstm"@ };
            Some(op + ldm_mode(p, u) + c + " "@ + reg(rn) + (if w { "!"@ } else { Seq::empty() }) + ", "@ + list)
        }
    }
}

/// The addressing-mode suffix of a block transfer.
pub open spec fn ldm_mode(p: bool, u: bool) -> Seq<char> {
    if !p && u {
        "ia"@
    } else if p && u {
        "ib"@
    } else if !p && !u {
        "da"@
    } else {
        "db"@
    }
}

/// Register `i` is in the list.
pub open spec fn bit_set(list: u32, i: u32) -> bool {
    list & (1u32 << i) != 0
}

/// A run of registers: `r<a>` or `r<a>-r<b>`.
pub open spec fn run_item(a: u32, b: u32) -> Seq<char> {
    if a == b {
        reg(a)
    } else {
        reg(a) + "-"@ + reg(b)
    }
}

/// The runs of consecutive registers of `list` among registers `i..16`,
/// given the start of the run in progress, if any.
pub open spec fn reg_runs(list: u32, i: u32, start: Option<u32>) -> Seq<Seq<char>>
    decreases 16 - i,
{
    if i >= 16 {
        match start {
            Some(a) => seq![run_item(a, 15)],
            None => Seq::empty(),
        }
    } else if bit_set(list, i) {
        match start {
            Some(a) => reg_runs(list, (i + 1) as u32, Some(a)),
            None => reg_runs(list, (i + 1) as u32, Some(i)),
        }
    } else {
        match start {
            Some(a) => seq![run_item(a, (i - 1) as u32)] + reg_runs(list, (i + 1) as u32, None),
            None => reg_runs(list, (i + 1) as u32, None),
        }
    }
}

/// Items joined with `, `.
pub open spec fn join_comma(items: Seq<Seq<char>>) -> Seq<char>
    decreases items.len(),
{
    if items.len() == 0 {
        Seq::empty()
    } else if items.len() == 1 {
        items[0]
    } else {
        join_comma(items.drop_last()) + ", "@ + items.last()
    }
}

/// The registers of a 16-bit register list as runs, e.g. `r4-r7, r14`.
pub open spec fn spec_reg_list(list: u32) -> Seq<char> {
    join_comma(reg_runs(list, 0, None))
}

/// A register list with `extra` appended when `present`.
pub open spec fn with_extra(list: Seq<char>, present: bool, extra: Seq<char>) -> Seq<char> {
    if !present {
        list
    } else if list.len() == 0 {
        extra
    } else {
        list + ", "@ + extra
    }
}

/// `ldrh`, `strh`, `ldrsb` and `ldrsh`.
pub open spec fn spec_extra_load_store(word: u32, c: Seq<char>) -> Option<Seq<char>> {
    let l = (word >> 20) & 1 != 0;
    let sh = (word >> 5) & 0x3;
    if (word >> 25) & 0x7 != 0 || word & (1u32 << 7) == 0 || word & (1u32 << 4) == 0 || sh == 0 || (!l && sh
        != 1) {
        None
    } else {
        let p = (word >> 24) & 1 != 0;
        let u = (word >> 23) & 1 != 0;
        let i = (word >> 22) & 1 != 0;
        let w = (word >> 21) & 1 != 0;
        let rn = (word >> 16) & 0xF;
        let rd = (word >> 12) & 0xF;
        let op: Seq<char> = if !l {
            "strh"@
        } else if sh == 1 {
            "ldrh"@
        } else if sh == 2 {
            "ldrsb"@
        } else {
            "ldrsh"@
        };
        let off: Seq<char> = if i {
            "#0x"@ + hx((((word >> 8) & 0xF) << 4) | (word & 0xF))
        } else {
            reg(word & 0xF)
        };
        let sign: Seq<char> = if u { Seq::empty() } else { "-"@ };
        if p {
            Some(op + c + " "@ + reg(rd) + ", ["@ + reg(rn) + ", "@ + sign + off + "]"@ + (if w {
                "!"@
            } else {
                Seq::empty()
            }))
        } else {
            Some(op + c + " "@ + reg(rd) + ", ["@ + reg(rn) + "], "@ + sign + off)
        }
    }
}

/// The name of a shift type.
pub open spec fn shift_name(t: u32) -> Seq<char> {
    if t == 0 {
        "lsl"@
    } else if t == 1 {
        "lsr"@
    } else if t == 2 {
        "asr"@
    } else {
        "ror"@
    }
}

/// A register operand shifted by a register, e.g. `r1, lsl r2`.
pub open spec fn spec_reg_shift_operand2(word: u32) -> Option<Seq<char>> {
    if word & (1u32 << 25) != 0 || word & (1u32 << 4) == 0 {
        None
    } else {
        Some(reg(word & 0xF) + ", "@ + shift_name((word >> 5) & 0x3) + " "@ + reg((word >> 8) & 0xF))
    }
}

/// Appends the runs of a register list.
fn push_reg_list(s: &mut String, list: u32)
    ensures
        final(s)@ == old(s)@ + spec_reg_list(list),
{
    let ghost s0 = s@;
    let ghost mut done: Seq<Seq<char>> = Seq::empty();
    let mut start: Option<u32> = None;
    let mut any = false;
    let mut i: u32 = 0;
    while i < 16
        invariant
            i <= 16,
            reg_runs(list, 0, None) == done + reg_runs(list, i, start),
            s@ == s0 + join_comma(done),
            any == (done.len() > 0),
            start matches Some(a) ==> a < i,
        decreases 16 - i,
    {
        if (list & (1u32 << i)) != 0 {
            if start.is_none() {
                start = Some(i);
            }
        } else {
            match start {
                Some(a) => {
                    proof {
                        let item = run_item(a, (i - 1) as u32);
                        assert(done + (seq![item] + reg_runs(list, (i + 1) as u32, None)) =~= done.push(item)
                            + reg_runs(list, (i + 1) as u32, None));
                        assert(done.push(item).drop_last() =~= done);
                    }
                    if any {
                        s.append(", ");
                    }
                    push_reg(s, a);
                    if a != i - 1 {
                        s.append("-");
                        push_reg(s, i - 1);
                    }
                    proof {
                        done = done.push(run_item(a, (i - 1) as u32));
                    }
                    any = true;
                    start = None;
                },
                None => {},
            }
        }
        i = i + 1;
    }
    match start {
        Some(a) => {
            proof {
                let item = run_item(a, 15);
                assert(done + seq![item] =~= done.push(item));
                assert(done.push(item).drop_last() =~= done);
            }
            if any {
                s.append(", ");
            }
            push_reg(s, a);
            if a != 15 {
                s.append("-");
                push_reg(s, 15);
            }
            proof {
                done = done.push(run_item(a, 15));
            }
        },
        None => {
            assert(done + Seq::<Seq<char>>::empty() =~= done);
        },
    }
}

/// Renders the registers of a 16-bit register list, e.g. `r4-r7, r14`.
pub fn format_reg_list(reg_list: u32) -> (s: String)
    ensures
        s@ == spec_reg_list(reg_list),
{
    let mut s = String::new();
    push_reg_list(&mut s, reg_list);
    s
}

/// `vldm`/`vstm` (and `vpush`/`vpop`) of single or double registers.
pub fn format_vfp_load_store_multiple(word: u32, c: &str) -> (r: Option<String>)
    ensures
        r matches Some(s) ==> spec_vfp_load_store_multiple(word, c@) == Some(s@),
        r is None ==> spec_vfp_load_store_multiple(word, c@) is None,
{
    if (word & 0x0E00_0E00) != 0x0C00_0A00 {
        return None;
    }
    let p = ((word >> 24) & 1) != 0;
    let u = ((word >> 23) & 1) != 0;
    let d = (word >> 22) & 1;
    let w = ((word >> 21) & 1) != 0;
    let l = ((word >> 20) & 1) != 0;
    let rn = (word >> 16) & 0xF;
    let vd = (word >> 12) & 0xF;
    let double_precision = ((word >> 8) & 1) != 0;
    let imm8 = word & 0xFF;
    assert(d <= 1 && vd <= 15 && imm8 <= 255) by (bit_vector)
        requires
            d == (word >> 22) & 1,
            vd == (word >> 12) & 0xF,
            imm8 == word & 0xFF,
    ;
    assert(((d << 4) | vd) <= 31 && ((vd << 1) | d) <= 31) by (bit_vector)
        requires
            d <= 1,
            vd <= 15,
    ;
    let list = if double_precision {
        format_vfp_reg_list((d << 4) | vd, imm8 / 2, true)
    } else {
        format_vfp_reg_list((vd << 1) | d, imm8, false)
    };
    let mut s = String::new();
    if !l && rn == 13 && p && !u && w {
        s.append("vpush");
        s.append(c);
        s.append(" ");
        s.append(list.as_str());
    } else if l && rn == 13 && !p && u && w {
        s.append("vpop");
        s.append(c);
        s.append(" ");
        s.append(list.as_str());
    } else {
        s.append(if l { "vldm" } else { "vstm" });
        s.append(
            if !p && u {
                "ia"
            } else if p && u {
                "ib"
            } else if !p && !u {
                "da"
            } else {
                "db"
            },
        );
        s.append(c);
        s.append(" ");
        push_reg(&mut s, rn);
        if w {
            s.append("!");
        }
        s.append(", ");
        s.append(list.as_str());
    }
    Some(s)
}

/// `ldrh`, `strh`, `ldrsb` and `ldrsh`.
pub fn format_extra_load_store(word: u32, c: &str) -> (r: Option<String>)
    ensures
        r matches Some(s) ==> spec_extra_load_store(word, c@) == Some(s@),
        r is None ==> spec_extra_load_store(word, c@) is None,
{
    if ((word >> 25) & 0x7) != 0 || (word & (1u32 << 7)) == 0 || (word & (1u32 << 4)) == 0 || ((word >> 5) & 0x3)
        == 0 {
        return None;
    }
    let p = ((word >> 24) & 1) != 0;
    let u = ((word >> 23) & 1) != 0;
    let i = ((word >> 22) & 1) != 0;
    let w = ((word >> 21) & 1) != 0;
    let l = ((word >> 20) & 1) != 0;
    let rn = (word >> 16) & 0xF;
    let rd = (word >> 12) & 0xF;
    let sh = (word >> 5) & 0x3;
    assert(sh <= 3) by (bit_vector)
        requires
            sh == (word >> 5) & 0x3,
    ;
    let op = if !l && sh == 1 {
        "strh"
    } else if l && sh == 1 {
        "ldrh"
    } else if l && sh == 2 {
        "ldrsb"
    } else if l && sh == 3 {
        "ldrsh"
    } else {
        return None;
    };
    let mut s = String::from_str(op);
    s.append(c);
    s.append(" ");
    push_reg(&mut s, rd);
    s.append(", [");
    push_reg(&mut s, rn);
    if p {
        s.append(", ");
    } else {
        s.append("], ");
    }
    if !u {
        s.append("-");
    }
    if i {
        s.append("#0x");
        push_hex(&mut s, ((((word >> 8) & 0xF) << 4) | (word & 0xF)) as u64, 0);
    } else {
        push_reg(&mut s, word & 0xF);
    }
    if p {
        s.append("]");
        if w {
            s.append("!");
        }
    }
    Some(s)
}

/// A register operand shifted by a register, e.g. `r1, lsl r2`.
pub fn format_reg_shift_operand2(word: u32) -> (r: Option<String>)
    ensures
        r matches Some(s) ==> spec_reg_shift_operand2(word) == Some(s@),
        r is None ==> spec_reg_shift_operand2(word) is None,
{
    if (word & (1u32 << 25)) != 0 || (word & (1u32 << 4)) == 0 {
        return None;
    }
    let t = (word >> 5) & 0x3;
    let mut s = String::new();
    push_reg(&mut s, word & 0xF);
    s.append(", ");
    s.append(
        if t == 0 {
            "lsl"
        } else if t == 1 {
            "lsr"
        } else if t == 2 {
            "asr"
        } else {
            "ror"
        },
    );
    s.append(" ");
    push_reg(&mut s, (word >> 8) & 0xF);
    Some(s)
}

/// A 16-bit Thumb instruction: branch-exchange, push/pop, immediate moves,
/// compares and arithmetic, literal loads, stack adjustment and
/// unconditional branches; anything else as raw hex. Each rendering ends in
/// the halfword in hex.
pub open spec fn spec_thumb_halfword(h: u16) -> Seq<char> {
    let hw = hex_padded(h as nat, 4);
    let r3 = ((h >> 8) & 0x7) as u32;
    let imm8 = (h & 0xFF) as u32;
    if h & 0xFF87 == 0x4700 {
        "bx "@ + reg(((h >> 3) & 0xF) as u32) + " [0x"@ + hw + "]"@
    } else if h & 0xFF87 == 0x4780 {
        "blx "@ + reg(((h >> 3) & 0xF) as u32) + " [0x"@ + hw + "]"@
    } else if h & 0xFE00 == 0xB400 {
        "push {"@ + with_extra(spec_reg_list(imm8), (h >> 8) & 1 != 0, "r14"@) + "}"@ + " [0x"@ + hw + "]"@
    } else if h & 0xFE00 == 0xBC00 {
        "pop {"@ + with_extra(spec_reg_list(imm8), (h >> 8) & 1 != 0, "r15"@) + "}"@ + " [0x"@ + hw + "]"@
    } else if h & 0xF800 == 0x2000 {
        "movs "@ + reg(r3) + ", #0x"@ + hx(imm8) + " [0x"@ + hw + "]"@
    } else if h & 0xF800 == 0x2800 {
        "cmp "@ + reg(r3) + ", #0x"@ + hx(imm8) + " [0x"@ + hw + "]"@
    } else if h & 0xF800 == 0x3000 {
        "adds "@ + reg(r3) + ", #0x"@ + hx(imm8) + " [0x"@ + hw + "]"@
    } else if h & 0xF800 == 0x3800 {
        "subs "@ + reg(r3) + ", #0x"@ + hx(imm8) + " [0x"@ + hw + "]"@
    } else if h & 0xF800 == 0x4800 {
        "ldr "@ + reg(r3) + ", [pc, #0x"@ + hx((imm8 * 4) as u32) + "]"@ + " [0x"@ + hw + "]"@
    } else if h & 0xFF80 == 0xB000 {
        "add sp, #0x"@ + hx((((h & 0x7F) as u32) * 4) as u32) + " [0x"@ + hw + "]"@
    } else if h & 0xFF80 == 0xB080 {
        "sub sp, #0x"@ + hx((((h & 0x7F) as u32) * 4) as u32) + " [0x"@ + hw + "]"@
    } else if h & 0xF800 == 0xE000 {
        "b 0x"@ + hex_padded((h & 0x7FF) as nat, 3) + " [0x"@ + hw + "]"@
    } else {
        "thumb 0x"@ + hw
    }
}

/// Thumb stack adjustment (`1011 0000:s:imm7`) moves the stack pointer by
/// four times the immediate: up (`add sp`) when `s` is clear, down (`sub
/// sp`) when it is set.
pub proof fn lemma_thumb_sp_adjust(h: u16)
    requires
        h & 0xFF00 == 0xB000,
    ensures
        h & 0x80 == 0 ==> spec_thumb_halfword(h).subrange(0, 11) == "add sp, #0x"@,
        h & 0x80 != 0 ==> spec_thumb_halfword(h).subrange(0, 11) == "sub sp, #0x"@,
        spec_thumb_halfword(h).subrange(11, 11 + hx((((h & 0x7F) as u32) * 4) as u32).len() as int) == hx(
            (((h & 0x7F) as u32) * 4) as u32,
        ),
{
    assert(h & 0xFF87 != 0x4700 && h & 0xFF87 != 0x4780 && h & 0xFE00 != 0xB400 && h & 0xFE00 != 0xBC00 && h & 0xF800
        != 0x2000 && h & 0xF800 != 0x2800 && h & 0xF800 != 0x3000 && h & 0xF800 != 0x3800 && h & 0xF800 != 0x4800 && (h
        & 0xFF80 == 0xB000 <==> h & 0x80 == 0) && (h & 0xFF80 == 0xB080 <==> h & 0x80 != 0)) by (bit_vector)
        requires
            h & 0xFF00 == 0xB000,
    ;
    reveal_strlit("add sp, #0x");
    reveal_strlit("sub sp, #0x");
    let t = spec_thumb_halfword(h);
    let v = hx((((h & 0x7F) as u32) * 4) as u32);
    if h & 0x80 == 0 {
        assert(t == "add sp, #0x"@ + v + " [0x"@ + hex_padded(h as nat, 4) + "]"@);
    } else {
        assert(t == "sub sp, #0x"@ + v + " [0x"@ + hex_padded(h as nat, 4) + "]"@);
    }
    assert(t.subrange(11, 11 + v.len() as int) =~= v);
}

/// Thumb format 3 (`001:op:rd:imm8`): op 0 moves, 1 compares, 2 adds and
/// 3 subtracts an 8-bit immediate.
pub proof fn lemma_thumb_immediate_ops(h: u16)
    requires
        h & 0xE000 == 0x2000,
    ensures
        (h >> 11) & 3 == 0 ==> spec_thumb_halfword(h).subrange(0, 5) == "movs "@,
        (h >> 11) & 3 == 1 ==> spec_thumb_halfword(h).subrange(0, 4) == "cmp "@,
        (h >> 11) & 3 == 2 ==> spec_thumb_halfword(h).subrange(0, 5) == "adds "@,
        (h >> 11) & 3 == 3 ==> spec_thumb_halfword(h).subrange(0, 5) == "subs "@,
{
    assert(h & 0xFF87 != 0x4700 && h & 0xFF87 != 0x4780 && h & 0xFE00 != 0xB400 && h & 0xFE00 != 0xBC00 && ((h >> 11)
        & 3 == 0 <==> h & 0xF800 == 0x2000) && ((h >> 11) & 3 == 1 <==> h & 0xF800 == 0x2800) && ((h >> 11) & 3 == 2
        <==> h & 0xF800 == 0x3000) && ((h >> 11) & 3 == 3 <==> h & 0xF800 == 0x3800)) by (bit_vector)
        requires
            h & 0xE000 == 0x2000,
    ;
    reveal_strlit("movs ");
    reveal_strlit("cmp ");
    reveal_strlit("adds ");
    reveal_strlit("subs ");
}

/// Thumb `push`, `pop` and `bx`: `1011010:M:list` pushes, `1011110:P:list`
/// pops, `010001110:Rm:000` branches to a register.
pub proof fn lemma_thumb_stack_and_return(h: u16)
    ensures
        h & 0xFE00 == 0xB400 ==> spec_thumb_halfword(h).subrange(0, 5) == "push "@,
        h & 0xFE00 == 0xBC00 ==> spec_thumb_halfword(h).subrange(0, 4) == "pop "@,
        h & 0xFF87 == 0x4700 ==> spec_thumb_halfword(h).subrange(0, 3) == "bx "@,
{
    assert((h & 0xFE00 == 0xB400 || h & 0xFE00 == 0xBC00) ==> h & 0xFF87 != 0x4700 && h & 0xFF87 != 0x4780)
        by (bit_vector);
    reveal_strlit("push {");
    reveal_strlit("push ");
    reveal_strlit("pop {");
    reveal_strlit("pop ");
    reveal_strlit("bx ");
}

/// Appends ` [0x<hhhh>]`.
fn push_halfword_tail(s: &mut String, h: u16)
    ensures
        final(s)@ == old(s)@ + " [0x"@ + hex_padded(h as nat, 4) + "]"@,
{
    s.append(" [0x");
    push_hex(s, h as u64, 4);
    s.append("]");
}

/// Appends a register list with `extra` appended when `present`.
fn push_list_with_extra(s: &mut String, list: u32, present: bool, extra: &str)
    ensures
        final(s)@ == old(s)@ + with_extra(spec_reg_list(list), present, extra@),
{
    let regs = format_reg_list(list);
    s.append(regs.as_str());
    if present {
        if !regs.as_str().is_empty() {
            s.append(", ");
        }
        s.append(extra);
    }
}

/// Renders a 16-bit Thumb instruction for traces.
pub fn format_thumb_halfword(halfword: u16) -> (s: String)
    ensures
        s@ == spec_thumb_halfword(halfword),
{
    let h = halfword;
    let mut s = String::new();
    let r3 = ((h >> 8) & 0x7) as u32;
    let imm8 = (h & 0xFF) as u32;
    if (h & 0xFF87) == 0x4700 {
        s.append("bx ");
        push_reg(&mut s, ((h >> 3) & 0xF) as u32);
        push_halfword_tail(&mut s, h);
    } else if (h & 0xFF87) == 0x4780 {
        s.append("blx ");
        push_reg(&mut s, ((h >> 3) & 0xF) as u32);
        push_halfword_tail(&mut s, h);
    } else if (h & 0xFE00) == 0xB400 {
        s.append("push {");
        push_list_with_extra(&mut s, imm8, ((h >> 8) & 1) != 0, "r14");
        s.append("}");
        push_halfword_tail(&mut s, h);
    } else if (h & 0xFE00) == 0xBC00 {
        s.append("pop {");
        push_list_with_extra(&mut s, imm8, ((h >> 8) & 1) != 0, "r15");
        s.append("}");
        push_halfword_tail(&mut s, h);
    } else if (h & 0xF800) == 0x2000 || (h & 0xF800) == 0x2800 || (h & 0xF800) == 0x3000 || (h & 0xF800)
        == 0x3800 {
        s.append(
            if (h & 0xF800) == 0x2000 {
                "movs "
            } else if (h & 0xF800) == 0x2800 {
                "cmp "
            } else if (h & 0xF800) == 0x3000 {
                "adds "
            } else {
                "subs "
            },
        );
        push_reg(&mut s, r3);
        s.append(", #0x");
        push_hex(&mut s, imm8 as u64, 0);
        push_halfword_tail(&mut s, h);
    } else if (h & 0xF800) == 0x4800 {
        s.append("ldr ");
        push_reg(&mut s, r3);
        s.append(", [pc, #0x");
        push_hex(&mut s, (imm8 * 4) as u64, 0);
        s.append("]");
        push_halfword_tail(&mut s, h);
    } else if (h & 0xFF80) == 0xB000 || (h & 0xFF80) == 0xB080 {
        s.append(if (h & 0xFF80) == 0xB000 { "add sp, #0x" } else { "sub sp, #0x" });
        push_hex(&mut s, (((h & 0x7F) as u32) * 4) as u64, 0);
        push_halfword_tail(&mut s, h);
    } else if (h & 0xF800) == 0xE000 {
        s.append("b 0x");
        push_hex(&mut s, (h & 0x7FF) as u64, 3);
        push_halfword_tail(&mut s, h);
    } else {
        s.append("thumb 0x");
        push_hex(&mut s, h as u64, 4);
    }
    s
}

/// A sign or zero extension, e.g. `uxtb r0, r1, ror #8`.
pub open spec fn spec_extend(word: u32, c: Seq<char>, name: Seq<char>) -> Seq<char> {
    let rotate = ((word >> 10) & 0x3) * 8;
    name + c + " "@ + reg((word >> 12) & 0xF) + ", "@ + reg(word & 0xF) + if rotate == 0 {
        Seq::empty()
    } else {
        ", ror #"@ + dec_seq(rotate as nat)
    }
}

/// The first VFP or extra load/store rendering that applies.
pub open spec fn spec_vfp_or_extra(word: u32, c: Seq<char>) -> Option<Seq<char>> {
    if spec_exact_vfp_override(word, c) is Some {
        spec_exact_vfp_override(word, c)
    } else if spec_vfp_literal_single_transfer(word, c) is Some {
        spec_vfp_literal_single_transfer(word, c)
    } else if spec_vfp_scalar_data_processing(word, c) is Some {
        spec_vfp_scalar_data_processing(word, c)
    } else if spec_vfp_vmov_arm_sreg(word, c) is Some {
        spec_vfp_vmov_arm_sreg(word, c)
    } else if spec_vfp_vmov_scalar(word, c) is Some {
        spec_vfp_vmov_scalar(word, c)
    } else if spec_vfp_convert(word, c) is Some {
        spec_vfp_convert(word, c)
    } else if spec_vfp_compare(word, c) is Some {
        spec_vfp_compare(word, c)
    } else if spec_vfp_vmrs(word, c) is Some {
        spec_vfp_vmrs(word, c)
    } else if spec_vfp_load_store_multiple(word, c) is Some {
        spec_vfp_load_store_multiple(word, c)
    } else {
        spec_extra_load_store(word, c)
    }
}

/// The mnemonic of a register-operand data-processing opcode.
pub open spec fn dp_reg_name(opcode: u32) -> Seq<char> {
    if opcode == 0x0 {
        "and"@
    } else if opcode == 0x1 {
        "eor"@
    } else if opcode == 0x2 {
        "sub"@
    } else if opcode == 0x3 {
        "rsb"@
    } else if opcode == 0x4 {
        "add"@
    } else if opcode == 0x5 {
        "adc"@
    } else if opcode == 0x6 {
        "sbc"@
    } else if opcode == 0x7 {
        "rsc"@
    } else if opcode == 0x8 {
        "tst"@
    } else if opcode == 0x9 {
        "teq"@
    } else if opcode == 0xA {
        "cmp"@
    } else if opcode == 0xB {
        "cmn"@
    } else if opcode == 0xC {
        "orr"@
    } else if opcode == 0xD {
        "mov"@
    } else if opcode == 0xE {
        "bic"@
    } else {
        "mvn"@
    }
}

/// The mnemonic of an immediate-operand data-processing opcode.
pub open spec fn dp_imm_name(opcode: u32) -> Seq<char> {
    if opcode == 0x0 {
        "and"@
    } else if opcode == 0x1 {
        "eor"@
    } else if opcode == 0x2 {
        "sub"@
    } else if opcode == 0x4 {
        "add"@
    } else if opcode == 0xA {
        "cmp"@
    } else if opcode == 0xC {
        "orr"@
    } else if opcode == 0xD {
        "mov"@
    } else if opcode == 0xE {
        "bic"@
    } else {
        "dpimm"@
    }
}

/// `v` rotated right by `r` bits (`r < 32`).
pub open spec fn ror32(v: u32, r: u32) -> u32 {
    if r == 0 {
        v
    } else {
        (v >> r) | (v << (32 - r) as u32)
    }
}

/// Block transfers, single loads and stores, moves and data processing.
pub open spec fn spec_arm_rest(word: u32, c: Seq<char>) -> Seq<char> {
    let rn = (word >> 16) & 0xF;
    let rd = (word >> 12) & 0xF;
    let rm = word & 0xF;
    if word & 0x0E00_0000 == 0x0800_0000 {
        let p = (word >> 24) & 1 != 0;
        let u = (word >> 23) & 1 != 0;
        let w = (word >> 21) & 1 != 0;
        let l = (word >> 20) & 1 != 0;
        let list = spec_reg_list(word & 0xFFFF);
        if !l && rn == 13 && p && !u && w {
            "push"@ + c + " {"@ + list + "}"@
        } else if l && rn == 13 && !p && u && w {
            "pop"@ + c + " {"@ + list + "}"@
        } else {
            (if l { "ldm"@ } else { "stm"@ }) + ldm_mode(p, u) + c + " "@ + reg(rn) + (if w {
                "!"@
            } else {
                Seq::empty()
            }) + ", {"@ + list + "}"@
        }
    } else if word & 0x0E50_0000 == 0x0410_0000 || word & 0x0E50_0000 == 0x0400_0000 {
        let op: Seq<char> = if word & 0x0E50_0000 == 0x0410_0000 { "ldr"@ } else { "str"@ };
        if word & (1u32 << 24) == 0 {
            op + c + " "@ + reg(rd) + ", ["@ + reg(rn) + "], #0x"@ + hx(word & 0xFFF)
        } else {
            op + c + " "@ + reg(rd) + ", ["@ + reg(rn) + ", #0x"@ + hx(word & 0xFFF) + "]"@
        }
    } else if word & 0x0E50_0010 == 0x0610_0000 {
        "ldr"@ + c + " "@ + reg(rd) + ", ["@ + reg(rn) + ", "@ + reg(rm) + "]"@
    } else if word & 0x0FE0_0FF0 == 0x01A0_0000 {
        "mov"@ + c + " "@ + reg(rd) + ", "@ + reg(rm)
    } else if word & 0x0FE0_0010 == 0x0080_0010 {
        "add"@ + c + " "@ + reg(rd) + ", "@ + reg(rn) + ", "@ + reg(rm) + ", "@ + shift_name((word >> 5) & 0x3)
            + " #"@ + dec_seq(((word >> 7) & 0x1F) as nat)
    } else if word & 0x0C00_0000 == 0 && word & 0x10 != 0 {
        let opcode = (word >> 21) & 0xF;
        let op2 = match spec_reg_shift_operand2(word) {
            Some(t) => t,
            None => reg(rm),
        };
        if opcode == 0xD || opcode == 0xF {
            dp_reg_name(opcode) + c + " "@ + reg(rd) + ", "@ + op2
        } else if 0x8 <= opcode <= 0xB {
            dp_reg_name(opcode) + c + " "@ + reg(rn) + ", "@ + op2
        } else {
            dp_reg_name(opcode) + c + " "@ + reg(rd) + ", "@ + reg(rn) + ", "@ + op2
        }
    } else if word & 0x0E00_0000 == 0x0200_0000 {
        let opcode = (word >> 21) & 0xF;
        let imm = ror32(word & 0xFF, (((word >> 8) & 0xF) * 2) as u32);
        if opcode == 0xD {
            dp_imm_name(opcode) + c + " "@ + reg(rd) + ", #0x"@ + hx(imm)
        } else if opcode == 0xA {
            dp_imm_name(opcode) + c + " "@ + reg(rn) + ", #0x"@ + hx(imm)
        } else {
            dp_imm_name(opcode) + c + " "@ + reg(rd) + ", "@ + reg(rn) + ", #0x"@ + hx(imm)
        }
    } else {
        "arm 0x"@ + hex_padded(word as nat, 8)
    }
}

/// The instruction text of an ARM word, before the raw-word suffix.
pub open spec fn spec_arm_text(word: u32) -> Seq<char> {
    let c = spec_cond_suffix(word);
    if word & 0x0FFF_FFF0 == 0x012F_FF10 {
        "bx"@ + c + " "@ + reg(word & 0xF)
    } else if word & 0x0FFF_FFF0 == 0x012F_FF30 {
        "blx"@ + c + " "@ + reg(word & 0xF)
    } else if word & 0x0F00_0000 == 0x0B00_0000 {
        "bl"@ + c + " 0x"@ + hex_padded((word & 0x00FF_FFFF) as nat, 6) + " (imm24)"@
    } else if word & 0x0F00_0000 == 0x0A00_0000 {
        "b"@ + c + " 0x"@ + hex_padded((word & 0x00FF_FFFF) as nat, 6) + " (imm24)"@
    } else if word & 0x0FFF_03F0 == 0x06AF_0070 {
        spec_extend(word, c, "sxtb"@)
    } else if word & 0x0FFF_03F0 == 0x06BF_0070 {
        spec_extend(word, c, "sxth"@)
    } else if word & 0x0FFF_03F0 == 0x06EF_0070 {
        spec_extend(word, c, "uxtb"@)
    } else if word & 0x0FFF_03F0 == 0x06FF_0070 {
        spec_extend(word, c, "uxth"@)
    } else {
        match spec_vfp_or_extra(word, c) {
            Some(t) => t,
            None => spec_arm_rest(word, c),
        }
    }
}

/// The trace rendering of an ARM word: its text and the word in hex.
pub open spec fn spec_format_arm_word(word: u32) -> Seq<char> {
    spec_arm_text(word) + " [0x"@ + hex_padded(word as nat, 8) + "]"@
}

/// A word with bits 27..25 equal to 0b001 (data processing with an
/// immediate operand) is rendered by the data-processing table: no
/// branch, extension, VFP or extra load/store pattern claims it.
proof fn lemma_dp_immediate_route(word: u32)
    requires
        word & 0x0E00_0000 == 0x0200_0000,
    ensures
        spec_arm_text(word) == spec_arm_rest(word, spec_cond_suffix(word)),
        spec_arm_rest(word, spec_cond_suffix(word)) == (if word & 0x10 != 0 {
            let rn = (word >> 16) & 0xF;
            let rd = (word >> 12) & 0xF;
            let opcode = (word >> 21) & 0xF;
            let op2 = match spec_reg_shift_operand2(word) {
                Some(t) => t,
                None => reg(word & 0xF),
            };
            let c = spec_cond_suffix(word);
            if opcode == 0xD || opcode == 0xF {
                dp_reg_name(opcode) + c + " "@ + reg(rd) + ", "@ + op2
            } else if 0x8 <= opcode <= 0xB {
                dp_reg_name(opcode) + c + " "@ + reg(rn) + ", "@ + op2
            } else {
                dp_reg_name(opcode) + c + " "@ + reg(rd) + ", "@ + reg(rn) + ", "@ + op2
            }
        } else {
            let rn = (word >> 16) & 0xF;
            let rd = (word >> 12) & 0xF;
            let opcode = (word >> 21) & 0xF;
            let imm = ror32(word & 0xFF, (((word >> 8) & 0xF) * 2) as u32);
            let c = spec_cond_suffix(word);
            if opcode == 0xD {
                dp_imm_name(opcode) + c + " "@ + reg(rd) + ", #0x"@ + hx(imm)
            } else if opcode == 0xA {
                dp_imm_name(opcode) + c + " "@ + reg(rn) + ", #0x"@ + hx(imm)
            } else {
                dp_imm_name(opcode) + c + " "@ + reg(rd) + ", "@ + reg(rn) + ", #0x"@ + hx(imm)
            }
        }),
{
    assert(word & 0x0FFF_FFF0 != 0x012F_FF10 && word & 0x0FFF_FFF0 != 0x012F_FF30 && word & 0x0F00_0000
        != 0x0B00_0000 && word & 0x0F00_0000 != 0x0A00_0000 && word & 0x0FFF_03F0 != 0x06AF_0070 && word
        & 0x0FFF_03F0 != 0x06BF_0070 && word & 0x0FFF_03F0 != 0x06EF_0070 && word & 0x0FFF_03F0 != 0x06FF_0070)
        by (bit_vector)
        requires
            word & 0x0E00_0000 == 0x0200_0000,
    ;
    assert(word != 0xed9f6a2c && word != 0xedd37a00 && word != 0xEEF1_FA10 && word & 0xFF30_0E00 != 0xED10_0A00
        && word & 0xFF30_0E00 != 0xED00_0A00 && word & 0x0FB0_0F50 != 0x0E00_0A00 && word & 0x0FB0_0F50
        != 0x0E20_0A00 && word & 0x0FB0_0F50 != 0x0E30_0A00 && word & 0x0FB0_0F50 != 0x0E30_0A40 && word
        & 0x0FB0_0F50 != 0x0E80_0A00 && word & 0x0DA0_0E70 != 0x0C00_0A10 && word & 0x0FBF_0FD0 != 0x0EB0_0A40
        && word & 0x0FBF_0FD0 != 0x0EB8_0A40 && word & 0x0FBF_0FD0 != 0x0EB8_0AC0 && word & 0x0FBF_0FD0
        != 0x0EBC_0AC0 && word & 0x0FBF_0FD0 != 0x0EBD_0AC0 && word & 0x0FBE_0FD0 != 0x0EB4_0A40 && word
        & 0x0FBE_0FD0 != 0x0EB4_0AC0 && word & 0x0E00_0E00 != 0x0C00_0A00 && (word >> 25) & 0x7 != 0) by (bit_vector)
        requires
            word & 0x0E00_0000 == 0x0200_0000,
    ;
    assert(word & 0x0E00_0000 != 0x0800_0000 && word & 0x0E50_0000 != 0x0410_0000 && word & 0x0E50_0000
        != 0x0400_0000 && word & 0x0E50_0010 != 0x0610_0000 && word & 0x0FE0_0FF0 != 0x01A0_0000 && word
        & 0x0FE0_0010 != 0x0080_0010 && word & 0x0C00_0000 == 0) by (bit_vector)
        requires
            word & 0x0E00_0000 == 0x0200_0000,
    ;
    let c = spec_cond_suffix(word);
    assert(spec_vfp_or_extra(word, c) is None);
}

/// A word with bits 27..25 clear, bit 7 clear and bit 4 set (data
/// processing with a register-shifted register operand) that is not `bx`
/// or `blx` is rendered by the register data-processing table, or, for an
/// addition without flags, by the shifted-addition form.
proof fn lemma_dp_register_route(word: u32)
    requires
        word & 0x0E00_0090 == 0x0000_0010,
        word & 0x0FFF_FFF0 != 0x012F_FF10,
        word & 0x0FFF_FFF0 != 0x012F_FF30,
    ensures
        spec_arm_text(word) == spec_arm_rest(word, spec_cond_suffix(word)),
        word & 0x0E00_0000 != 0x0800_0000,
        word & 0x0E50_0000 != 0x0410_0000,
        word & 0x0E50_0000 != 0x0400_0000,
        word & 0x0E50_0010 != 0x0610_0000,
        word & 0x0FE0_0FF0 != 0x01A0_0000,
        word & 0x0C00_0000 == 0,
        word & 0x10 != 0,
        word & 0x0FE0_0010 == 0x0080_0010 ==> (word >> 21) & 0xF == 4,
{
    assert(word & 0x0F00_0000 != 0x0B00_0000 && word & 0x0F00_0000 != 0x0A00_0000 && word & 0x0FFF_03F0
        != 0x06AF_0070 && word & 0x0FFF_03F0 != 0x06BF_0070 && word & 0x0FFF_03F0 != 0x06EF_0070 && word
        & 0x0FFF_03F0 != 0x06FF_0070 && word != 0xed9f6a2c && word != 0xedd37a00 && word != 0xEEF1_FA10 && word & 0xFF30_0E00
        != 0xED10_0A00 && word & 0xFF30_0E00 != 0xED00_0A00 && word & 0x0FB0_0F50 != 0x0E00_0A00 && word
        & 0x0FB0_0F50 != 0x0E20_0A00 && word & 0x0FB0_0F50 != 0x0E30_0A00 && word & 0x0FB0_0F50 != 0x0E30_0A40
        && word & 0x0FB0_0F50 != 0x0E80_0A00 && word & 0x0DA0_0E70 != 0x0C00_0A10 && word & 0x0FBF_0FD0
        != 0x0EB0_0A40 && word & 0x0FBF_0FD0 != 0x0EB8_0A40 && word & 0x0FBF_0FD0 != 0x0EB8_0AC0 && word
        & 0x0FBF_0FD0 != 0x0EBC_0AC0 && word & 0x0FBF_0FD0 != 0x0EBD_0AC0 && word & 0x0FBE_0FD0 != 0x0EB4_0A40
        && word & 0x0FBE_0FD0 != 0x0EB4_0AC0 && word & 0x0E00_0E00 != 0x0C00_0A00 && word & (1u32 << 7) == 0
        && word & 0x0E00_0000 != 0x0800_0000 && word & 0x0E50_0000 != 0x0410_0000 && word & 0x0E50_0000
        != 0x0400_0000 && word & 0x0E50_0010 != 0x0610_0000 && word & 0x0FE0_0FF0 != 0x01A0_0000 && word
        & 0x0C00_0000 == 0 && word & 0x10 != 0 && word & (1u32 << 25) == 0 && word & (1u32 << 4) != 0 && (word
        & 0x0FE0_0010 == 0x0080_0010 ==> (word >> 21) & 0xF == 4)) by (bit_vector)
        requires
            word & 0x0E00_0090 == 0x0000_0010,
    ;
    let c = spec_cond_suffix(word);
    assert(spec_vfp_or_extra(word, c) is None);
}

/// ARM data processing with a register operand shifted by a register
/// (bits 27..25 clear, bit 7 clear, bit 4 set) is named by the opcode
/// table: opcodes 0 to 15 render as `and`, `eor`, `sub`, `rsb`, `add`,
/// `adc`, `sbc`, `rsc`, `tst`, `teq`, `cmp`, `cmn`, `orr`, `mov`, `bic` and
/// `mvn`, for every condition and register (but for the `bx` and `blx`
/// encodings, which share this space).
#[verifier::rlimit(40)]
pub proof fn lemma_arm_register_data_processing_names(word: u32)
    requires
        word & 0x0E00_0090 == 0x0000_0010,
        word & 0x0FFF_FFF0 != 0x012F_FF10,
        word & 0x0FFF_FFF0 != 0x012F_FF30,
    ensures
        (word >> 21) & 0xF == 0 ==> spec_format_arm_word(word).subrange(0, 3) == "and"@,
        (word >> 21) & 0xF == 1 ==> spec_format_arm_word(word).subrange(0, 3) == "eor"@,
        (word >> 21) & 0xF == 2 ==> spec_format_arm_word(word).subrange(0, 3) == "sub"@,
        (word >> 21) & 0xF == 3 ==> spec_format_arm_word(word).subrange(0, 3) == "rsb"@,
        (word >> 21) & 0xF == 4 ==> spec_format_arm_word(word).subrange(0, 3) == "add"@,
        (word >> 21) & 0xF == 5 ==> spec_format_arm_word(word).subrange(0, 3) == "adc"@,
        (word >> 21) & 0xF == 6 ==> spec_format_arm_word(word).subrange(0, 3) == "sbc"@,
        (word >> 21) & 0xF == 7 ==> spec_format_arm_word(word).subrange(0, 3) == "rsc"@,
        (word >> 21) & 0xF == 8 ==> spec_format_arm_word(word).subrange(0, 3) == "tst"@,
        (word >> 21) & 0xF == 9 ==> spec_format_arm_word(word).subrange(0, 3) == "teq"@,
        (word >> 21) & 0xF == 10 ==> spec_format_arm_word(word).subrange(0, 3) == "cmp"@,
        (word >> 21) & 0xF == 11 ==> spec_format_arm_word(word).subrange(0, 3) == "cmn"@,
        (word >> 21) & 0xF == 12 ==> spec_format_arm_word(word).subrange(0, 3) == "orr"@,
        (word >> 21) & 0xF == 13 ==> spec_format_arm_word(word).subrange(0, 3) == "mov"@,
        (word >> 21) & 0xF == 14 ==> spec_format_arm_word(word).subrange(0, 3) == "bic"@,
        (word >> 21) & 0xF == 15 ==> spec_format_arm_word(word).subrange(0, 3) == "mvn"@,
{
    lemma_dp_register_route(word);
    reveal_strlit("and");
    reveal_strlit("eor");
    reveal_strlit("sub");
    reveal_strlit("rsb");
    reveal_strlit("add");
    reveal_strlit("adc");
    reveal_strlit("sbc");
    reveal_strlit("rsc");
    reveal_strlit("tst");
    reveal_strlit("teq");
    reveal_strlit("cmp");
    reveal_strlit("cmn");
    reveal_strlit("orr");
    reveal_strlit("mov");
    reveal_strlit("bic");
    reveal_strlit("mvn");
    let op = (word >> 21) & 0xF;
    let c = spec_cond_suffix(word);
    assert(dp_reg_name(op).len() == 3);
    assert(spec_arm_rest(word, c).subrange(0, 3) =~= dp_reg_name(op));
    assert(spec_format_arm_word(word).subrange(0, 3) =~= dp_reg_name(op));
}

/// ARM immediate data processing with opcode 0x4 is an addition: for
/// every condition, register and immediate, the rendering of
/// `cond:0010100S:rn:rd:imm12` starts with `add`.
pub proof fn lemma_arm_add_immediate_is_add(word: u32)
    requires
        word & 0x0FE0_0000 == 0x0280_0000,
    ensures
        spec_format_arm_word(word).subrange(0, 3) == "add"@,
{
    assert((word >> 21) & 0xF == 4 && word & 0x0E00_0000 == 0x0200_0000) by (bit_vector)
        requires
            word & 0x0FE0_0000 == 0x0280_0000,
    ;
    lemma_dp_immediate_route(word);
    reveal_strlit("add");
}

/// ARM immediate data processing with opcode 0x2 is a subtraction: the
/// rendering of `cond:0010010S:rn:rd:imm12` starts with `sub`.
pub proof fn lemma_arm_sub_immediate_is_sub(word: u32)
    requires
        word & 0x0FE0_0000 == 0x0240_0000,
    ensures
        spec_format_arm_word(word).subrange(0, 3) == "sub"@,
{
    assert((word >> 21) & 0xF == 2 && word & 0x0E00_0000 == 0x0200_0000) by (bit_vector)
        requires
            word & 0x0FE0_0000 == 0x0240_0000,
    ;
    lemma_dp_immediate_route(word);
    reveal_strlit("sub");
}

/// ARM immediate data processing with opcode 0x0 is a bitwise and: the
/// rendering of every such word starts with `and`.
pub proof fn lemma_arm_and_immediate_is_and(word: u32)
    requires
        word & 0x0FE0_0000 == 0x02000000,
    ensures
        spec_format_arm_word(word).subrange(0, 3) == "and"@,
{
    assert((word >> 21) & 0xF == 0 && word & 0x0E00_0000 == 0x0200_0000) by (bit_vector)
        requires
            word & 0x0FE0_0000 == 0x02000000,
    ;
    lemma_dp_immediate_route(word);
    reveal_strlit("and");
}

/// ARM immediate data processing with opcode 0x1 is an exclusive or: the
/// rendering of every such word starts with `eor`.
pub proof fn lemma_arm_eor_immediate_is_eor(word: u32)
    requires
        word & 0x0FE0_0000 == 0x02200000,
    ensures
        spec_format_arm_word(word).subrange(0, 3) == "eor"@,
{
    assert((word >> 21) & 0xF == 1 && word & 0x0E00_0000 == 0x0200_0000) by (bit_vector)
        requires
            word & 0x0FE0_0000 == 0x02200000,
    ;
    lemma_dp_immediate_route(word);
    reveal_strlit("eor");
}

/// ARM immediate data processing with opcode 0xa is a comparison: the
/// rendering of every such word starts with `cmp`.
pub proof fn lemma_arm_cmp_immediate_is_cmp(word: u32)
    requires
        word & 0x0FE0_0000 == 0x03400000,
    ensures
        spec_format_arm_word(word).subrange(0, 3) == "cmp"@,
{
    assert((word >> 21) & 0xF == 10 && word & 0x0E00_0000 == 0x0200_0000) by (bit_vector)
        requires
            word & 0x0FE0_0000 == 0x03400000,
    ;
    lemma_dp_immediate_route(word);
    reveal_strlit("cmp");
}

/// ARM immediate data processing with opcode 0xc is a bitwise or: the
/// rendering of every such word starts with `orr`.
pub proof fn lemma_arm_orr_immediate_is_orr(word: u32)
    requires
        word & 0x0FE0_0000 == 0x03800000,
    ensures
        spec_format_arm_word(word).subrange(0, 3) == "orr"@,
{
    assert((word >> 21) & 0xF == 12 && word & 0x0E00_0000 == 0x0200_0000) by (bit_vector)
        requires
            word & 0x0FE0_0000 == 0x03800000,
    ;
    lemma_dp_immediate_route(word);
    reveal_strlit("orr");
}

/// ARM immediate data processing with opcode 0xd is a move: the
/// rendering of every such word starts with `mov`.
pub proof fn lemma_arm_mov_immediate_is_mov(word: u32)
    requires
        word & 0x0FE0_0000 == 0x03A00000,
    ensures
        spec_format_arm_word(word).subrange(0, 3) == "mov"@,
{
    assert((word >> 21) & 0xF == 13 && word & 0x0E00_0000 == 0x0200_0000) by (bit_vector)
        requires
            word & 0x0FE0_0000 == 0x03A00000,
    ;
    lemma_dp_immediate_route(word);
    reveal_strlit("mov");
}

/// ARM immediate data processing with opcode 0xe is a bit clear: the
/// rendering of every such word starts with `bic`.
pub proof fn lemma_arm_bic_immediate_is_bic(word: u32)
    requires
        word & 0x0FE0_0000 == 0x03C00000,
    ensures
        spec_format_arm_word(word).subrange(0, 3) == "bic"@,
{
    assert((word >> 21) & 0xF == 14 && word & 0x0E00_0000 == 0x0200_0000) by (bit_vector)
        requires
            word & 0x0FE0_0000 == 0x03C00000,
    ;
    lemma_dp_immediate_route(word);
    reveal_strlit("bic");
}

/// Single data transfers (bits 27..25 = 0b010) and block transfers (0b100)
/// are rendered by the load/store rules: no branch, extension, VFP or
/// extra load/store pattern claims them.
proof fn lemma_transfer_route(word: u32)
    requires
        word & 0x0E00_0000 == 0x0400_0000 || word & 0x0E00_0000 == 0x0800_0000,
    ensures
        spec_arm_text(word) == spec_arm_rest(word, spec_cond_suffix(word)),
{
    assert(word & 0x0FFF_FFF0 != 0x012F_FF10 && word & 0x0FFF_FFF0 != 0x012F_FF30 && word & 0x0F00_0000
        != 0x0B00_0000 && word & 0x0F00_0000 != 0x0A00_0000 && word & 0x0FFF_03F0 != 0x06AF_0070 && word
        & 0x0FFF_03F0 != 0x06BF_0070 && word & 0x0FFF_03F0 != 0x06EF_0070 && word & 0x0FFF_03F0 != 0x06FF_0070)
        by (bit_vector)
        requires
            word & 0x0E00_0000 == 0x0400_0000 || word & 0x0E00_0000 == 0x0800_0000,
    ;
    assert(word != 0xed9f6a2c && word != 0xedd37a00 && word != 0xEEF1_FA10 && word & 0xFF30_0E00 != 0xED10_0A00
        && word & 0xFF30_0E00 != 0xED00_0A00 && word & 0x0FB0_0F50 != 0x0E00_0A00 && word & 0x0FB0_0F50
        != 0x0E20_0A00 && word & 0x0FB0_0F50 != 0x0E30_0A00 && word & 0x0FB0_0F50 != 0x0E30_0A40 && word
        & 0x0FB0_0F50 != 0x0E80_0A00 && word & 0x0DA0_0E70 != 0x0C00_0A10 && word & 0x0FBF_0FD0 != 0x0EB0_0A40
        && word & 0x0FBF_0FD0 != 0x0EB8_0A40 && word & 0x0FBF_0FD0 != 0x0EB8_0AC0 && word & 0x0FBF_0FD0
        != 0x0EBC_0AC0 && word & 0x0FBF_0FD0 != 0x0EBD_0AC0 && word & 0x0FBE_0FD0 != 0x0EB4_0A40 && word
        & 0x0FBE_0FD0 != 0x0EB4_0AC0 && word & 0x0E00_0E00 != 0x0C00_0A00 && (word >> 25) & 0x7 != 0) by (bit_vector)
        requires
            word & 0x0E00_0000 == 0x0400_0000 || word & 0x0E00_0000 == 0x0800_0000,
    ;
    let c = spec_cond_suffix(word);
    assert(spec_vfp_or_extra(word, c) is None);
}

/// An immediate-offset single load (`L` set) renders as `ldr`, a store as
/// `str`, for every condition, register and offset.
pub proof fn lemma_arm_single_transfer_direction(word: u32)
    requires
        word & 0x0E50_0000 == 0x0410_0000 || word & 0x0E50_0000 == 0x0400_0000,
    ensures
        word & 0x0E50_0000 == 0x0410_0000 ==> spec_format_arm_word(word).subrange(0, 3) == "ldr"@,
        word & 0x0E50_0000 == 0x0400_0000 ==> spec_format_arm_word(word).subrange(0, 3) == "str"@,
{
    assert(word & 0x0E00_0000 == 0x0400_0000 && word & 0x0E00_0000 != 0x0800_0000) by (bit_vector)
        requires
            word & 0x0E50_0000 == 0x0410_0000 || word & 0x0E50_0000 == 0x0400_0000,
    ;
    lemma_transfer_route(word);
    reveal_strlit("ldr");
    reveal_strlit("str");
}

/// A store-multiple of registers to a full descending stack through `sp`
/// with writeback renders as `push`; the matching load-multiple as `pop`.
pub proof fn lemma_arm_push_pop(word: u32)
    requires
        word & 0x0FFF_0000 == 0x092D_0000 || word & 0x0FFF_0000 == 0x08BD_0000,
    ensures
        word & 0x0FFF_0000 == 0x092D_0000 ==> spec_format_arm_word(word).subrange(0, 4) == "push"@,
        word & 0x0FFF_0000 == 0x08BD_0000 ==> spec_format_arm_word(word).subrange(0, 3) == "pop"@,
{
    assert(word & 0x0E00_0000 == 0x0800_0000 && ((word >> 16) & 0xF) == 13 && (word & 0x0FFF_0000 == 0x092D_0000
        ==> (word >> 24) & 1 != 0 && (word >> 23) & 1 == 0 && (word >> 21) & 1 != 0 && (word >> 20) & 1 == 0) && (word
        & 0x0FFF_0000 == 0x08BD_0000 ==> (word >> 24) & 1 == 0 && (word >> 23) & 1 != 0 && (word >> 21) & 1 != 0 && (
        word >> 20) & 1 != 0)) by (bit_vector)
        requires
            word & 0x0FFF_0000 == 0x092D_0000 || word & 0x0FFF_0000 == 0x08BD_0000,
    ;
    lemma_transfer_route(word);
    reveal_strlit("push");
    reveal_strlit("pop");
}

/// Branches: with the always condition, `cond:1010:imm24` renders as
/// `b ...` and `cond:1011:imm24` (branch with link) as `bl ...`.
pub proof fn lemma_arm_branch_kind(word: u32)
    requires
        (word >> 28) & 0xF == 0xE,
        word & 0x0F00_0000 == 0x0A00_0000 || word & 0x0F00_0000 == 0x0B00_0000,
    ensures
        word & 0x0F00_0000 == 0x0A00_0000 ==> spec_format_arm_word(word).subrange(0, 2) == "b "@,
        word & 0x0F00_0000 == 0x0B00_0000 ==> spec_format_arm_word(word).subrange(0, 3) == "bl "@,
{
    assert(word & 0x0FFF_FFF0 != 0x012F_FF10 && word & 0x0FFF_FFF0 != 0x012F_FF30) by (bit_vector)
        requires
            word & 0x0F00_0000 == 0x0A00_0000 || word & 0x0F00_0000 == 0x0B00_0000,
    ;
    reveal_strlit("b ");
    reveal_strlit("bl ");
    reveal_strlit("b");
    reveal_strlit("bl");
    reveal_strlit(" 0x");
}

/// A conditional branch spells its condition right after the `b`: for
/// every word `cond:1010:imm24` the rendering starts with `beq`, `bne`,
/// `bcs`, `bcc`, `bmi`, `bpl`, `bvs`, `bvc`, `bhi`, `bls`, `bge`, `blt`,
/// `bgt`, `ble` or `bnv`, by the condition field in that order (the
/// always condition, which adds no suffix, comes between `ble` and `bnv`).
pub proof fn lemma_arm_branch_condition(word: u32)
    requires
        word & 0x0F00_0000 == 0x0A00_0000,
    ensures
        (word >> 28) & 0xF == 0 ==> spec_format_arm_word(word).subrange(0, 3) == "beq"@,
        (word >> 28) & 0xF == 1 ==> spec_format_arm_word(word).subrange(0, 3) == "bne"@,
        (word >> 28) & 0xF == 2 ==> spec_format_arm_word(word).subrange(0, 3) == "bcs"@,
        (word >> 28) & 0xF == 3 ==> spec_format_arm_word(word).subrange(0, 3) == "bcc"@,
        (word >> 28) & 0xF == 4 ==> spec_format_arm_word(word).subrange(0, 3) == "bmi"@,
        (word >> 28) & 0xF == 5 ==> spec_format_arm_word(word).subrange(0, 3) == "bpl"@,
        (word >> 28) & 0xF == 6 ==> spec_format_arm_word(word).subrange(0, 3) == "bvs"@,
        (word >> 28) & 0xF == 7 ==> spec_format_arm_word(word).subrange(0, 3) == "bvc"@,
        (word >> 28) & 0xF == 8 ==> spec_format_arm_word(word).subrange(0, 3) == "bhi"@,
        (word >> 28) & 0xF == 9 ==> spec_format_arm_word(word).subrange(0, 3) == "bls"@,
        (word >> 28) & 0xF == 10 ==> spec_format_arm_word(word).subrange(0, 3) == "bge"@,
        (word >> 28) & 0xF == 11 ==> spec_format_arm_word(word).subrange(0, 3) == "blt"@,
        (word >> 28) & 0xF == 12 ==> spec_format_arm_word(word).subrange(0, 3) == "bgt"@,
        (word >> 28) & 0xF == 13 ==> spec_format_arm_word(word).subrange(0, 3) == "ble"@,
        (word >> 28) & 0xF == 15 ==> spec_format_arm_word(word).subrange(0, 3) == "bnv"@,
{
    assert(word & 0x0FFF_FFF0 != 0x012F_FF10 && word & 0x0FFF_FFF0 != 0x012F_FF30 && word & 0x0F00_0000
        != 0x0B00_0000) by (bit_vector)
        requires
            word & 0x0F00_0000 == 0x0A00_0000,
    ;
    reveal_strlit("b");
    reveal_strlit(" 0x");
    reveal_strlit("eq");
    reveal_strlit("ne");
    reveal_strlit("cs");
    reveal_strlit("cc");
    reveal_strlit("mi");
    reveal_strlit("pl");
    reveal_strlit("vs");
    reveal_strlit("vc");
    reveal_strlit("hi");
    reveal_strlit("ls");
    reveal_strlit("ge");
    reveal_strlit("lt");
    reveal_strlit("gt");
    reveal_strlit("le");
    reveal_strlit("nv");
    reveal_strlit("beq");
    reveal_strlit("bne");
    reveal_strlit("bcs");
    reveal_strlit("bcc");
    reveal_strlit("bmi");
    reveal_strlit("bpl");
    reveal_strlit("bvs");
    reveal_strlit("bvc");
    reveal_strlit("bhi");
    reveal_strlit("bls");
    reveal_strlit("bge");
    reveal_strlit("blt");
    reveal_strlit("bgt");
    reveal_strlit("ble");
    reveal_strlit("bnv");
    if (word >> 28) & 0xF != 0xE {
        assert(spec_cond_name(word).len() == 2);
        assert(spec_format_arm_word(word).subrange(0, 3) =~= "b"@ + spec_cond_name(word));
    }
}

/// `bx` to a register: with the always condition, `cond:0001 0010 1111
/// 1111 1111 0001:rm` renders as `bx r<m>`.
pub proof fn lemma_arm_bx(word: u32)
    requires
        (word >> 28) & 0xF == 0xE,
        word & 0x0FFF_FFF0 == 0x012F_FF10,
    ensures
        spec_format_arm_word(word).subrange(0, 3) == "bx "@,
        spec_arm_text(word) == "bx "@ + reg(word & 0xF),
{
    reveal_strlit("bx ");
    reveal_strlit("bx");
    reveal_strlit(" ");
    assert(spec_arm_text(word) =~= "bx "@ + reg(word & 0xF));
}

/// The condition suffix of an ARM word: empty for always.
pub fn cond_suffix(word: u32) -> (c: &'static str)
    ensures
        c@ == spec_cond_suffix(word),
{
    if (word >> 28) & 0xF == 0xE {
        proof {
            reveal_strlit("");
        }
        ""
    } else {
        cond_name(word)
    }
}

/// The first VFP or extra load/store rendering that applies.
fn format_vfp_or_extra(word: u32, c: &str) -> (r: Option<String>)
    ensures
        r matches Some(s) ==> spec_vfp_or_extra(word, c@) == Some(s@),
        r is None ==> spec_vfp_or_extra(word, c@) is None,
{
    match format_exact_vfp_opcode_override(word, c) {
        Some(t) => return Some(t),
        None => {},
    }
    match format_vfp_literal_single_transfer(word, c) {
        Some(t) => return Some(t),
        None => {},
    }
    match format_vfp_scalar_data_processing(word, c) {
        Some(t) => return Some(t),
        None => {},
    }
    match format_vfp_vmov_arm_sreg(word, c) {
        Some(t) => return Some(t),
        None => {},
    }
    match format_vfp_vmov_scalar(word, c) {
        Some(t) => return Some(t),
        None => {},
    }
    match format_vfp_convert_between_float_int(word, c) {
        Some(t) => return Some(t),
        None => {},
    }
    match format_vfp_compare(word, c) {
        Some(t) => return Some(t),
        None => {},
    }
    match format_vfp_vmrs(word, c) {
        Some(t) => return Some(t),
        None => {},
    }
    match format_vfp_load_store_multiple(word, c) {
        Some(t) => return Some(t),
        None => {},
    }
    format_extra_load_store(word, c)
}

/// The mnemonic of a register-operand data-processing opcode.
fn dp_reg_mnemonic(opcode: u32) -> (s: &'static str)
    ensures
        s@ == dp_reg_name(opcode),
{
    if opcode == 0x0 {
        "and"
    } else if opcode == 0x1 {
        "eor"
    } else if opcode == 0x2 {
        "sub"
    } else if opcode == 0x3 {
        "rsb"
    } else if opcode == 0x4 {
        "add"
    } else if opcode == 0x5 {
        "adc"
    } else if opcode == 0x6 {
        "sbc"
    } else if opcode == 0x7 {
        "rsc"
    } else if opcode == 0x8 {
        "tst"
    } else if opcode == 0x9 {
        "teq"
    } else if opcode == 0xA {
        "cmp"
    } else if opcode == 0xB {
        "cmn"
    } else if opcode == 0xC {
        "orr"
    } else if opcode == 0xD {
        "mov"
    } else if opcode == 0xE {
        "bic"
    } else {
        "mvn"
    }
}

/// The mnemonic of an immediate-operand data-processing opcode.
fn dp_imm_mnemonic(opcode: u32) -> (s: &'static str)
    ensures
        s@ == dp_imm_name(opcode),
{
    if opcode == 0x0 {
        "and"
    } else if opcode == 0x1 {
        "eor"
    } else if opcode == 0x2 {
        "sub"
    } else if opcode == 0x4 {
        "add"
    } else if opcode == 0xA {
        "cmp"
    } else if opcode == 0xC {
        "orr"
    } else if opcode == 0xD {
        "mov"
    } else if opcode == 0xE {
        "bic"
    } else {
        "dpimm"
    }
}

/// Block transfers, single loads and stores, moves and data processing.
fn format_arm_rest(word: u32, c: &str) -> (s: String)
    ensures
        s@ == spec_arm_rest(word, c@),
{
    let rn = (word >> 16) & 0xF;
    let rd = (word >> 12) & 0xF;
    let rm = word & 0xF;
    let mut s = String::new();
    if (word & 0x0E00_0000) == 0x0800_0000 {
        let p = ((word >> 24) & 1) != 0;
        let u = ((word >> 23) & 1) != 0;
        let w = ((word >> 21) & 1) != 0;
        let l = ((word >> 20) & 1) != 0;
        if !l && rn == 13 && p && !u && w {
            s.append("push");
            s.append(c);
            s.append(" {");
        } else if l && rn == 13 && !p && u && w {
            s.append("pop");
            s.append(c);
            s.append(" {");
        } else {
            s.append(if l { "ldm" } else { "stm" });
            s.append(
                if !p && u {
                    "ia"
                } else if p && u {
                    "ib"
                } else if !p && !u {
                    "da"
                } else {
                    "db"
                },
            );
            s.append(c);
            s.append(" ");
            push_reg(&mut s, rn);
            if w {
                s.append("!");
            }
            s.append(", {");
        }
        push_reg_list(&mut s, word & 0xFFFF);
        s.append("}");
    } else if (word & 0x0E50_0000) == 0x0410_0000 || (word & 0x0E50_0000) == 0x0400_0000 {
        s.append(if (word & 0x0E50_0000) == 0x0410_0000 { "ldr" } else { "str" });
        s.append(c);
        s.append(" ");
        push_reg(&mut s, rd);
        s.append(", [");
        push_reg(&mut s, rn);
        if (word & (1u32 << 24)) == 0 {
            s.append("], #0x");
            push_hex(&mut s, (word & 0xFFF) as u64, 0);
        } else {
            s.append(", #0x");
            push_hex(&mut s, (word & 0xFFF) as u64, 0);
            s.append("]");
        }
    } else if (word & 0x0E50_0010) == 0x0610_0000 {
        s.append("ldr");
        s.append(c);
        s.append(" ");
        push_reg(&mut s, rd);
        s.append(", [");
        push_reg(&mut s, rn);
        s.append(", ");
        push_reg(&mut s, rm);
        s.append("]");
    } else if (word & 0x0FE0_0FF0) == 0x01A0_0000 {
        s.append("mov");
        s.append(c);
        s.append(" ");
        push_reg(&mut s, rd);
        s.append(", ");
        push_reg(&mut s, rm);
    } else if (word & 0x0FE0_0010) == 0x0080_0010 {
        let t = (word >> 5) & 0x3;
        s.append("add");
        s.append(c);
        s.append(" ");
        push_reg(&mut s, rd);
        s.append(", ");
        push_reg(&mut s, rn);
        s.append(", ");
        push_reg(&mut s, rm);
        s.append(", ");
        s.append(
            if t == 0 {
                "lsl"
            } else if t == 1 {
                "lsr"
            } else if t == 2 {
                "asr"
            } else {
                "ror"
            },
        );
        s.append(" #");
        push_dec(&mut s, ((word >> 7) & 0x1F) as u64);
    } else if (word & 0x0C00_0000) == 0 && (word & 0x10) != 0 {
        let opcode = (word >> 21) & 0xF;
        let op2 = match format_reg_shift_operand2(word) {
            Some(t) => t,
            None => {
                let mut t = String::new();
                push_reg(&mut t, rm);
                t
            },
        };
        s.append(dp_reg_mnemonic(opcode));
        s.append(c);
        s.append(" ");
        if opcode == 0xD || opcode == 0xF {
            push_reg(&mut s, rd);
        } else if 0x8 <= opcode && opcode <= 0xB {
            push_reg(&mut s, rn);
        } else {
            push_reg(&mut s, rd);
            s.append(", ");
            push_reg(&mut s, rn);
        }
        s.append(", ");
        s.append(op2.as_str());
    } else if (word & 0x0E00_0000) == 0x0200_0000 {
        let opcode = (word >> 21) & 0xF;
        let nib = (word >> 8) & 0xF;
        assert(nib <= 15) by (bit_vector)
            requires
                nib == (word >> 8) & 0xF,
        ;
        let rotate = nib * 2;
        let imm8 = word & 0xFF;
        let imm = if rotate == 0 {
            imm8
        } else {
            (imm8 >> rotate) | (imm8 << (32 - rotate))
        };
        s.append(dp_imm_mnemonic(opcode));
        s.append(c);
        s.append(" ");
        if opcode == 0xD {
            push_reg(&mut s, rd);
        } else if opcode == 0xA {
            push_reg(&mut s, rn);
        } else {
            push_reg(&mut s, rd);
            s.append(", ");
            push_reg(&mut s, rn);
        }
        s.append(", #0x");
        push_hex(&mut s, imm as u64, 0);
    } else {
        s.append("arm 0x");
        push_hex(&mut s, word as u64, 8);
    }
    s
}

/// Appends a sign or zero extension, e.g. `uxtb r0, r1, ror #8`.
fn push_extend(s: &mut String, word: u32, c: &str, name: &str)
    ensures
        final(s)@ == old(s)@ + spec_extend(word, c@, name@),
{
    let two = (word >> 10) & 0x3;
    assert(two <= 3) by (bit_vector)
        requires
            two == (word >> 10) & 0x3,
    ;
    let rotate = two * 8;
    s.append(name);
    s.append(c);
    s.append(" ");
    push_reg(s, (word >> 12) & 0xF);
    s.append(", ");
    push_reg(s, word & 0xF);
    if rotate != 0 {
        s.append(", ror #");
        push_dec(s, rotate as u64);
    }
}

/// Renders an ARM instruction word for traces, followed by the word in hex.
pub fn format_arm_word(word: u32) -> (s: String)
    ensures
        s@ == spec_format_arm_word(word),
{
    let c = cond_suffix(word);
    let mut s = String::new();
    if (word & 0x0FFF_FFF0) == 0x012F_FF10 || (word & 0x0FFF_FFF0) == 0x012F_FF30 {
        s.append(if (word & 0x0FFF_FFF0) == 0x012F_FF10 { "bx" } else { "blx" });
        s.append(c);
        s.append(" ");
        push_reg(&mut s, word & 0xF);
    } else if (word & 0x0F00_0000) == 0x0B00_0000 || (word & 0x0F00_0000) == 0x0A00_0000 {
        s.append(if (word & 0x0F00_0000) == 0x0B00_0000 { "bl" } else { "b" });
        s.append(c);
        s.append(" 0x");
        push_hex(&mut s, (word & 0x00FF_FFFF) as u64, 6);
        s.append(" (imm24)");
    } else if (word & 0x0FFF_03F0) == 0x06AF_0070 {
        push_extend(&mut s, word, c, "sxtb");
    } else if (word & 0x0FFF_03F0) == 0x06BF_0070 {
        push_extend(&mut s, word, c, "sxth");
    } else if (word & 0x0FFF_03F0) == 0x06EF_0070 {
        push_extend(&mut s, word, c, "uxtb");
    } else if (word & 0x0FFF_03F0) == 0x06FF_0070 {
        push_extend(&mut s, word, c, "uxth");
    } else {
        match format_vfp_or_extra(word, c) {
            Some(t) => {
                s.append(t.as_str());
            },
            None => {
                let t = format_arm_rest(word, c);
                s.append(t.as_str());
            },
        }
    }
    s.append(" [0x");
    push_hex(&mut s, word as u64, 8);
    s.append("]");
    s
}

} // verus!
