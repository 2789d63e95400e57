//! Linking code buffers: their instructions are laid out one after the other, their labels
//! and call sites are collected with global indices, and calls to defined labels are patched
//! with PC-relative offsets.
use vstd::prelude::*;
use crate::codegen::{ASMGenerator, CodeSink};
use crate::common::{branch_distance, calc_b_imm26, calc_bcond_imm19, trunc_div, BL, B_COND};
use crate::labelmap::{keys_distinct, LabelCalls, LabelOffsets};
use crate::listing::{arm64_disassembly, disassembly_listing, le_bytes, listing_text};

verus! {

/// The offset field of a `b`/`bl` from instruction `caller` to instruction `callee`.
pub open spec fn b_offset_field(caller: u32, callee: u32) -> u32 {
    let imm = trunc_div(callee as int * 4 - caller as int * 4, 4);
    (if imm < 0 { (0x1000_0000 + imm) as u32 } else { imm as u32 }) & 0x3ff_ffff
}

/// The offset field of a `b.cond` from instruction `caller` to instruction `callee`.
pub open spec fn bcond_offset_field(caller: u32, callee: u32) -> u32 {
    let imm = trunc_div(callee as int * 4 - caller as int * 4, 2);
    if imm < 0 { (0x10_0000 + imm) as u32 } else { imm as u32 }
}

/// The instruction kinds that can be patched: those with the `bl` bits or the `b.cond` bits.
pub open spec fn is_patchable(inst: u32) -> bool {
    inst & BL == BL || inst & B_COND == B_COND
}

/// `inst` at index `caller` patched to reach index `callee`: a `bl` is rebuilt from its opcode
/// and the low 19 bits of the offset field; a `b.cond` gets the offset field ORed in at bit 5.
pub open spec fn patched(inst: u32, caller: u32, callee: u32) -> u32 {
    if inst & BL == BL {
        BL | ((b_offset_field(caller, callee) & 0x7ffff) & 0x3ff_ffff)
    } else {
        inst | (bcond_offset_field(caller, callee) << 5)
    }
}

/// A `bl` patched for a forward call of fewer than 2^19 instructions carries the distance
/// from the caller to the callee, in instructions, as its offset field, so it branches to
/// the callee.
pub proof fn lemma_patched_bl_reaches_callee(caller: u32, callee: u32)
    requires
        caller <= callee,
        callee - caller < 0x8_0000,
    ensures
        patched(BL, caller, callee) == BL | ((callee - caller) as u32),
{
    let d = (callee - caller) as u32;
    assert(callee as int * 4 - caller as int * 4 == 4 * (d as int));
    assert(trunc_div(4 * (d as int), 4) == d);
    assert(BL & BL == BL && (d < 0x8_0000u32 ==> ((d & 0x3ff_ffff) & 0x7ffff) & 0x3ff_ffff == d)) by (bit_vector);
}

/// Bit facts of patching: ORing an offset field in at bit 5 keeps every bit of the word and
/// its low four bits; a word rebuilt from the `bl` opcode is a `bl`.
proof fn lemma_patch_bits(inst: u32, f: u32)
    by (bit_vector)
    ensures
        (inst | (f << 5)) & inst == inst,
        (inst | (f << 5)) & 0xf == inst & 0xf,
        (0x9400_0000u32 | ((f & 0x7ffff) & 0x3ff_ffff)) & 0xfc00_0000u32 == 0x9400_0000u32,
        (0x9400_0000u32 | ((f & 0x7ffff) & 0x3ff_ffff)) & 0x3ff_ffff == f & 0x7ffff,
{
}

/// Patching a call site keeps what the word is: a `b.cond` keeps every bit of its word, its
/// condition among them, and only gains the offset; a `bl` stays a `bl` whose 26-bit
/// offset field is the low 19 bits of the offset to the callee.
pub proof fn lemma_patch_keeps_instruction(inst: u32, caller: u32, callee: u32)
    ensures
        inst & BL != BL ==> patched(inst, caller, callee) & inst == inst,
        inst & BL != BL ==> patched(inst, caller, callee) & 0xf == inst & 0xf,
        inst & BL == BL ==> patched(inst, caller, callee) & 0xfc00_0000u32 == 0x9400_0000u32,
        inst & BL == BL ==> patched(inst, caller, callee) & 0x3ff_ffff == b_offset_field(caller, callee) & 0x7ffff,
{
    lemma_patch_bits(inst, bcond_offset_field(caller, callee));
    lemma_patch_bits(inst, b_offset_field(caller, callee));
}

/// The byte address of instruction `i` fits in an `isize`.
pub open spec fn in_byte_range(i: u32) -> bool {
    i as int * 4 <= isize::MAX
}

fn byte_address_fits(i: u32) -> (r: bool)
    ensures
        r == in_byte_range(i),
{
    (i as u64) * 4 <= isize::MAX as u64
}

pub struct Labels {
    global_label_offset: LabelOffsets,
    global_label_call: LabelCalls,
    global_index: u32,
    object_instructions: Vec<u32>,
}

impl Labels {
    pub closed spec fn label_offsets(&self) -> Map<Seq<char>, u32> {
        self.global_label_offset@
    }

    pub closed spec fn label_calls(&self) -> Map<u32, Seq<char>> {
        self.global_label_call@
    }

    /// Index at which the next buffer's code starts.
    pub closed spec fn global_index(&self) -> u32 {
        self.global_index
    }

    pub closed spec fn object_instructions(&self) -> Seq<u32> {
        self.object_instructions@
    }

    pub fn new() -> (l: Labels)
        ensures
            l.label_offsets() == Map::<Seq<char>, u32>::empty(),
            l.label_calls() == Map::<u32, Seq<char>>::empty(),
            l.global_index() == 0,
            l.object_instructions() == Seq::<u32>::empty(),
    {
        Self {
            global_label_offset: LabelOffsets::new(),
            global_label_call: LabelCalls::new(),
            global_index: 0,
            object_instructions: Vec::new(),
        }
    }

    pub fn get_object_instructions(&self) -> (v: Vec<u32>)
        ensures
            v@ == self.object_instructions(),
    {
        self.object_instructions.clone()
    }

    // detect instruction type to identify if imm19 or imm26 is used.
    fn fixup_internal(&self, inst: u32, caller: u32, callee: u32) -> (r: u32)
        requires
            is_patchable(inst),
            in_byte_range(caller),
            in_byte_range(callee),
        ensures
            r == patched(inst, caller, callee),
    {
        if inst & BL == BL {
            let (_, offset) = calc_b_imm26(caller as usize * 4, callee as usize * 4);
            BL | ((offset & 0x7ffff) & 0x3FFFFFF)
        } else {
            let (_, offset) = calc_bcond_imm19(caller as usize * 4, callee as usize * 4);
            inst | (offset << 5u32)
        }
    }
}

/// `orig` with every instruction at a call site in `done` patched to reach its label.
pub open spec fn patch_sites(
    orig: Seq<u32>,
    calls: Map<u32, Seq<char>>,
    offsets: Map<Seq<char>, u32>,
    done: Set<u32>,
) -> Seq<u32> {
    Seq::new(
        orig.len(),
        |j: int|
            if j <= u32::MAX && done.contains(j as u32) && calls.contains_key(j as u32) {
                patched(orig[j], j as u32, offsets[calls[j as u32]])
            } else {
                orig[j]
            },
    )
}

impl Labels {
    /// Every call site calls a defined label, and each that lies in the code holds a `bl`
    /// or `b.cond` word and, like its label, has a byte address that fits in an `isize`.
    pub open spec fn fixable(&self) -> bool {
        &&& forall|k: u32| #[trigger] self.label_calls().contains_key(k)
            ==> self.label_offsets().contains_key(self.label_calls()[k])
        &&& forall|k: u32| #[trigger] self.label_calls().contains_key(k) && (k as int) < self.object_instructions().len()
            ==> is_patchable(self.object_instructions()[k as int]) && in_byte_range(k)
                && in_byte_range(self.label_offsets()[self.label_calls()[k]])
    }

    /// Whether `fixup` can patch every call site; a caller tests this first.
    pub fn check_fixable(&self) -> (r: bool)
        ensures
            r == self.fixable(),
    {
        let n = self.global_label_call.len();
        let ghost entries = self.global_label_call.entries();
        let ghost calls = self.label_calls();
        let ghost offsets = self.label_offsets();
        let ghost code = self.object_instructions();
        let mut i: usize = 0;
        while i < n
            invariant
                i <= n,
                n == entries.len(),
                keys_distinct(entries),
                entries == self.global_label_call.entries(),
                calls == self.label_calls(),
                calls == self.global_label_call@,
                offsets == self.label_offsets(),
                code == self.object_instructions(),
                forall|t: int| 0 <= t < i ==> {
                    let k = #[trigger] entries[t].0;
                    &&& offsets.contains_key(calls[k])
                    &&& (k as int) < code.len() ==> is_patchable(code[k as int]) && in_byte_range(k)
                        && in_byte_range(offsets[calls[k]])
                },
            decreases n - i,
        {
            let (k, name) = self.global_label_call.entry(i);
            match self.global_label_offset.get(name) {
                None => {
                    return false;
                },
                Some(callee) => {
                    if (k as usize) < self.object_instructions.len() {
                        let inst = self.object_instructions[k as usize];
                        let patchable = inst & BL == BL || inst & B_COND == B_COND;
                        if !patchable || !byte_address_fits(k) || !byte_address_fits(callee) {
                            return false;
                        }
                    }
                },
            }
            i = i + 1;
        }
        assert forall|k: u32| #[trigger] calls.contains_key(k) implies {
            &&& offsets.contains_key(calls[k])
            &&& (k as int) < code.len() ==> is_patchable(code[k as int]) && in_byte_range(k)
                && in_byte_range(offsets[calls[k]])
        } by {
            let t = choose|t: int| 0 <= t < entries.len() && entries[t].0 == k;
            assert(entries[t].0 == k);
        }
        true
    }

    /// Patch every call site that lies in the code with the offset of the label it calls.
    pub fn fixup(&mut self)
        requires
            old(self).fixable(),
        ensures
            final(self).object_instructions() == patch_sites(
                old(self).object_instructions(),
                old(self).label_calls(),
                old(self).label_offsets(),
                old(self).label_calls().dom(),
            ),
            final(self).label_offsets() == old(self).label_offsets(),
            final(self).label_calls() == old(self).label_calls(),
            final(self).global_index() == old(self).global_index(),
    {
        let ghost orig = self.object_instructions@;
        let ghost calls = self.global_label_call@;
        let ghost offsets = self.global_label_offset@;
        let n = self.global_label_call.len();
        let ghost entries = self.global_label_call.entries();
        let mut i: usize = 0;
        assert(self.object_instructions@ =~= patch_sites(orig, calls, offsets, Set::<u32>::empty()));
        while i < n
            invariant
                i <= n,
                n == entries.len(),
                keys_distinct(entries),
                entries == self.global_label_call.entries(),
                calls == self.global_label_call@,
                offsets == self.global_label_offset@,
                orig == old(self).object_instructions(),
                calls == old(self).label_calls(),
                offsets == old(self).label_offsets(),
                self.global_index == old(self).global_index(),
                forall|k: u32| #[trigger] calls.contains_key(k) ==> offsets.contains_key(calls[k]),
                forall|k: u32| #[trigger] calls.contains_key(k) && (k as int) < orig.len()
                    ==> is_patchable(orig[k as int]) && in_byte_range(k) && in_byte_range(offsets[calls[k]]),
                self.object_instructions@ == patch_sites(orig, calls, offsets,
                    Set::new(|k: u32| exists|t: int| 0 <= t < i && entries[t].0 == k)),
            decreases n - i,
        {
            let (k, name) = self.global_label_call.entry(i);
            let ghost done = Set::new(|q: u32| exists|t: int| 0 <= t < i && entries[t].0 == q);
            let ghost done2 = Set::new(|q: u32| exists|t: int| 0 <= t < i + 1 && entries[t].0 == q);
            assert(!done.contains(k)) by {
                if done.contains(k) {
                    let t = choose|t: int| 0 <= t < i && entries[t].0 == k;
                    assert(entries[t].0 != entries[i as int].0);
                }
            }
            assert(done2 =~= done.insert(k)) by {
                assert(entries[i as int].0 == k);
            }
            if let Some(callee) = self.global_label_offset.get(name) {
                // Indicates this symbol is local and doesn't require dynamic linking.
                if (k as usize) < self.object_instructions.len() {
                    let inst = self.object_instructions[k as usize];
                    // instruction, caller, callee can be used to calculate the proper PC-relative offset.
                    let fixup_instruction = self.fixup_internal(inst, k, callee);
                    self.object_instructions.set(k as usize, fixup_instruction);
                    assert(self.object_instructions@ =~= patch_sites(orig, calls, offsets, done2));
                } else {
                    assert(patch_sites(orig, calls, offsets, done) =~= patch_sites(orig, calls, offsets, done2));
                }
            } else {
                // Otherwise, it's UNDEFINED and would require relocation.
                unreached()
            }
            i = i + 1;
        }
        assert(Set::new(|k: u32| exists|t: int| 0 <= t < n && entries[t].0 == k) =~= calls.dom());
    }
}

/// The labels of a buffer moved up by `delta` instructions.
pub open spec fn shifted_offsets(m: Map<Seq<char>, u32>, delta: u32) -> Map<Seq<char>, u32> {
    Map::new(|k: Seq<char>| m.contains_key(k), |k: Seq<char>| (m[k] + delta) as u32)
}

/// The call sites of a buffer moved up by `delta` instructions.
pub open spec fn shifted_calls(m: Map<u32, Seq<char>>, delta: u32) -> Map<u32, Seq<char>> {
    Map::new(|k: u32| k >= delta && m.contains_key((k - delta) as u32), |k: u32| m[(k - delta) as u32])
}

impl Labels {
    /// `generator`'s labels, call sites and code can be moved up by the global index without
    /// overflowing a `u32`.
    pub open spec fn appendable(&self, generator: &ASMGenerator) -> bool {
        &&& forall|k: Seq<char>| #[trigger] generator.label_offsets().contains_key(k)
            ==> generator.label_offsets()[k] + self.global_index() <= u32::MAX
        &&& forall|k: u32| #[trigger] generator.label_calls().contains_key(k)
            ==> k + self.global_index() <= u32::MAX
        &&& self.global_index() + (generator.instructions().len() as u32) <= u32::MAX
    }

    /// Whether `append_label` can take `generator`; a caller tests this first.
    pub fn check_appendable(&self, generator: &ASMGenerator) -> (r: bool)
        ensures
            r == self.appendable(generator),
    {
        let base = self.global_index;
        let offsets = generator.get_label_offset();
        let n = offsets.len();
        let ghost oe = offsets.entries();
        let mut i: usize = 0;
        while i < n
            invariant
                i <= n,
                n == oe.len(),
                oe == offsets.entries(),
                offsets@ == generator.label_offsets(),
                base == self.global_index(),
                forall|t: int| 0 <= t < i ==> #[trigger] oe[t].1 + base <= u32::MAX,
            decreases n - i,
        {
            let (name, offset) = offsets.entry(i);
            if offset > u32::MAX - base {
                assert(generator.label_offsets().contains_key(name@));
                return false;
            }
            i = i + 1;
        }
        assert forall|k: Seq<char>| #[trigger] generator.label_offsets().contains_key(k)
            implies generator.label_offsets()[k] + base <= u32::MAX by {
            offsets.lemma_entries();
            let t = choose|t: int| 0 <= t < oe.len() && oe[t].0 == k;
            assert(offsets@.contains_key(oe[t].0));
        }
        let calls = generator.get_label_call();
        let m = calls.len();
        let ghost ce = calls.entries();
        let mut j: usize = 0;
        while j < m
            invariant
                j <= m,
                m == ce.len(),
                ce == calls.entries(),
                calls@ == generator.label_calls(),
                base == self.global_index(),
                forall|t: int| 0 <= t < j ==> #[trigger] ce[t].0 + base <= u32::MAX,
            decreases m - j,
        {
            let (site, _) = calls.entry(j);
            if site > u32::MAX - base {
                assert(generator.label_calls().contains_key(site));
                return false;
            }
            j = j + 1;
        }
        assert forall|k: u32| #[trigger] generator.label_calls().contains_key(k)
            implies k + base <= u32::MAX by {
            let t = choose|t: int| 0 <= t < ce.len() && ce[t].0 == k;
        }
        generator.get_instructions_size() <= u32::MAX - base
    }

    /// Lay out `generator`'s code after the code collected so far: move its labels and call
    /// sites to global indices and collect them and its instructions.
    pub fn append_label(&mut self, generator: &mut ASMGenerator)
        requires
            old(self).appendable(&*old(generator)),
        ensures
            final(generator).label_offsets() == shifted_offsets(old(generator).label_offsets(), old(self).global_index()),
            final(generator).label_calls() == shifted_calls(old(generator).label_calls(), old(self).global_index()),
            final(generator).instructions() == old(generator).instructions(),
            final(generator).current() == old(generator).current(),
            final(self).label_offsets() == old(self).label_offsets().union_prefer_right(
                shifted_offsets(old(generator).label_offsets(), old(self).global_index()),
            ),
            final(self).label_calls() == old(self).label_calls().union_prefer_right(
                shifted_calls(old(generator).label_calls(), old(self).global_index()),
            ),
            final(self).object_instructions() == old(self).object_instructions() + old(generator).instructions(),
            final(self).global_index() == old(self).global_index() + (old(generator).instructions().len() as u32),
    {
        // adjust offset for specific generator
        generator.adjust_offset(self.global_index);
        let ghost gen1 = *generator;
        // store all label_offset
        let offsets = generator.get_label_offset();
        let n = offsets.len();
        let ghost g0 = self.global_label_offset@;
        let mut i: usize = 0;
        while i < n
            invariant
                i <= n,
                n == offsets.entries().len(),
                offsets@ == gen1.label_offsets(),
                self.global_label_call@ == old(self).label_calls(),
                self.object_instructions@ == old(self).object_instructions(),
                self.global_index == old(self).global_index(),
                self.global_label_offset@ == g0.union_prefer_right(Map::new(
                    |k: Seq<char>| exists|t: int| 0 <= t < i && offsets.entries()[t].0 == k,
                    |k: Seq<char>| offsets@[k],
                )),
            decreases n - i,
        {
            let (k, v) = offsets.entry(i);
            let ghost before = self.global_label_offset@;
            self.global_label_offset.insert(k.clone(), v);
            assert(self.global_label_offset@ =~= g0.union_prefer_right(Map::new(
                |q: Seq<char>| exists|t: int| 0 <= t < i + 1 && offsets.entries()[t].0 == q,
                |q: Seq<char>| offsets@[q],
            ))) by {
                assert(offsets.entries()[i as int].0 == k@);
            }
            i = i + 1;
        }
        assert(Map::new(
            |k: Seq<char>| exists|t: int| 0 <= t < n && offsets.entries()[t].0 == k,
            |k: Seq<char>| offsets@[k],
        ) =~= offsets@);
        // store all label being called.
        let calls = generator.get_label_call();
        let m = calls.len();
        let ghost c0 = self.global_label_call@;
        let mut j: usize = 0;
        while j < m
            invariant
                j <= m,
                m == calls.entries().len(),
                calls@ == gen1.label_calls(),
                self.global_label_offset@ == g0.union_prefer_right(gen1.label_offsets()),
                self.object_instructions@ == old(self).object_instructions(),
                self.global_index == old(self).global_index(),
                self.global_label_call@ == c0.union_prefer_right(Map::new(
                    |k: u32| exists|t: int| 0 <= t < j && calls.entries()[t].0 == k,
                    |k: u32| calls@[k],
                )),
            decreases m - j,
        {
            let (k, v) = calls.entry(j);
            self.global_label_call.insert(k, v.clone());
            assert(self.global_label_call@ =~= c0.union_prefer_right(Map::new(
                |q: u32| exists|t: int| 0 <= t < j + 1 && calls.entries()[t].0 == q,
                |q: u32| calls@[q],
            ))) by {
                assert(calls.entries()[j as int].0 == k);
            }
            j = j + 1;
        }
        assert(Map::new(
            |k: u32| exists|t: int| 0 <= t < m && calls.entries()[t].0 == k,
            |k: u32| calls@[k],
        ) =~= calls@);
        // store all instructions
        let mut code = generator.get_instructions();
        self.object_instructions.append(&mut code);
        self.global_index += generator.get_instructions_size();
    }
}

impl CodeSink for Labels {
    /// Linking emits nothing of its own.
    fn emit(&mut self)
        ensures
            *final(self) == *old(self),
    {
    }

    /// The listing of the linked code titled `Disassembly Object:`; `None` where the
    /// disassembler reports an error.
    fn asm_listing(&self) -> (r: Option<String>)
        ensures
            match arm64_disassembly(le_bytes(self.object_instructions()), 0) {
                Some(lines) => r matches Some(s) && s@ == listing_text("Disassembly Object:"@, lines),
                None => r is None,
            },
    {
        disassembly_listing("Disassembly Object:", self.object_instructions.as_slice())
    }
}

} // verus!
