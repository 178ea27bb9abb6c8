use crate::error::PatchError;
use crate::elf::{get_symbol_offsets, image_offsets};
use crate::offsets::SymbolOffsets;
use vstd::prelude::*;

verus! {

/// The live address of a file-relative address in a module loaded with
/// `bias`, wrapping around the 64-bit address space.
pub open spec fn address_of(bias: u64, offset: u64) -> u64 {
    ((bias as int + offset as int) % 0x1_0000_0000_0000_0000) as u64
}

/// Adds a module's load bias to a file-relative address, wrapping as the
/// address space does.
pub fn absolute_address(bias: u64, offset: u64) -> (r: u64)
    ensures
        r == address_of(bias, offset),
{
    if offset <= u64::MAX - bias {
        bias + offset
    } else {
        offset - (u64::MAX - bias) - 1
    }
}

/// Which symbols the patch works on: the function to keep for delegation,
/// and the two data cells to overwrite (a pointer and a length).
pub struct PatchTargets {
    pub original: String,
    pub pointer_cell: String,
    pub length_cell: String,
}

/// What one patch does, as plain addresses and values: the function that
/// is kept for delegation, and the two cell writes, pointer first.
#[derive(Debug, Clone, Copy, PartialEq, Eq, Structural)]
pub struct PatchPlan {
    pub original_fn: u64,
    pub pointer_cell: u64,
    pub pointer_value: u64,
    pub length_cell: u64,
    pub length_value: u64,
}

/// The plan for `targets` in a module loaded with `bias`, or `None` where
/// one of the three symbols has no offset.
pub open spec fn planned(
    offsets: Map<Seq<char>, u64>,
    bias: u64,
    targets: PatchTargets,
    pointer_value: u64,
    length_value: u64,
) -> Option<PatchPlan> {
    if offsets.contains_key(targets.original@) && offsets.contains_key(targets.pointer_cell@)
        && offsets.contains_key(targets.length_cell@) {
        Some(
            PatchPlan {
                original_fn: address_of(bias, offsets[targets.original@]),
                pointer_cell: address_of(bias, offsets[targets.pointer_cell@]),
                pointer_value,
                length_cell: address_of(bias, offsets[targets.length_cell@]),
                length_value,
            },
        )
    } else {
        None
    }
}

/// Memory, seen as word cells, after the plan's two writes.
pub open spec fn memory_after(plan: PatchPlan, memory: Map<u64, u64>) -> Map<u64, u64> {
    memory.insert(plan.pointer_cell, plan.pointer_value).insert(
        plan.length_cell,
        plan.length_value,
    )
}

/// Turns resolved offsets into the plan of one patch. Every symbol is
/// resolved before anything is planned: a missing one gives
/// `SymbolNotFound`, and no plan, so no write happens.
pub fn plan_patch(
    offsets: &SymbolOffsets,
    bias: u64,
    targets: &PatchTargets,
    pointer_value: u64,
    length_value: u64,
) -> (r: Result<PatchPlan, PatchError>)
    ensures
        match planned(offsets@, bias, *targets, pointer_value, length_value) {
            Some(p) => r == Ok::<PatchPlan, PatchError>(p),
            None => r == Err::<PatchPlan, PatchError>(PatchError::SymbolNotFound),
        },
{
    let original = match offsets.get(&targets.original) {
        Some(v) => v,
        None => return Err(PatchError::SymbolNotFound),
    };
    let pointer_cell = match offsets.get(&targets.pointer_cell) {
        Some(v) => v,
        None => return Err(PatchError::SymbolNotFound),
    };
    let length_cell = match offsets.get(&targets.length_cell) {
        Some(v) => v,
        None => return Err(PatchError::SymbolNotFound),
    };
    Ok(
        PatchPlan {
            original_fn: absolute_address(bias, original),
            pointer_cell: absolute_address(bias, pointer_cell),
            pointer_value,
            length_cell: absolute_address(bias, length_cell),
            length_value,
        },
    )
}

/// The file name of the module that is patched.
pub const MODULE_FILE_NAME: &'static str = "filesystem_stdio.so";

/// The constructor that is kept and called after the patch.
pub const CONSTRUCTOR_SYMBOL: &'static str = "_ZN17CFileSystem_StdioC1Ev";

/// The cell that holds the pointer to the base path.
pub const BASE_PATH_SYMBOL: &'static str = "_ZZ9pathmatchPKcPPcbS1_jE12pszSteamPath";

/// The cell that holds the base path's length.
pub const BASE_PATH_LEN_SYMBOL: &'static str = "_ZZ9pathmatchPKcPPcbS1_jE13nSteamPathLen";

/// The symbols that the file system module's patch works on.
pub fn filesystem_targets() -> (r: PatchTargets)
    ensures
        r.original@ == CONSTRUCTOR_SYMBOL@,
        r.pointer_cell@ == BASE_PATH_SYMBOL@,
        r.length_cell@ == BASE_PATH_LEN_SYMBOL@,
{
    PatchTargets {
        original: CONSTRUCTOR_SYMBOL.to_owned(),
        pointer_cell: BASE_PATH_SYMBOL.to_owned(),
        length_cell: BASE_PATH_LEN_SYMBOL.to_owned(),
    }
}

/// The names to resolve for `targets`, in the order they are listed there.
pub open spec fn target_names(targets: PatchTargets) -> Seq<String> {
    seq![targets.original, targets.pointer_cell, targets.length_cell]
}

/// Resolves the three target symbols of the ELF image `image` and plans the
/// patch of a module loaded with `bias`. Every failure comes before any
/// plan exists.
pub fn prepare_patch(
    image: &[u8],
    bias: u64,
    targets: &PatchTargets,
    pointer_value: u64,
    length_value: u64,
) -> (r: Result<PatchPlan, PatchError>)
    requires
        image@.len() + 8 <= usize::MAX,
    ensures
        r == match image_offsets(image@, target_names(*targets)) {
            Ok(m) => match planned(m, bias, *targets, pointer_value, length_value) {
                Some(p) => Ok::<PatchPlan, PatchError>(p),
                None => Err(PatchError::SymbolNotFound),
            },
            Err(e) => Err(e),
        },
{
    let mut names: Vec<String> = Vec::new();
    names.push(targets.original.clone());
    names.push(targets.pointer_cell.clone());
    names.push(targets.length_cell.clone());
    proof {
        assert(names@ =~= target_names(*targets));
    }
    let offsets = match get_symbol_offsets(image, &names) {
        Ok(m) => m,
        Err(e) => return Err(e),
    };
    plan_patch(&offsets, bias, targets, pointer_value, length_value)
}

/// Copies `path` and appends the terminating zero byte, giving the buffer
/// whose address is written into the pointer cell; the length cell gets
/// `path`'s own length.
pub fn nul_terminated(path: &Vec<u8>) -> (r: Vec<u8>)
    ensures
        r@ == path@.push(0u8),
{
    let mut out: Vec<u8> = Vec::new();
    let mut k: usize = 0;
    while k < path.len()
        invariant
            k <= path@.len(),
            out@ =~= path@.subrange(0, k as int),
        decreases path@.len() - k,
    {
        out.push(path[k]);
        k = k + 1;
    }
    out.push(0u8);
    proof {
        assert(path@.subrange(0, path@.len() as int) =~= path@);
    }
    out
}

/// A value written into a target cell reads back from the cell found by the
/// same bias-plus-offset computation, provided the two target cells are
/// distinct.
pub proof fn lemma_written_cells_read_back(
    offsets: Map<Seq<char>, u64>,
    bias: u64,
    targets: PatchTargets,
    pointer_value: u64,
    length_value: u64,
    memory: Map<u64, u64>,
)
    requires
        planned(offsets, bias, targets, pointer_value, length_value) is Some,
        address_of(bias, offsets[targets.pointer_cell@]) != address_of(
            bias,
            offsets[targets.length_cell@],
        ),
    ensures
        ({
            let after = memory_after(
                planned(offsets, bias, targets, pointer_value, length_value).unwrap(),
                memory,
            );
            &&& after[address_of(bias, offsets[targets.pointer_cell@])] == pointer_value
            &&& after[address_of(bias, offsets[targets.length_cell@])] == length_value
        }),
{
}

} // verus!
