//! Locating a loaded shared object, resolving named symbols from its ELF
//! image, and planning the patch of two data cells next to a retained
//! original function.
mod elf;
mod error;
mod locate;
mod offsets;
mod patch;

pub use elf::get_symbol_offsets;
pub use error::PatchError;
pub use locate::{containing_directory, file_name_matches, locate_module, LoadedModule};
pub use offsets::{resolve_offsets, SymbolEntry, SymbolOffsets};
pub use patch::{
    absolute_address, filesystem_targets, nul_terminated, plan_patch, prepare_patch, PatchPlan,
    PatchTargets, BASE_PATH_LEN_SYMBOL, BASE_PATH_SYMBOL, CONSTRUCTOR_SYMBOL, MODULE_FILE_NAME,
};
