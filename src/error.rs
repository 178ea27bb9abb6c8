use vstd::prelude::*;

verus! {

/// Every way the locate, read, resolve and patch sequence can fail.
/// None of them is recoverable: the caller is expected to stop the process.
#[derive(Debug, Clone, Copy, PartialEq, Eq, Structural)]
pub enum PatchError {
    /// No loaded module has the requested file name.
    NotFound,
    /// The module's backing file could not be opened or read in full.
    IoError,
    /// The image does not parse as an ELF file, or a section or a symbol
    /// name inside it cannot be read.
    MalformedImage,
    /// A symbol table uses an encoding that is not handled (only 32-bit
    /// tables are).
    UnsupportedFormat,
    /// `.dynsym` or `.symtab` is absent from the image.
    SectionMissing,
    /// A symbol that the patch needs is in neither table.
    SymbolNotFound,
}

} // verus!
