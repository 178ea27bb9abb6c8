use crate::error::PatchError;
use crate::offsets::{offsets_model, resolve_offsets, table_view, SymbolEntry, SymbolOffsets, SymbolTable};
use vstd::prelude::*;
use vstd::string::StringSliceAdditionalSpecFns;
use vstd::utf8::{decode_utf8, valid_utf8};
use xmas_elf::sections::{SectionData, SectionHeader, ShType};
use xmas_elf::symbol_table::{DynEntry32, Entry, Entry32};
use xmas_elf::ElfFile;

verus! {

#[verifier::external_type_specification]
#[verifier::external_body]
pub struct ExElfFile<'a>(ElfFile<'a>);

#[verifier::external_type_specification]
#[verifier::external_body]
pub struct ExSectionHeader<'a>(SectionHeader<'a>);

#[verifier::external_type_specification]
#[verifier::external_body]
pub struct ExDynEntry32(DynEntry32);

#[verifier::external_type_specification]
#[verifier::external_body]
pub struct ExEntry32(Entry32);

/// Name of the dynamic symbol table section.
pub const DYNSYM: &'static str = ".dynsym";

/// Name of the static symbol table section.
pub const SYMTAB: &'static str = ".symtab";

/// Name of the string table that names dynamic symbols.
pub const DYNSTR: &'static str = ".dynstr";

/// Name of the string table that names static symbols.
pub const STRTAB: &'static str = ".strtab";

/// A little-endian 16-bit field at `p`. The parser reads fields in the
/// host's byte order, so these readings are those of a little-endian host,
/// which the patched program runs on.
pub open spec fn u16_at(b: Seq<u8>, p: int) -> int {
    b[p] as int + 256 * (b[p + 1] as int)
}

/// A little-endian 32-bit field at `p`.
pub open spec fn u32_at(b: Seq<u8>, p: int) -> int {
    u16_at(b, p) + 65536 * u16_at(b, p + 2)
}

/// The ELF identification and header fit: magic bytes, then a 32-bit class
/// with room for a 52-byte header or a 64-bit class with room for 64 bytes.
pub open spec fn elf_parses(b: Seq<u8>) -> bool {
    &&& b.len() >= 16
    &&& b[0] == 0x7f && b[1] == 0x45 && b[2] == 0x4c && b[3] == 0x46
    &&& (b[4] == 1 && b.len() >= 52) || (b[4] == 2 && b.len() >= 64)
}

/// A 32-bit little-endian image, the encoding that is decoded here.
pub open spec fn is_elf32_le(b: Seq<u8>) -> bool {
    b[4] == 1 && b[5] == 1
}

pub open spec fn sh_offset_field(b: Seq<u8>) -> int {
    u32_at(b, 32)
}

pub open spec fn sh_entry_size(b: Seq<u8>) -> int {
    u16_at(b, 46)
}

pub open spec fn sh_count(b: Seq<u8>) -> int {
    u16_at(b, 48)
}

pub open spec fn sh_names_index(b: Seq<u8>) -> int {
    u16_at(b, 50)
}

/// Where the header of section `i` starts.
pub open spec fn sh_at(b: Seq<u8>, i: int) -> int {
    sh_offset_field(b) + 40 * i
}

pub open spec fn sh_name(b: Seq<u8>, i: int) -> int {
    u32_at(b, sh_at(b, i))
}

pub open spec fn sh_type(b: Seq<u8>, i: int) -> int {
    u32_at(b, sh_at(b, i) + 4)
}

pub open spec fn sh_offset(b: Seq<u8>, i: int) -> int {
    u32_at(b, sh_at(b, i) + 16)
}

pub open spec fn sh_size(b: Seq<u8>, i: int) -> int {
    u32_at(b, sh_at(b, i) + 20)
}

/// A section type that is known and not null: such a section has a name.
pub open spec fn type_has_name(t: int) -> bool {
    t != 0 && (t <= 11 || (14 <= t <= 18) || t >= 0x6000_0000)
}

/// The position of the first zero byte at or after `p`, or `None` where
/// the image ends first.
pub open spec fn cstr_end(b: Seq<u8>, p: int) -> Option<int>
    decreases b.len() - p,
{
    if p < 0 || p >= b.len() {
        None
    } else if b[p] == 0 {
        Some(p)
    } else {
        cstr_end(b, p + 1)
    }
}

/// The bytes of the string at `p`.
pub open spec fn cstr_bytes(b: Seq<u8>, p: int) -> Seq<u8> {
    b.subrange(p, cstr_end(b, p).unwrap())
}

/// The string at `p` ends before `limit` and is UTF-8.
pub open spec fn readable(b: Seq<u8>, p: int, limit: int) -> bool {
    cstr_end(b, p) is Some && cstr_end(b, p).unwrap() < limit && valid_utf8(cstr_bytes(b, p))
}

/// Where section names start.
pub open spec fn names_start(b: Seq<u8>) -> int {
    sh_offset(b, sh_names_index(b))
}

/// The section header table is laid out in whole, aligned 40-byte headers
/// inside the image, and every named section's name is a UTF-8 string.
pub open spec fn section_table_ok(b: Seq<u8>) -> bool {
    &&& sh_entry_size(b) == 40
    &&& sh_offset_field(b) % 4 == 0
    &&& sh_count(b) <= 0xff00
    &&& sh_offset_field(b) + 40 * sh_count(b) <= b.len()
    &&& sh_names_index(b) < sh_count(b)
    &&& names_start(b) <= b.len()
    &&& forall|i: int|
        0 <= i < sh_count(b) && type_has_name(#[trigger] sh_type(b, i)) ==> readable(
            b,
            names_start(b) + sh_name(b, i),
            b.len() as int,
        )
}

/// Whether section `i` is named `name`.
pub open spec fn is_named(b: Seq<u8>, i: int, name: Seq<u8>) -> bool {
    type_has_name(sh_type(b, i)) && cstr_bytes(b, names_start(b) + sh_name(b, i)) == name
}

/// The first section, from `i` on, named `name`.
pub open spec fn first_named_from(b: Seq<u8>, name: Seq<u8>, i: int) -> Option<int>
    decreases sh_count(b) - i,
{
    if i < 0 || i >= sh_count(b) {
        None
    } else if is_named(b, i, name) {
        Some(i)
    } else {
        first_named_from(b, name, i + 1)
    }
}

/// The first section named `name`.
pub open spec fn first_named(b: Seq<u8>, name: Seq<u8>) -> Option<int> {
    first_named_from(b, name, 0)
}

/// A symbol table's data lies inside the image as aligned 16-byte entries.
pub open spec fn table_fits(b: Seq<u8>, t: int) -> bool {
    sh_offset(b, t) + sh_size(b, t) <= b.len() && sh_size(b, t) % 16 == 0 && sh_offset(b, t)
        % 4 == 0
}

pub open spec fn entry_count(b: Seq<u8>, t: int) -> int {
    sh_size(b, t) / 16
}

pub open spec fn entry_name(b: Seq<u8>, t: int, k: int) -> int {
    u32_at(b, sh_offset(b, t) + 16 * k)
}

pub open spec fn entry_value(b: Seq<u8>, t: int, k: int) -> int {
    u32_at(b, sh_offset(b, t) + 16 * k + 4)
}

/// Every entry of table `t` can be named from string section `s`: the
/// section lies inside the image and each name is a UTF-8 string ending
/// inside it.
pub open spec fn names_fit(b: Seq<u8>, t: int, s: Option<int>, kind_ok: bool) -> bool {
    entry_count(b, t) == 0 || {
        &&& s is Some
        &&& kind_ok
        &&& sh_offset(b, s.unwrap()) + sh_size(b, s.unwrap()) <= b.len()
        &&& forall|k: int|
            0 <= k < entry_count(b, t) ==> {
                let p = sh_offset(b, s.unwrap()) + #[trigger] entry_name(b, t, k);
                &&& entry_name(b, t, k) < sh_size(b, s.unwrap())
                &&& readable(b, p, sh_offset(b, s.unwrap()) + sh_size(b, s.unwrap()))
            }
    }
}

/// The name of entry `k` of table `t`, read from string section `s`.
pub open spec fn symbol_name(b: Seq<u8>, t: int, s: int, k: int) -> Seq<char> {
    decode_utf8(cstr_bytes(b, sh_offset(b, s) + entry_name(b, t, k)))
}

/// Table `t` decoded, names from string section `s`.
pub open spec fn decoded_table(b: Seq<u8>, t: int, s: Option<int>) -> SymbolTable {
    Seq::new(
        entry_count(b, t) as nat,
        |k: int| (symbol_name(b, t, s.unwrap(), k), entry_value(b, t, k) as u64),
    )
}

pub open spec fn dynsym_index(b: Seq<u8>) -> Option<int> {
    first_named(b, DYNSYM.spec_bytes())
}

pub open spec fn symtab_index(b: Seq<u8>) -> Option<int> {
    first_named(b, SYMTAB.spec_bytes())
}

pub open spec fn dynstr_index(b: Seq<u8>) -> Option<int> {
    first_named(b, DYNSTR.spec_bytes())
}

pub open spec fn strtab_index(b: Seq<u8>) -> Option<int> {
    first_named(b, STRTAB.spec_bytes())
}

/// `.strtab`, where present, is a string table section.
pub open spec fn strtab_kind_ok(b: Seq<u8>) -> bool {
    strtab_index(b) is Some && sh_type(b, strtab_index(b).unwrap()) == 3
}

/// The decoded `.dynsym` table.
pub open spec fn dynamic_table(b: Seq<u8>) -> SymbolTable {
    decoded_table(b, dynsym_index(b).unwrap(), dynstr_index(b))
}

/// The decoded `.symtab` table.
pub open spec fn static_table(b: Seq<u8>) -> SymbolTable {
    decoded_table(b, symtab_index(b).unwrap(), strtab_index(b))
}

/// What resolving `names` against the image `b` gives.
pub open spec fn image_offsets(b: Seq<u8>, names: Seq<String>) -> Result<
    Map<Seq<char>, u64>,
    PatchError,
> {
    if !elf_parses(b) {
        Err(PatchError::MalformedImage)
    } else if !is_elf32_le(b) {
        Err(PatchError::UnsupportedFormat)
    } else if !section_table_ok(b) {
        Err(PatchError::MalformedImage)
    } else if dynsym_index(b) is None {
        Err(PatchError::SectionMissing)
    } else if sh_type(b, dynsym_index(b).unwrap()) != 11 {
        Err(PatchError::UnsupportedFormat)
    } else if !table_fits(b, dynsym_index(b).unwrap()) || !names_fit(
        b,
        dynsym_index(b).unwrap(),
        dynstr_index(b),
        true,
    ) {
        Err(PatchError::MalformedImage)
    } else if symtab_index(b) is None {
        Err(PatchError::SectionMissing)
    } else if sh_type(b, symtab_index(b).unwrap()) != 2 {
        Err(PatchError::UnsupportedFormat)
    } else if !table_fits(b, symtab_index(b).unwrap()) || !names_fit(
        b,
        symtab_index(b).unwrap(),
        strtab_index(b),
        strtab_kind_ok(b),
    ) {
        Err(PatchError::MalformedImage)
    } else {
        Ok(offsets_model(names, dynamic_table(b), static_table(b)))
    }
}

/// A copy of an image that starts on an 8-byte boundary, as the parser's
/// in-place reads need. Built only by `aligned_copy`.
struct AlignedImage {
    buf: Vec<u8>,
    shift: usize,
    len: usize,
}

impl AlignedImage {
    #[verifier::type_invariant]
    spec fn fits(&self) -> bool {
        self.shift + self.len <= self.buf@.len()
    }

    spec fn bytes(&self) -> Seq<u8> {
        self.buf@.subrange(self.shift as int, self.shift + self.len)
    }
}

/// A parsed image, with the bytes it was parsed from. Built only by
/// `open_elf`.
struct ElfImage<'a> {
    input: &'a [u8],
    elf: ElfFile<'a>,
}

impl<'a> ElfImage<'a> {
    spec fn bytes(&self) -> Seq<u8> {
        self.input@
    }
}

/// The header of the section at position `index`.
struct Section<'a> {
    header: SectionHeader<'a>,
    index: Ghost<int>,
}

/// The entries of the dynamic symbol table in section `index`.
struct DynTable<'a> {
    entries: &'a [DynEntry32],
    index: Ghost<int>,
}

/// The entries of the static symbol table in section `index`.
struct StaticTable<'a> {
    entries: &'a [Entry32],
    index: Ghost<int>,
}

/// The image's layout is checked up to the section headers and names.
spec fn layout_ok(b: Seq<u8>) -> bool {
    elf_parses(b) && is_elf32_le(b) && section_table_ok(b)
}

/// A section found by name lies in the section header table.
proof fn lemma_first_named_in_table(b: Seq<u8>, name: Seq<u8>, i: int)
    requires
        0 <= i,
    ensures
        first_named_from(b, name, i) is Some ==> i <= first_named_from(b, name, i).unwrap()
            < sh_count(b),
    decreases sh_count(b) - i,
{
    if i < sh_count(b) && !is_named(b, i, name) {
        lemma_first_named_in_table(b, name, i + 1);
    }
}

/// Relies on `<[u8]>::as_ptr`: the address where the bytes start.
#[verifier::external_body]
fn start_address(b: &[u8]) -> usize {
    b.as_ptr() as usize
}

/// Relies on `core::str::from_utf8`: it accepts exactly the UTF-8 byte
/// strings.
#[verifier::external_body]
fn is_utf8(b: &[u8]) -> (r: bool)
    ensures
        r == valid_utf8(b@),
{
    core::str::from_utf8(b).is_ok()
}

/// Relies on `xmas_elf::ElfFile::new`: it succeeds exactly when the
/// identification and header fit. It reads the header in place and asserts
/// its alignment, which an `AlignedImage` meets.
#[verifier::external_body]
fn open_elf<'a>(src: &'a AlignedImage) -> (r: Result<ElfImage<'a>, &'static str>)
    ensures
        r is Ok == elf_parses(src.bytes()),
        r is Ok ==> r->Ok_0.bytes() == src.bytes(),
{
    let input = &src.buf[src.shift..src.shift + src.len];
    match ElfFile::new(input) {
        Ok(elf) => Ok(ElfImage { input, elf }),
        Err(e) => Err(e),
    }
}

/// Relies on `xmas_elf::ElfFile::find_section_by_name`: it walks the
/// section headers in order and returns the first whose type is known and
/// not null and whose name reads `name`.
#[verifier::external_body]
fn find_section<'a>(img: &ElfImage<'a>, name: &str) -> (r: Option<Section<'a>>)
    requires
        layout_ok(img.bytes()),
    ensures
        r is Some == first_named(img.bytes(), name.spec_bytes()) is Some,
        r is Some ==> r->Some_0.index@ == first_named(img.bytes(), name.spec_bytes()).unwrap(),
{
    match img.elf.find_section_by_name(name) {
        Some(header) => Some(
            Section { header, index: Ghost(first_named(img.bytes(), name.spec_bytes()).unwrap()) },
        ),
        None => None,
    }
}

/// Relies on `SectionHeader::offset`: the section's offset field, widened.
#[verifier::external_body]
fn section_offset<'a>(img: &ElfImage<'a>, sec: &Section<'a>) -> (r: u64)
    requires
        layout_ok(img.bytes()),
        0 <= sec.index@ < sh_count(img.bytes()),
    ensures
        r == sh_offset(img.bytes(), sec.index@),
{
    sec.header.offset()
}

/// Relies on `SectionHeader::size`: the section's size field, widened.
#[verifier::external_body]
fn section_size<'a>(img: &ElfImage<'a>, sec: &Section<'a>) -> (r: u64)
    requires
        layout_ok(img.bytes()),
        0 <= sec.index@ < sh_count(img.bytes()),
    ensures
        r == sh_size(img.bytes(), sec.index@),
{
    sec.header.size()
}

/// Relies on `SectionHeader::get_type`: its `SymTab`, `StrTab` and `DynSym`
/// variants stand for the type codes 2, 3 and 11.
#[verifier::external_body]
fn section_kind<'a>(img: &ElfImage<'a>, sec: &Section<'a>) -> (r: u32)
    requires
        layout_ok(img.bytes()),
        0 <= sec.index@ < sh_count(img.bytes()),
    ensures
        (r == 2) == (sh_type(img.bytes(), sec.index@) == 2),
        (r == 3) == (sh_type(img.bytes(), sec.index@) == 3),
        (r == 11) == (sh_type(img.bytes(), sec.index@) == 11),
{
    match sec.header.get_type() {
        Ok(ShType::SymTab) => 2,
        Ok(ShType::StrTab) => 3,
        Ok(ShType::DynSym) => 11,
        _ => 0,
    }
}

/// Relies on `SectionHeader::get_data`: for a `DynSym` section of a 32-bit
/// image whose data lies inside the image as aligned 16-byte entries, the
/// data is `DynSymbolTable32` over them.
#[verifier::external_body]
fn dynsym_data<'a>(img: &ElfImage<'a>, sec: &Section<'a>) -> (r: Option<DynTable<'a>>)
    requires
        layout_ok(img.bytes()),
        0 <= sec.index@ < sh_count(img.bytes()),
        sh_type(img.bytes(), sec.index@) == 11,
        table_fits(img.bytes(), sec.index@),
    ensures
        r is Some,
        r->Some_0.index == sec.index,
        r->Some_0.entries@.len() == entry_count(img.bytes(), sec.index@),
{
    match sec.header.get_data(&img.elf) {
        Ok(SectionData::DynSymbolTable32(entries)) => Some(DynTable { entries, index: sec.index }),
        _ => None,
    }
}

/// Relies on `SectionHeader::get_data`: for a `SymTab` section of a 32-bit
/// image whose data lies inside the image as aligned 16-byte entries, the
/// data is `SymbolTable32` over them.
#[verifier::external_body]
fn symtab_data<'a>(img: &ElfImage<'a>, sec: &Section<'a>) -> (r: Option<StaticTable<'a>>)
    requires
        layout_ok(img.bytes()),
        0 <= sec.index@ < sh_count(img.bytes()),
        sh_type(img.bytes(), sec.index@) == 2,
        table_fits(img.bytes(), sec.index@),
    ensures
        r is Some,
        r->Some_0.index == sec.index,
        r->Some_0.entries@.len() == entry_count(img.bytes(), sec.index@),
{
    match sec.header.get_data(&img.elf) {
        Ok(SectionData::SymbolTable32(entries)) => Some(StaticTable { entries, index: sec.index }),
        _ => None,
    }
}

/// Relies on `Entry::get_name` for `DynEntry32`: the entry's name is the
/// UTF-8 string at its name index in the first section named `.dynstr`.
#[verifier::external_body]
fn dyn_symbol_name<'a>(img: &ElfImage<'a>, table: &DynTable<'a>, k: usize) -> (r: Result<
    &'a str,
    &'static str,
>)
    requires
        layout_ok(img.bytes()),
        0 <= table.index@ < sh_count(img.bytes()),
        table_fits(img.bytes(), table.index@),
        table.entries@.len() == entry_count(img.bytes(), table.index@),
        k < table.entries@.len(),
        names_fit(img.bytes(), table.index@, dynstr_index(img.bytes()), true),
    ensures
        r is Ok,
        r->Ok_0@ == symbol_name(img.bytes(), table.index@, dynstr_index(img.bytes()).unwrap(), k as int),
{
    table.entries[k].get_name(&img.elf)
}

/// Relies on `Entry::value` for `DynEntry32`: the entry's 32-bit value
/// field, widened.
#[verifier::external_body]
fn dyn_symbol_value<'a>(img: &ElfImage<'a>, table: &DynTable<'a>, k: usize) -> (r: u64)
    requires
        layout_ok(img.bytes()),
        0 <= table.index@ < sh_count(img.bytes()),
        table_fits(img.bytes(), table.index@),
        table.entries@.len() == entry_count(img.bytes(), table.index@),
        k < table.entries@.len(),
    ensures
        r == entry_value(img.bytes(), table.index@, k as int),
{
    table.entries[k].value()
}

/// Relies on `Entry::get_name` for `Entry32`: the entry's name is the UTF-8
/// string at its name index in the first section named `.strtab`, which must
/// be a string table.
#[verifier::external_body]
fn static_symbol_name<'a>(img: &ElfImage<'a>, table: &StaticTable<'a>, k: usize) -> (r: Result<
    &'a str,
    &'static str,
>)
    requires
        layout_ok(img.bytes()),
        0 <= table.index@ < sh_count(img.bytes()),
        table_fits(img.bytes(), table.index@),
        table.entries@.len() == entry_count(img.bytes(), table.index@),
        k < table.entries@.len(),
        names_fit(img.bytes(), table.index@, strtab_index(img.bytes()), strtab_kind_ok(img.bytes())),
    ensures
        r is Ok,
        r->Ok_0@ == symbol_name(img.bytes(), table.index@, strtab_index(img.bytes()).unwrap(), k as int),
{
    table.entries[k].get_name(&img.elf)
}

/// Relies on `Entry::value` for `Entry32`: the entry's 32-bit value field,
/// widened.
#[verifier::external_body]
fn static_symbol_value<'a>(img: &ElfImage<'a>, table: &StaticTable<'a>, k: usize) -> (r: u64)
    requires
        layout_ok(img.bytes()),
        0 <= table.index@ < sh_count(img.bytes()),
        table_fits(img.bytes(), table.index@),
        table.entries@.len() == entry_count(img.bytes(), table.index@),
        k < table.entries@.len(),
    ensures
        r == entry_value(img.bytes(), table.index@, k as int),
{
    table.entries[k].value()
}

/// Reads a little-endian 16-bit field.
fn read_u16(b: &[u8], p: u64) -> (r: u64)
    requires
        p + 2 <= b@.len(),
    ensures
        r == u16_at(b@, p as int),
{
    let q = p as usize;
    b[q] as u64 + 256 * (b[q + 1] as u64)
}

/// Reads a little-endian 32-bit field.
fn read_u32(b: &[u8], p: u64) -> (r: u64)
    requires
        p + 4 <= b@.len(),
    ensures
        r == u32_at(b@, p as int),
{
    let q = p as usize;
    let low = b[q] as u64 + 256 * (b[q + 1] as u64);
    let high = b[q + 2] as u64 + 256 * (b[q + 3] as u64);
    low + 65536 * high
}

/// Finds the zero byte that ends the string at `p`.
fn find_cstr_end(b: &[u8], p: u64) -> (r: Option<u64>)
    ensures
        match r {
            Some(e) => cstr_end(b@, p as int) == Some(e as int) && p <= e < b@.len(),
            None => cstr_end(b@, p as int) is None,
        },
{
    let len = b.len() as u64;
    if p >= len {
        return None;
    }
    let mut i: u64 = p;
    while i < len
        invariant
            p <= i <= len,
            len == b@.len(),
            cstr_end(b@, p as int) == cstr_end(b@, i as int),
        decreases len - i,
    {
        if b[i as usize] == 0 {
            return Some(i);
        }
        i = i + 1;
    }
    None
}

/// Whether the string at `p` ends before `limit` and is UTF-8.
fn readable_exec(b: &[u8], p: u64, limit: u64) -> (r: bool)
    requires
        limit <= b@.len(),
    ensures
        r == readable(b@, p as int, limit as int),
{
    let n: usize = b.len();
    match find_cstr_end(b, p) {
        Some(e) => {
            if e >= limit {
                false
            } else {
                assert(e < n);
                let s = vstd::slice::slice_subrange(b, p as usize, e as usize);
                assert(s@ == cstr_bytes(b@, p as int));
                is_utf8(s)
            }
        },
        None => false,
    }
}

fn type_has_name_exec(t: u64) -> (r: bool)
    ensures
        r == type_has_name(t as int),
{
    t != 0 && (t <= 11 || (14 <= t && t <= 18) || t >= 0x6000_0000)
}

/// A 32-bit field of the header of section `i`, read while the section
/// header table is checked.
fn header_field(b: &[u8], i: u64, field: u64) -> (r: u64)
    requires
        elf_parses(b@),
        is_elf32_le(b@),
        sh_offset_field(b@) + 40 * sh_count(b@) <= b@.len(),
        i < sh_count(b@),
        field <= 36,
    ensures
        r == u32_at(b@, sh_at(b@, i as int) + field),
{
    read_u32(b, read_u32(b, 32) + 40 * i + field)
}

/// Checks the section header table and the section names.
fn check_section_table(b: &[u8]) -> (r: bool)
    requires
        elf_parses(b@),
        is_elf32_le(b@),
    ensures
        r == section_table_ok(b@),
{
    let len = b.len() as u64;
    let shoff = read_u32(b, 32);
    let count = read_u16(b, 48);
    let names_index = read_u16(b, 50);
    if read_u16(b, 46) != 40 || shoff % 4 != 0 || count > 0xff00 || shoff + 40 * count > len
        || names_index >= count {
        return false;
    }
    let start = header_field(b, names_index, 16);
    if start > len {
        return false;
    }
    let mut i: u64 = 0;
    while i < count
        invariant
            elf_parses(b@),
            is_elf32_le(b@),
            len == b@.len(),
            shoff == sh_offset_field(b@),
            count == sh_count(b@),
            start == names_start(b@),
            sh_entry_size(b@) == 40,
            shoff % 4 == 0,
            count <= 0xff00,
            shoff + 40 * count <= len,
            names_index == sh_names_index(b@),
            names_index < count,
            start <= len,
            i <= count,
            forall|j: int|
                0 <= j < i && type_has_name(#[trigger] sh_type(b@, j)) ==> readable(
                    b@,
                    names_start(b@) + sh_name(b@, j),
                    b@.len() as int,
                ),
        decreases count - i,
    {
        let kind = header_field(b, i, 4);
        assert(kind == sh_type(b@, i as int));
        if type_has_name_exec(kind) {
            let name = header_field(b, i, 0);
            assert(name == sh_name(b@, i as int));
            if !readable_exec(b, start + name, len) {
                return false;
            }
        }
        i = i + 1;
    }
    true
}

fn table_fits_exec<'a>(img: &ElfImage<'a>, sec: &Section<'a>) -> (r: bool)
    requires
        layout_ok(img.bytes()),
        0 <= sec.index@ < sh_count(img.bytes()),
    ensures
        r == table_fits(img.bytes(), sec.index@),
{
    let off = section_offset(img, sec);
    let size = section_size(img, sec);
    off + size <= img.input.len() as u64 && size % 16 == 0 && off % 4 == 0
}

/// Checks that every entry of table `t` is named by a UTF-8 string inside
/// string section `s`.
fn names_fit_exec<'a>(
    img: &ElfImage<'a>,
    t: &Section<'a>,
    s: &Option<Section<'a>>,
    kind_ok: bool,
) -> (r: bool)
    requires
        layout_ok(img.bytes()),
        0 <= t.index@ < sh_count(img.bytes()),
        table_fits(img.bytes(), t.index@),
        s is Some ==> 0 <= s->Some_0.index@ < sh_count(img.bytes()),
    ensures
        r == names_fit(
            img.bytes(),
            t.index@,
            match s {
                Some(sec) => Some(sec.index@),
                None => None,
            },
            kind_ok,
        ),
{
    let b = img.input;
    let count = section_size(img, t) / 16;
    if count == 0 {
        return true;
    }
    let str_sec = match s {
        Some(sec) => sec,
        None => return false,
    };
    if !kind_ok {
        return false;
    }
    let soff = section_offset(img, str_sec);
    let ssize = section_size(img, str_sec);
    if soff + ssize > b.len() as u64 {
        return false;
    }
    let toff = section_offset(img, t);
    let ghost ti = t.index@;
    let ghost si = str_sec.index@;
    assert(match s {
        Some(sec) => Some(sec.index@),
        None => None::<int>,
    } == Some(si));
    let mut k: u64 = 0;
    while k < count
        invariant
            b@ == img.bytes(),
            layout_ok(b@),
            ti == t.index@,
            match s {
                Some(sec) => Some(sec.index@),
                None => None::<int>,
            } == Some(si),
            table_fits(b@, ti),
            count == entry_count(b@, ti),
            toff == sh_offset(b@, ti),
            soff == sh_offset(b@, si),
            ssize == sh_size(b@, si),
            soff + ssize <= b@.len(),
            k <= count,
            forall|j: int|
                0 <= j < k ==> {
                    let p = soff + #[trigger] entry_name(b@, ti, j);
                    &&& entry_name(b@, ti, j) < ssize
                    &&& readable(b@, p, soff + ssize)
                },
        decreases count - k,
    {
        let name = read_u32(b, toff + 16 * k);
        assert(name == entry_name(b@, ti, k as int));
        if name >= ssize {
            return false;
        }
        if !readable_exec(b, soff + name, soff + ssize) {
            return false;
        }
        k = k + 1;
    }
    true
}

/// Decodes every entry of the dynamic symbol table, in order.
fn decode_dynamic<'a>(img: &ElfImage<'a>, table: &DynTable<'a>) -> (r: Vec<SymbolEntry>)
    requires
        layout_ok(img.bytes()),
        0 <= table.index@ < sh_count(img.bytes()),
        table_fits(img.bytes(), table.index@),
        table.entries@.len() == entry_count(img.bytes(), table.index@),
        names_fit(img.bytes(), table.index@, dynstr_index(img.bytes()), true),
    ensures
        table_view(r@) == decoded_table(img.bytes(), table.index@, dynstr_index(img.bytes())),
{
    let ghost want = decoded_table(img.bytes(), table.index@, dynstr_index(img.bytes()));
    let mut out: Vec<SymbolEntry> = Vec::new();
    let mut k: usize = 0;
    while k < table.entries.len()
        invariant
            layout_ok(img.bytes()),
            0 <= table.index@ < sh_count(img.bytes()),
            table_fits(img.bytes(), table.index@),
            table.entries@.len() == entry_count(img.bytes(), table.index@),
            names_fit(img.bytes(), table.index@, dynstr_index(img.bytes()), true),
            want == decoded_table(img.bytes(), table.index@, dynstr_index(img.bytes())),
            k <= table.entries@.len(),
            table_view(out@) =~= want.subrange(0, k as int),
        decreases table.entries@.len() - k,
    {
        let name = match dyn_symbol_name(img, table, k) {
            Ok(n) => n,
            Err(_) => "",
        };
        let value = dyn_symbol_value(img, table, k);
        let ghost before = table_view(out@);
        out.push(SymbolEntry { name: name.to_owned(), value });
        proof {
            assert(table_view(out@) =~= before.push((name@, value)));
            assert(want.subrange(0, k + 1) =~= want.subrange(0, k as int).push(want[k as int]));
        }
        k = k + 1;
    }
    out
}

/// Decodes every entry of the static symbol table, in order.
fn decode_static<'a>(img: &ElfImage<'a>, table: &StaticTable<'a>) -> (r: Vec<SymbolEntry>)
    requires
        layout_ok(img.bytes()),
        0 <= table.index@ < sh_count(img.bytes()),
        table_fits(img.bytes(), table.index@),
        table.entries@.len() == entry_count(img.bytes(), table.index@),
        names_fit(img.bytes(), table.index@, strtab_index(img.bytes()), strtab_kind_ok(img.bytes())),
    ensures
        table_view(r@) == decoded_table(img.bytes(), table.index@, strtab_index(img.bytes())),
{
    let ghost want = decoded_table(img.bytes(), table.index@, strtab_index(img.bytes()));
    let mut out: Vec<SymbolEntry> = Vec::new();
    let mut k: usize = 0;
    while k < table.entries.len()
        invariant
            layout_ok(img.bytes()),
            0 <= table.index@ < sh_count(img.bytes()),
            table_fits(img.bytes(), table.index@),
            table.entries@.len() == entry_count(img.bytes(), table.index@),
            names_fit(
                img.bytes(),
                table.index@,
                strtab_index(img.bytes()),
                strtab_kind_ok(img.bytes()),
            ),
            want == decoded_table(img.bytes(), table.index@, strtab_index(img.bytes())),
            k <= table.entries@.len(),
            table_view(out@) =~= want.subrange(0, k as int),
        decreases table.entries@.len() - k,
    {
        let name = match static_symbol_name(img, table, k) {
            Ok(n) => n,
            Err(_) => "",
        };
        let value = static_symbol_value(img, table, k);
        let ghost before = table_view(out@);
        out.push(SymbolEntry { name: name.to_owned(), value });
        proof {
            assert(table_view(out@) =~= before.push((name@, value)));
            assert(want.subrange(0, k + 1) =~= want.subrange(0, k as int).push(want[k as int]));
        }
        k = k + 1;
    }
    out
}

/// Copies `image` to a fresh buffer at a place that starts on an 8-byte
/// boundary.
fn aligned_copy(image: &[u8]) -> (r: AlignedImage)
    requires
        image@.len() + 8 <= usize::MAX,
    ensures
        r.bytes() == image@,
{
    let len = image.len();
    let mut buf: Vec<u8> = Vec::new();
    let mut i: usize = 0;
    while i < len + 7
        invariant
            len == image@.len(),
            len + 8 <= usize::MAX,
            i <= len + 7,
            buf@.len() == i,
        decreases len + 7 - i,
    {
        buf.push(0u8);
        i = i + 1;
    }
    let shift = (8 - start_address(buf.as_slice()) % 8) % 8;
    let mut j: usize = 0;
    while j < len
        invariant
            len == image@.len(),
            len + 8 <= usize::MAX,
            shift < 8,
            buf@.len() == len + 7,
            j <= len,
            forall|q: int| 0 <= q < j ==> buf@[shift + q] == image@[q],
        decreases len - j,
    {
        buf[shift + j] = image[j];
        j = j + 1;
    }
    let r = AlignedImage { buf, shift, len };
    proof {
        assert(r.bytes() =~= image@);
    }
    r
}

/// Resolves the file-relative addresses of `names` from the `.dynsym` and
/// `.symtab` tables of the 32-bit ELF image `image`. Both sections must be
/// present; where a name is in both, the `.symtab` value wins.
pub fn get_symbol_offsets(image: &[u8], names: &Vec<String>) -> (r: Result<
    SymbolOffsets,
    PatchError,
>)
    requires
        image@.len() + 8 <= usize::MAX,
    ensures
        match image_offsets(image@, names@) {
            Ok(m) => r is Ok && r->Ok_0@ == m,
            Err(e) => r == Err::<SymbolOffsets, PatchError>(e),
        },
{
    let src = aligned_copy(image);
    resolve_image(&src, names)
}

/// `get_symbol_offsets` on an aligned copy.
fn resolve_image(src: &AlignedImage, names: &Vec<String>) -> (r: Result<
    SymbolOffsets,
    PatchError,
>)
    ensures
        match image_offsets(src.bytes(), names@) {
            Ok(m) => r is Ok && r->Ok_0@ == m,
            Err(e) => r == Err::<SymbolOffsets, PatchError>(e),
        },
{
    let img = match open_elf(src) {
        Ok(img) => img,
        Err(_) => return Err(PatchError::MalformedImage),
    };
    let b = img.input;
    if !(b[4] == 1 && b[5] == 1) {
        return Err(PatchError::UnsupportedFormat);
    }
    if !check_section_table(b) {
        return Err(PatchError::MalformedImage);
    }
    proof {
        lemma_first_named_in_table(b@, DYNSYM.spec_bytes(), 0);
        lemma_first_named_in_table(b@, SYMTAB.spec_bytes(), 0);
        lemma_first_named_in_table(b@, DYNSTR.spec_bytes(), 0);
        lemma_first_named_in_table(b@, STRTAB.spec_bytes(), 0);
    }
    let dsec = match find_section(&img, DYNSYM) {
        Some(sec) => sec,
        None => return Err(PatchError::SectionMissing),
    };
    if section_kind(&img, &dsec) != 11 {
        return Err(PatchError::UnsupportedFormat);
    }
    let dynstr = find_section(&img, DYNSTR);
    if !table_fits_exec(&img, &dsec) || !names_fit_exec(&img, &dsec, &dynstr, true) {
        return Err(PatchError::MalformedImage);
    }
    let dynamic = match dynsym_data(&img, &dsec) {
        Some(table) => decode_dynamic(&img, &table),
        None => return Err(PatchError::UnsupportedFormat),
    };
    let ssec = match find_section(&img, SYMTAB) {
        Some(sec) => sec,
        None => return Err(PatchError::SectionMissing),
    };
    if section_kind(&img, &ssec) != 2 {
        return Err(PatchError::UnsupportedFormat);
    }
    let strtab = find_section(&img, STRTAB);
    let strtab_kind = match &strtab {
        Some(sec) => section_kind(&img, sec) == 3,
        None => false,
    };
    if !table_fits_exec(&img, &ssec) || !names_fit_exec(&img, &ssec, &strtab, strtab_kind) {
        return Err(PatchError::MalformedImage);
    }
    let statics = match symtab_data(&img, &ssec) {
        Some(table) => decode_static(&img, &table),
        None => return Err(PatchError::UnsupportedFormat),
    };
    Ok(resolve_offsets(names, &dynamic, &statics))
}

} // verus!
