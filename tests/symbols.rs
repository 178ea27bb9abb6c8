use hlfixperf::{get_symbol_offsets, resolve_offsets, PatchError, SymbolEntry};

fn entry(name: &str, value: u64) -> SymbolEntry {
    SymbolEntry { name: name.to_string(), value }
}

fn names(list: &[&str]) -> Vec<String> {
    list.iter().map(|s| s.to_string()).collect()
}

fn push_u16(out: &mut Vec<u8>, v: u16) {
    out.extend_from_slice(&v.to_le_bytes());
}

fn push_u32(out: &mut Vec<u8>, v: u32) {
    out.extend_from_slice(&v.to_le_bytes());
}

fn pad4(out: &mut Vec<u8>) {
    while out.len() % 4 != 0 {
        out.push(0);
    }
}

/// A string table holding `names`, with the offset of each.
fn string_table(names: &[&str]) -> (Vec<u8>, Vec<u32>) {
    let mut table = vec![0u8];
    let mut offsets = Vec::new();
    for n in names {
        offsets.push(table.len() as u32);
        table.extend_from_slice(n.as_bytes());
        table.push(0);
    }
    (table, offsets)
}

/// A symbol table (null entry first) over `symbols`, naming them by
/// `name_offsets`.
fn symbol_table(symbols: &[(&str, u32)], name_offsets: &[u32]) -> Vec<u8> {
    let mut t = vec![0u8; 16];
    for (i, (_, value)) in symbols.iter().enumerate() {
        push_u32(&mut t, name_offsets[i]);
        push_u32(&mut t, *value);
        push_u32(&mut t, 4);
        t.push(0x11);
        t.push(0);
        push_u16(&mut t, 1);
    }
    t
}

struct Section {
    name: &'static str,
    kind: u32,
    data: Vec<u8>,
    link: u32,
    entry_size: u32,
}

/// A 32-bit little-endian shared object with a `.dynsym` table over
/// `dynamic` and, where given, a `.symtab` table over `statics`.
fn build_image(dynamic: &[(&str, u32)], statics: Option<&[(&str, u32)]>) -> Vec<u8> {
    let dyn_names: Vec<&str> = dynamic.iter().map(|(n, _)| *n).collect();
    let (dynstr, dyn_offsets) = string_table(&dyn_names);
    let mut sections = vec![
        Section { name: ".dynsym", kind: 11, data: symbol_table(dynamic, &dyn_offsets), link: 2, entry_size: 16 },
        Section { name: ".dynstr", kind: 3, data: dynstr, link: 0, entry_size: 0 },
    ];
    if let Some(statics) = statics {
        let sym_names: Vec<&str> = statics.iter().map(|(n, _)| *n).collect();
        let (strtab, sym_offsets) = string_table(&sym_names);
        sections.push(Section { name: ".symtab", kind: 2, data: symbol_table(statics, &sym_offsets), link: 4, entry_size: 16 });
        sections.push(Section { name: ".strtab", kind: 3, data: strtab, link: 0, entry_size: 0 });
    }
    let section_names: Vec<&str> = sections.iter().map(|s| s.name).chain([".shstrtab"]).collect();
    let (shstrtab, name_offsets) = string_table(&section_names);
    sections.push(Section { name: ".shstrtab", kind: 3, data: shstrtab, link: 0, entry_size: 0 });

    let mut out = Vec::new();
    out.extend_from_slice(&[0x7f, b'E', b'L', b'F', 1, 1, 1, 0]);
    out.extend_from_slice(&[0u8; 8]);
    let mut placed = Vec::new();
    let mut cursor = 52usize;
    for s in &sections {
        placed.push(cursor as u32);
        cursor += s.data.len();
        cursor = (cursor + 3) / 4 * 4;
    }
    let section_count = sections.len() as u16 + 1;
    push_u16(&mut out, 3);
    push_u16(&mut out, 3);
    push_u32(&mut out, 1);
    push_u32(&mut out, 0);
    push_u32(&mut out, 0);
    push_u32(&mut out, cursor as u32);
    push_u32(&mut out, 0);
    push_u16(&mut out, 52);
    push_u16(&mut out, 0);
    push_u16(&mut out, 0);
    push_u16(&mut out, 40);
    push_u16(&mut out, section_count);
    push_u16(&mut out, section_count - 1);
    for s in &sections {
        out.extend_from_slice(&s.data);
        pad4(&mut out);
    }
    assert_eq!(out.len(), cursor);
    out.extend_from_slice(&[0u8; 40]);
    for (i, s) in sections.iter().enumerate() {
        push_u32(&mut out, name_offsets[i]);
        push_u32(&mut out, s.kind);
        push_u32(&mut out, 0);
        push_u32(&mut out, 0);
        push_u32(&mut out, placed[i]);
        push_u32(&mut out, s.data.len() as u32);
        push_u32(&mut out, s.link);
        push_u32(&mut out, 0);
        push_u32(&mut out, 4);
        push_u32(&mut out, s.entry_size);
    }
    out
}

#[test]
fn dynamic_only_symbol_takes_dynamic_address() {
    let r = resolve_offsets(&names(&["S"]), &vec![entry("S", 0x40)], &vec![entry("T", 0x50)]);
    assert_eq!(r.get(&"S".to_string()), Some(0x40));
}

#[test]
fn static_table_wins_over_dynamic() {
    let r = resolve_offsets(&names(&["S"]), &vec![entry("S", 0x40)], &vec![entry("S", 0x80)]);
    assert_eq!(r.get(&"S".to_string()), Some(0x80));
}

#[test]
fn later_entry_in_one_table_wins() {
    let dynamic = vec![entry("S", 1), entry("S", 2)];
    let r = resolve_offsets(&names(&["S"]), &dynamic, &vec![]);
    assert_eq!(r.get(&"S".to_string()), Some(2));
}

#[test]
fn missing_name_is_absent_without_error() {
    let r = resolve_offsets(&names(&["S", "X"]), &vec![entry("S", 0x40)], &vec![]);
    assert!(r.contains(&"S".to_string()));
    assert!(!r.contains(&"X".to_string()));
    assert_eq!(r.get(&"X".to_string()), None);
}

#[test]
fn unrequested_names_are_ignored() {
    let r = resolve_offsets(&names(&["a"]), &vec![entry("b", 1)], &vec![entry("c", 2)]);
    assert!(!r.contains(&"b".to_string()));
    assert!(!r.contains(&"c".to_string()));
}

#[test]
fn empty_request_gives_empty_map() {
    let r = resolve_offsets(&vec![], &vec![entry("a", 1)], &vec![entry("a", 2)]);
    assert!(!r.contains(&"a".to_string()));
    assert!(!r.contains(&String::new()));
    assert_eq!(r.len(), 0);
}

#[test]
fn repeated_request_is_counted_once() {
    let r = resolve_offsets(&names(&["a", "a"]), &vec![entry("a", 1)], &vec![]);
    assert_eq!(r.len(), 1);
    assert_eq!(r.get(&"a".to_string()), Some(1));
}

#[test]
fn image_dynamic_only_symbol() {
    let image = build_image(&[("S", 0x200)], Some(&[("other", 0x300)]));
    let r = get_symbol_offsets(&image, &names(&["S"])).unwrap();
    assert_eq!(r.get(&"S".to_string()), Some(0x200));
}

#[test]
fn image_static_wins() {
    let image = build_image(&[("S", 0x200)], Some(&[("S", 0x280)]));
    let r = get_symbol_offsets(&image, &names(&["S"])).unwrap();
    assert_eq!(r.get(&"S".to_string()), Some(0x280));
}

#[test]
fn image_two_of_three_names_found() {
    let image = build_image(&[("a", 0x10)], Some(&[("c", 0x30), ("d", 0x40)]));
    let r = get_symbol_offsets(&image, &names(&["a", "b", "c"])).unwrap();
    assert_eq!(r.get(&"a".to_string()), Some(0x10));
    assert_eq!(r.get(&"b".to_string()), None);
    assert_eq!(r.get(&"c".to_string()), Some(0x30));
    assert_eq!(r.get(&"d".to_string()), None);
    assert_eq!(r.len(), 2);
}

#[test]
fn image_empty_request() {
    let image = build_image(&[("a", 0x10)], Some(&[("a", 0x20)]));
    let r = get_symbol_offsets(&image, &vec![]).unwrap();
    assert!(!r.contains(&"a".to_string()));
}

#[test]
fn image_without_static_table_is_section_missing() {
    let image = build_image(&[("S", 0x200)], None);
    assert_eq!(get_symbol_offsets(&image, &names(&["S"])).err(), Some(PatchError::SectionMissing));
}

#[test]
fn garbage_is_malformed() {
    let image = vec![0u8; 100];
    assert_eq!(get_symbol_offsets(&image, &names(&["S"])).err(), Some(PatchError::MalformedImage));
    assert_eq!(get_symbol_offsets(&[], &names(&["S"])).err(), Some(PatchError::MalformedImage));
}

#[test]
fn prepare_patch_from_image() {
    let image = build_image(&[("f", 0x200), ("p", 0x300)], Some(&[("n", 0x308), ("p", 0x304)]));
    let targets = hlfixperf::PatchTargets {
        original: "f".to_string(),
        pointer_cell: "p".to_string(),
        length_cell: "n".to_string(),
    };
    let plan = hlfixperf::prepare_patch(&image, 0x1000, &targets, 0x9000, 5).unwrap();
    assert_eq!(plan.original_fn, 0x1200);
    assert_eq!(plan.pointer_cell, 0x1304);
    assert_eq!(plan.length_cell, 0x1308);
    assert_eq!(plan.pointer_value, 0x9000);
    assert_eq!(plan.length_value, 5);
    let missing = hlfixperf::PatchTargets {
        original: "f".to_string(),
        pointer_cell: "p".to_string(),
        length_cell: "absent".to_string(),
    };
    assert_eq!(
        hlfixperf::prepare_patch(&image, 0x1000, &missing, 0x9000, 5).err(),
        Some(PatchError::SymbolNotFound)
    );
}

#[test]
fn dynamic_table_of_wrong_kind_is_unsupported() {
    let mut image = build_image(&[("S", 0x200)], Some(&[("S", 0x280)]));
    let section_count = 6;
    let dynsym_header = image.len() - section_count * 40 + 40;
    image[dynsym_header + 4..dynsym_header + 8].copy_from_slice(&3u32.to_le_bytes());
    assert_eq!(get_symbol_offsets(&image, &names(&["S"])).err(), Some(PatchError::UnsupportedFormat));
}

#[test]
fn sixty_four_bit_class_is_unsupported() {
    let mut image = build_image(&[("S", 0x200)], Some(&[("S", 0x280)]));
    image[4] = 2;
    assert_eq!(get_symbol_offsets(&image, &names(&["S"])).err(), Some(PatchError::UnsupportedFormat));
}

#[test]
fn big_endian_is_unsupported() {
    let mut image = build_image(&[("S", 0x200)], Some(&[("S", 0x280)]));
    image[5] = 2;
    assert_eq!(get_symbol_offsets(&image, &names(&["S"])).err(), Some(PatchError::UnsupportedFormat));
}

#[test]
fn misaligned_input_still_resolves() {
    let image = build_image(&[("S", 0x200)], Some(&[("S", 0x280)]));
    let mut shifted = vec![0u8];
    shifted.extend_from_slice(&image);
    let r = get_symbol_offsets(&shifted[1..], &names(&["S"])).unwrap();
    assert_eq!(r.get(&"S".to_string()), Some(0x280));
}

#[test]
fn bad_section_entry_size_is_malformed() {
    let mut image = build_image(&[("S", 0x200)], Some(&[("S", 0x280)]));
    image[46] = 20;
    assert_eq!(get_symbol_offsets(&image, &names(&["S"])).err(), Some(PatchError::MalformedImage));
}

#[test]
fn table_running_past_the_file_is_malformed() {
    let mut image = build_image(&[("S", 0x200)], Some(&[("S", 0x280)]));
    let section_count = 6;
    let dynsym_header = image.len() - section_count * 40 + 40;
    image[dynsym_header + 20..dynsym_header + 24].copy_from_slice(&0x10_0000u32.to_le_bytes());
    assert_eq!(get_symbol_offsets(&image, &names(&["S"])).err(), Some(PatchError::MalformedImage));
}

#[test]
fn symbol_name_past_string_table_is_malformed() {
    let mut image = build_image(&[("S", 0x200)], Some(&[("S", 0x280)]));
    // First real entry of .dynsym starts 16 bytes into the section, at 52 + 16.
    image[68..72].copy_from_slice(&0x1000u32.to_le_bytes());
    assert_eq!(get_symbol_offsets(&image, &names(&["S"])).err(), Some(PatchError::MalformedImage));
}

#[test]
fn utf8_symbol_names_resolve() {
    let image = build_image(&[("größe", 0x200)], Some(&[("π", 0x280)]));
    let r = get_symbol_offsets(&image, &names(&["größe", "π"])).unwrap();
    assert_eq!(r.get(&"größe".to_string()), Some(0x200));
    assert_eq!(r.get(&"π".to_string()), Some(0x280));
}

#[test]
fn invalid_utf8_symbol_name_is_malformed() {
    let mut image = build_image(&[("Sx", 0x200)], Some(&[("S", 0x280)]));
    // .dynstr follows the two-entry .dynsym at 52 + 32; its byte 2 is the 'x'.
    assert_eq!(image[52 + 32 + 2], b'x');
    image[52 + 32 + 2] = 0xff;
    assert_eq!(get_symbol_offsets(&image, &names(&["S"])).err(), Some(PatchError::MalformedImage));
}

#[test]
fn wrong_dynamic_table_kind_comes_before_missing_static_table() {
    let mut image = build_image(&[("S", 0x200)], None);
    let section_count = 4;
    let dynsym_header = image.len() - section_count * 40 + 40;
    image[dynsym_header + 4..dynsym_header + 8].copy_from_slice(&3u32.to_le_bytes());
    assert_eq!(get_symbol_offsets(&image, &names(&["S"])).err(), Some(PatchError::UnsupportedFormat));
}
