use hlfixperf::{
    absolute_address, containing_directory, file_name_matches, filesystem_targets, locate_module,
    nul_terminated, plan_patch, resolve_offsets, LoadedModule, PatchError, PatchPlan,
    PatchTargets, SymbolEntry, BASE_PATH_LEN_SYMBOL, BASE_PATH_SYMBOL, CONSTRUCTOR_SYMBOL,
};

fn entry(name: &str, value: u64) -> SymbolEntry {
    SymbolEntry { name: name.to_string(), value }
}

fn targets(original: &str, pointer: &str, length: &str) -> PatchTargets {
    PatchTargets {
        original: original.to_string(),
        pointer_cell: pointer.to_string(),
        length_cell: length.to_string(),
    }
}

#[test]
fn bias_plus_offset() {
    assert_eq!(absolute_address(0x1000, 0x200), 0x1200);
    assert_eq!(absolute_address(0, 0x200), 0x200);
}

#[test]
fn address_wraps_around() {
    assert_eq!(absolute_address(u64::MAX, 1), 0);
    assert_eq!(absolute_address(u64::MAX - 0xf, 0x20), 0x10);
}

#[test]
fn plan_for_module_at_bias() {
    let names = vec!["func".to_string(), "ptr".to_string(), "len".to_string()];
    let offsets = resolve_offsets(
        &names,
        &vec![entry("func", 0x200), entry("ptr", 0x300)],
        &vec![entry("len", 0x308)],
    );
    let plan = plan_patch(&offsets, 0x1000, &targets("func", "ptr", "len"), 0xabc0, 7).unwrap();
    assert_eq!(
        plan,
        PatchPlan {
            original_fn: 0x1200,
            pointer_cell: 0x1300,
            pointer_value: 0xabc0,
            length_cell: 0x1308,
            length_value: 7,
        }
    );
}

#[test]
fn required_symbol_missing_gives_no_plan() {
    let names = vec!["a".to_string(), "b".to_string(), "c".to_string()];
    let offsets = resolve_offsets(&names, &vec![entry("a", 0x10)], &vec![entry("c", 0x30)]);
    assert_eq!(offsets.get(&"a".to_string()), Some(0x10));
    assert_eq!(offsets.get(&"c".to_string()), Some(0x30));
    assert!(!offsets.contains(&"b".to_string()));
    assert_eq!(offsets.len(), 2);
    let r = plan_patch(&offsets, 0x1000, &targets("a", "b", "c"), 1, 2);
    assert_eq!(r, Err(PatchError::SymbolNotFound));
    let r = plan_patch(&offsets, 0x1000, &targets("b", "a", "c"), 1, 2);
    assert_eq!(r, Err(PatchError::SymbolNotFound));
}

#[test]
fn write_then_read_back_through_plan() {
    let names = vec!["f".to_string(), "p".to_string(), "n".to_string()];
    let offsets = resolve_offsets(
        &names,
        &vec![entry("f", 0x10), entry("p", 0x20), entry("n", 0x28)],
        &vec![],
    );
    let plan = plan_patch(&offsets, 0x4000, &targets("f", "p", "n"), 0xdead, 12).unwrap();
    let mut memory = std::collections::HashMap::new();
    memory.insert(plan.pointer_cell, plan.pointer_value);
    memory.insert(plan.length_cell, plan.length_value);
    assert_eq!(memory[&absolute_address(0x4000, 0x20)], 0xdead);
    assert_eq!(memory[&absolute_address(0x4000, 0x28)], 12);
}

#[test]
fn nul_terminated_appends_zero() {
    assert_eq!(nul_terminated(&b"/games/hl".to_vec()), b"/games/hl\0".to_vec());
    assert_eq!(nul_terminated(&vec![]), vec![0u8]);
}

#[test]
fn file_name_is_terminal_component() {
    let name = b"filesystem_stdio.so".to_vec();
    assert!(file_name_matches(&b"/games/hl/filesystem_stdio.so".to_vec(), &name));
    assert!(file_name_matches(&b"filesystem_stdio.so".to_vec(), &name));
    assert!(!file_name_matches(&b"/games/hl/Filesystem_stdio.so".to_vec(), &name));
    assert!(!file_name_matches(&b"/games/filesystem_stdio.so/x".to_vec(), &name));
    assert!(!file_name_matches(&b"/games/hl/filesystem_stdio.so.1".to_vec(), &name));
}

#[test]
fn directory_of_paths() {
    assert_eq!(containing_directory(&b"/games/hl/filesystem_stdio.so".to_vec()), b"/games/hl".to_vec());
    assert_eq!(containing_directory(&b"/x.so".to_vec()), b"/".to_vec());
    assert_eq!(containing_directory(&b"x.so".to_vec()), Vec::<u8>::new());
}

#[test]
fn locate_picks_first_match() {
    let modules = vec![
        LoadedModule { path: b"/lib/libc.so.6".to_vec(), bias: 0x10 },
        LoadedModule { path: b"/hl/libfoo.so".to_vec(), bias: 0x1000 },
        LoadedModule { path: b"/other/libfoo.so".to_vec(), bias: 0x2000 },
    ];
    let m = locate_module(modules, &b"libfoo.so".to_vec()).unwrap();
    assert_eq!(m.path, b"/hl/libfoo.so".to_vec());
    assert_eq!(m.bias, 0x1000);
}

#[test]
fn locate_reports_not_found() {
    let modules = vec![LoadedModule { path: b"/lib/libc.so.6".to_vec(), bias: 0x10 }];
    assert_eq!(locate_module(modules, &b"libfoo.so".to_vec()).err().map(|_| ()), Some(()));
    let r = locate_module(vec![], &b"libfoo.so".to_vec());
    assert!(matches!(r, Err(PatchError::NotFound)));
}

#[test]
fn filesystem_targets_names() {
    let t = filesystem_targets();
    assert_eq!(t.original, CONSTRUCTOR_SYMBOL);
    assert_eq!(t.pointer_cell, BASE_PATH_SYMBOL);
    assert_eq!(t.length_cell, BASE_PATH_LEN_SYMBOL);
}
