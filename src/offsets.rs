use vstd::prelude::*;

verus! {

/// One decoded symbol table entry: its name and its file-relative value.
pub struct SymbolEntry {
    pub name: String,
    pub value: u64,
}

/// A decoded symbol table as plain (name, value) pairs.
pub type SymbolTable = Seq<(Seq<char>, u64)>;

/// The plain pairs of a table of entries.
pub open spec fn table_view(table: Seq<SymbolEntry>) -> SymbolTable {
    table.map_values(|e: SymbolEntry| (e.name@, e.value))
}

/// The value that scanning `table` front to back records for `name`:
/// the last entry with that name wins.
pub open spec fn last_value(table: SymbolTable, name: Seq<char>) -> Option<u64>
    decreases table.len(),
{
    if table.len() == 0 {
        None
    } else if table.last().0 == name {
        Some(table.last().1)
    } else {
        last_value(table.drop_last(), name)
    }
}

/// The offset resolved for `name`: the static table's value where it has
/// one, the dynamic table's otherwise.
pub open spec fn resolved_offset(
    dynamic: SymbolTable,
    statics: SymbolTable,
    name: Seq<char>,
) -> Option<u64> {
    match last_value(statics, name) {
        Some(v) => Some(v),
        None => last_value(dynamic, name),
    }
}

/// The offset map for the requested `names`: exactly the requested names
/// that either table holds, each with its resolved offset.
pub open spec fn offsets_model(
    names: Seq<String>,
    dynamic: SymbolTable,
    statics: SymbolTable,
) -> Map<Seq<char>, u64> {
    Map::new(
        |n: Seq<char>|
            (exists|i: int| 0 <= i < names.len() && #[trigger] names[i]@ == n) && resolved_offset(
                dynamic,
                statics,
                n,
            ) is Some,
        |n: Seq<char>| resolved_offset(dynamic, statics, n).unwrap(),
    )
}

/// A map from symbol name to file-relative address.
pub struct SymbolOffsets {
    entries: Vec<SymbolEntry>,
}

impl SymbolOffsets {
    /// No name is recorded twice.
    #[verifier::type_invariant]
    spec fn keys_unique(&self) -> bool {
        table_keys(table_view(self.entries@)).no_duplicates()
    }
}

/// The names of a table, in order.
pub open spec fn table_keys(table: SymbolTable) -> Seq<Seq<char>> {
    table.map_values(|p: (Seq<char>, u64)| p.0)
}

/// A name has a recorded value exactly when some entry carries it.
proof fn lemma_last_value_some(table: SymbolTable, name: Seq<char>)
    ensures
        (last_value(table, name) is Some) == table_keys(table).contains(name),
    decreases table.len(),
{
    if table.len() > 0 {
        lemma_last_value_some(table.drop_last(), name);
        let ks = table_keys(table);
        assert(table_keys(table.drop_last()) =~= ks.drop_last());
        if table.last().0 == name {
            assert(ks[ks.len() - 1] == name);
        } else if ks.contains(name) {
            let i = choose|i: int| 0 <= i < ks.len() && ks[i] == name;
            assert(ks.drop_last()[i] == name);
        }
    }
}

impl View for SymbolOffsets {
    type V = Map<Seq<char>, u64>;

    closed spec fn view(&self) -> Map<Seq<char>, u64> {
        Map::new(
            |n: Seq<char>| last_value(table_view(self.entries@), n) is Some,
            |n: Seq<char>| last_value(table_view(self.entries@), n).unwrap(),
        )
    }
}

/// Scans `table` from the back for `name`.
fn find_last(table: &Vec<SymbolEntry>, name: &String) -> (r: Option<u64>)
    ensures
        r == last_value(table_view(table@), name@),
{
    let ghost tv = table_view(table@);
    let mut i: usize = table.len();
    proof {
        assert(tv.subrange(0, i as int) =~= tv);
    }
    while i > 0
        invariant
            i <= table.len(),
            tv == table_view(table@),
            last_value(tv, name@) == last_value(tv.subrange(0, i as int), name@),
        decreases i,
    {
        let e = &table[i - 1];
        proof {
            let s = tv.subrange(0, i as int);
            assert(s.drop_last() =~= tv.subrange(0, i - 1));
            assert(s.last() == (e.name@, e.value));
        }
        if e.name == *name {
            return Some(e.value);
        }
        i = i - 1;
    }
    proof {
        assert(tv.subrange(0, 0).len() == 0);
    }
    None
}

impl SymbolOffsets {
    /// The offset recorded for `name`, if any.
    pub fn get(&self, name: &String) -> (r: Option<u64>)
        ensures
            r == (if self@.contains_key(name@) {
                Some(self@[name@])
            } else {
                None
            }),
    {
        find_last(&self.entries, name)
    }

    /// How many names have a recorded offset.
    pub fn len(&self) -> (r: usize)
        ensures
            r == self@.len(),
    {
        proof {
            use_type_invariant(self);
            let ks = table_keys(table_view(self.entries@));
            ks.unique_seq_to_set();
            assert forall|n: Seq<char>| #[trigger] self@.dom().contains(n) == ks.to_set().contains(n) by {
                lemma_last_value_some(table_view(self.entries@), n);
            }
            assert(self@.dom() =~= ks.to_set());
        }
        self.entries.len()
    }

    /// Whether `name` has a recorded offset.
    pub fn contains(&self, name: &String) -> (r: bool)
        ensures
            r == self@.contains_key(name@),
    {
        find_last(&self.entries, name).is_some()
    }
}

/// Resolves each requested name against both decoded tables: the dynamic
/// table is scanned first and the static table second, a later record
/// overwriting an earlier one, so a value from the static table wins.
/// Names found in neither table are left out of the map.
pub fn resolve_offsets(
    names: &Vec<String>,
    dynamic: &Vec<SymbolEntry>,
    statics: &Vec<SymbolEntry>,
) -> (r: SymbolOffsets)
    ensures
        r@ == offsets_model(names@, table_view(dynamic@), table_view(statics@)),
{
    let mut entries: Vec<SymbolEntry> = Vec::new();
    let mut i: usize = 0;
    while i < names.len()
        invariant
            i <= names.len(),
            table_keys(table_view(entries@)).no_duplicates(),
            forall|n: Seq<char>|
                #![trigger last_value(table_view(entries@), n)]
                last_value(table_view(entries@), n) == (if (exists|j: int|
                    0 <= j < i && #[trigger] names@[j]@ == n) {
                    resolved_offset(table_view(dynamic@), table_view(statics@), n)
                } else {
                    None
                }),
        decreases names.len() - i,
    {
        let name = &names[i];
        let found = match find_last(statics, name) {
            Some(v) => Some(v),
            None => find_last(dynamic, name),
        };
        let ghost old_entries = table_view(entries@);
        let ghost old_keys = table_keys(table_view(entries@));
        if let Some(v) = found {
            if find_last(&entries, name).is_none() {
                proof {
                    lemma_last_value_some(table_view(entries@), name@);
                }
                entries.push(SymbolEntry { name: name.clone(), value: v });
                proof {
                    assert(table_keys(table_view(entries@)) =~= old_keys.push(name@));
                    assert forall|a: int, b: int|
                        0 <= a < b < old_keys.len() + 1 implies #[trigger] table_keys(
                            table_view(entries@),
                        )[a] != #[trigger] table_keys(table_view(entries@))[b] by {
                        if b == old_keys.len() {
                            assert(old_keys[a] != name@);
                        }
                    }
                }
            }
        }
        proof {
            assert forall|n: Seq<char>|
                #![trigger last_value(table_view(entries@), n)]
                last_value(table_view(entries@), n) == (if (exists|j: int|
                    0 <= j < i + 1 && #[trigger] names@[j]@ == n) {
                    resolved_offset(table_view(dynamic@), table_view(statics@), n)
                } else {
                    None
                }) by {
                if table_view(entries@).len() != old_entries.len() {
                    assert(table_view(entries@).drop_last() =~= old_entries);
                } else {
                    assert(table_view(entries@) =~= old_entries);
                }
                // What the invariant said of `n` before this step.
                assert(last_value(old_entries, n) == (if (exists|j: int|
                    0 <= j < i && #[trigger] names@[j]@ == n) {
                    resolved_offset(table_view(dynamic@), table_view(statics@), n)
                } else {
                    None
                }));
                if n == names@[i as int]@ {
                    assert(names@[i as int]@ == n);
                } else if exists|j: int| 0 <= j < i + 1 && #[trigger] names@[j]@ == n {
                    let j = choose|j: int| 0 <= j < i + 1 && #[trigger] names@[j]@ == n;
                    assert(j < i);
                }
            }
        }
        i = i + 1;
    }
    let r = SymbolOffsets { entries };
    proof {
        assert(r@ =~= offsets_model(names@, table_view(dynamic@), table_view(statics@)));
    }
    r
}

/// A symbol that only the dynamic table holds resolves to the dynamic
/// table's address.
pub proof fn lemma_dynamic_only(
    sym: String,
    addr: u64,
    dynamic: SymbolTable,
    statics: SymbolTable,
)
    requires
        last_value(dynamic, sym@) == Some(addr),
        last_value(statics, sym@) is None,
    ensures
        offsets_model(seq![sym], dynamic, statics) == map![sym@ => addr],
{
    let names = seq![sym];
    assert(names[0]@ == sym@);
    assert(offsets_model(names, dynamic, statics) =~= map![sym@ => addr]);
}

/// A symbol that both tables hold resolves to the static table's address.
pub proof fn lemma_static_wins(
    sym: String,
    dynamic_addr: u64,
    static_addr: u64,
    dynamic: SymbolTable,
    statics: SymbolTable,
)
    requires
        last_value(dynamic, sym@) == Some(dynamic_addr),
        last_value(statics, sym@) == Some(static_addr),
    ensures
        offsets_model(seq![sym], dynamic, statics) == map![sym@ => static_addr],
{
    let names = seq![sym];
    assert(names[0]@ == sym@);
    assert(offsets_model(names, dynamic, statics) =~= map![sym@ => static_addr]);
}

/// A requested name that neither table holds is simply absent from the map.
pub proof fn lemma_missing_name_absent(
    names: Seq<String>,
    name: Seq<char>,
    dynamic: SymbolTable,
    statics: SymbolTable,
)
    requires
        last_value(dynamic, name) is None,
        last_value(statics, name) is None,
    ensures
        !offsets_model(names, dynamic, statics).contains_key(name),
{
}

/// Every key of the map is one of the requested names.
pub proof fn lemma_keys_requested(
    names: Seq<String>,
    name: Seq<char>,
    dynamic: SymbolTable,
    statics: SymbolTable,
)
    requires
        offsets_model(names, dynamic, statics).contains_key(name),
    ensures
        exists|i: int| 0 <= i < names.len() && #[trigger] names[i]@ == name,
{
}

/// Requesting no names gives the empty map.
pub proof fn lemma_no_names_empty(dynamic: SymbolTable, statics: SymbolTable)
    ensures
        offsets_model(Seq::empty(), dynamic, statics) == Map::<Seq<char>, u64>::empty(),
{
    assert(offsets_model(Seq::empty(), dynamic, statics) =~= Map::<Seq<char>, u64>::empty());
}

} // verus!
