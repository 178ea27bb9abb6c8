use crate::error::PatchError;
use vstd::prelude::*;

verus! {

/// A shared object as mapped into the process: its path on disk and its
/// load bias (load address minus the file's own base address, modulo 2^64).
pub struct LoadedModule {
    pub path: Vec<u8>,
    pub bias: u64,
}

/// The path separator.
pub const SEPARATOR: u8 = 0x2f;

/// The terminal component of a path: what follows its last separator, or
/// the whole path where it has none.
pub open spec fn file_name_of(p: Seq<u8>) -> Seq<u8>
    decreases p.len(),
{
    if p.len() == 0 {
        p
    } else if p.last() == SEPARATOR {
        Seq::empty()
    } else {
        file_name_of(p.drop_last()).push(p.last())
    }
}

/// The directory holding a path: what precedes its last separator (the root
/// itself where that separator is the first byte), or nothing where it has
/// no separator.
pub open spec fn directory_of(p: Seq<u8>) -> Seq<u8>
    decreases p.len(),
{
    if p.len() == 0 {
        p
    } else if p.last() == SEPARATOR {
        if p.len() == 1 {
            p
        } else {
            p.drop_last()
        }
    } else {
        directory_of(p.drop_last())
    }
}

/// The position just past the last separator of `p` (0 where it has none).
fn component_start(p: &Vec<u8>) -> (r: usize)
    ensures
        r <= p@.len(),
        forall|j: int| r <= j < p@.len() ==> p@[j] != SEPARATOR,
        r > 0 ==> p@[r - 1] == SEPARATOR,
        file_name_of(p@) == p@.subrange(r as int, p@.len() as int),
        r > 0 ==> directory_of(p@) == (if r == 1 {
            p@.subrange(0, 1)
        } else {
            p@.subrange(0, r - 1)
        }),
        r == 0 ==> directory_of(p@) == Seq::<u8>::empty(),
{
    let mut i: usize = p.len();
    proof {
        assert(p@.subrange(0, i as int) =~= p@);
        assert(p@.subrange(i as int, i as int) =~= Seq::<u8>::empty());
    }
    while i > 0
        invariant
            i <= p@.len(),
            forall|j: int| i <= j < p@.len() ==> p@[j] != SEPARATOR,
            file_name_of(p@) == file_name_of(p@.subrange(0, i as int)) + p@.subrange(
                i as int,
                p@.len() as int,
            ),
            directory_of(p@) == directory_of(p@.subrange(0, i as int)),
        decreases i,
    {
        let ghost s = p@.subrange(0, i as int);
        proof {
            assert(s.drop_last() =~= p@.subrange(0, i - 1));
            assert(s.last() == p@[i - 1]);
        }
        if p[i - 1] == SEPARATOR {
            proof {
                assert(file_name_of(s) == Seq::<u8>::empty());
                assert(Seq::<u8>::empty() + p@.subrange(i as int, p@.len() as int) =~= p@.subrange(
                    i as int,
                    p@.len() as int,
                ));
                if i == 1 {
                    assert(s =~= p@.subrange(0, 1));
                }
            }
            return i;
        }
        proof {
            assert(file_name_of(s) == file_name_of(p@.subrange(0, i - 1)).push(p@[i - 1]));
            assert(file_name_of(p@.subrange(0, i - 1)).push(p@[i - 1]) + p@.subrange(
                i as int,
                p@.len() as int,
            ) =~= file_name_of(p@.subrange(0, i - 1)) + p@.subrange(i - 1, p@.len() as int));
        }
        i = i - 1;
    }
    proof {
        assert(p@.subrange(0, 0) =~= Seq::<u8>::empty());
        assert(Seq::<u8>::empty() + p@.subrange(0, p@.len() as int) =~= p@.subrange(
            0,
            p@.len() as int,
        ));
    }
    0
}

/// Whether the terminal component of `path` is exactly `name`.
pub fn file_name_matches(path: &Vec<u8>, name: &Vec<u8>) -> (r: bool)
    ensures
        r == (file_name_of(path@) == name@),
{
    let start = component_start(path);
    if path.len() - start != name.len() {
        return false;
    }
    let mut k: usize = 0;
    while k < name.len()
        invariant
            start + name@.len() == path@.len(),
            path@.len() == path.len(),
            file_name_of(path@) == path@.subrange(start as int, path@.len() as int),
            k <= name@.len(),
            forall|j: int| 0 <= j < k ==> path@[start + j] == name@[j],
        decreases name@.len() - k,
    {
        if path[start + k] != name[k] {
            proof {
                assert(file_name_of(path@)[k as int] != name@[k as int]);
            }
            return false;
        }
        k = k + 1;
    }
    proof {
        assert(file_name_of(path@) =~= name@);
    }
    true
}

/// The directory that holds `path`.
pub fn containing_directory(path: &Vec<u8>) -> (r: Vec<u8>)
    ensures
        r@ == directory_of(path@),
{
    let start = component_start(path);
    let end: usize = if start == 1 {
        1
    } else if start > 1 {
        start - 1
    } else {
        0
    };
    let mut out: Vec<u8> = Vec::new();
    let mut k: usize = 0;
    while k < end
        invariant
            end <= path@.len(),
            k <= end,
            out@ =~= path@.subrange(0, k as int),
        decreases end - k,
    {
        out.push(path[k]);
        k = k + 1;
    }
    proof {
        if start == 0 {
            assert(out@ =~= Seq::<u8>::empty());
        }
    }
    out
}

/// The position of the first module whose file name is `name`.
fn first_match(modules: &Vec<LoadedModule>, name: &Vec<u8>) -> (r: Option<usize>)
    ensures
        match r {
            Some(i) => i < modules@.len() && file_name_of(modules@[i as int].path@) == name@
                && forall|j: int|
                0 <= j < i ==> file_name_of(#[trigger] modules@[j].path@) != name@,
            None => forall|j: int|
                0 <= j < modules@.len() ==> file_name_of(#[trigger] modules@[j].path@) != name@,
        },
{
    let mut i: usize = 0;
    while i < modules.len()
        invariant
            i <= modules@.len(),
            forall|j: int| 0 <= j < i ==> file_name_of(#[trigger] modules@[j].path@) != name@,
        decreases modules@.len() - i,
    {
        if file_name_matches(&modules[i].path, name) {
            return Some(i);
        }
        i = i + 1;
    }
    None
}

/// Picks, among the loaded modules, the first whose file name is `name`.
pub fn locate_module(modules: Vec<LoadedModule>, name: &Vec<u8>) -> (r: Result<
    LoadedModule,
    PatchError,
>)
    ensures
        match r {
            Ok(m) => exists|i: int|
                0 <= i < modules@.len() && m == modules@[i] && file_name_of(
                    #[trigger] modules@[i].path@,
                ) == name@ && forall|j: int|
                    0 <= j < i ==> file_name_of(#[trigger] modules@[j].path@) != name@,
            Err(e) => e == PatchError::NotFound && forall|j: int|
                0 <= j < modules@.len() ==> file_name_of(#[trigger] modules@[j].path@) != name@,
        },
{
    match first_match(&modules, name) {
        Some(i) => {
            let mut pool = modules;
            let m = pool.remove(i);
            Ok(m)
        },
        None => Err(PatchError::NotFound),
    }
}

} // verus!
