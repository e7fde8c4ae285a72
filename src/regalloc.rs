//! The register allocator: one virtual register per distinct destination.
use vstd::prelude::*;
use crate::error::LowerError;
use crate::source::{Code, BrilFunction, Instruction, BrilType, def_of};
use crate::target::{MachType, Reg, regs_view};
use crate::types::{map_type, tr_type};

verus! {

/// The names of a list of named, typed entries.
pub open spec fn names_of(s: Seq<(Seq<char>, MachType)>) -> Seq<Seq<char>> {
    s.map_values(|p: (Seq<char>, MachType)| p.0)
}

/// `j` is the first position of `x` in `s`.
pub open spec fn is_first(s: Seq<Seq<char>>, x: Seq<char>, j: int) -> bool {
    &&& 0 <= j < s.len()
    &&& s[j] == x
    &&& forall|k: int| 0 <= k < j ==> s[k] != x
}

/// The first position of `x` in `s`, if it occurs.
pub open spec fn first_index(s: Seq<Seq<char>>, x: Seq<char>) -> Option<int> {
    if exists|j: int| is_first(s, x, j) {
        Some(choose|j: int| is_first(s, x, j))
    } else {
        None
    }
}

pub proof fn lemma_first_index(s: Seq<Seq<char>>, x: Seq<char>, j: int)
    requires
        is_first(s, x, j),
    ensures
        first_index(s, x) == Some(j),
{
    let c = choose|c: int| is_first(s, x, c);
    assert(is_first(s, x, c));
    if c < j {
        assert(s[c] != x);
    } else if j < c {
        assert(s[j] != x);
    }
}

pub proof fn lemma_no_index(s: Seq<Seq<char>>, x: Seq<char>)
    requires
        forall|k: int| 0 <= k < s.len() ==> s[k] != x,
    ensures
        first_index(s, x) is None,
{
}

/// The first position of `name` among the registers' names.
pub fn find_reg(regs: &Vec<Reg>, name: &String) -> (r: Option<usize>)
    ensures
        r matches Some(j) ==> first_index(names_of(regs_view(regs@)), name@) == Some(j as int),
        r is None ==> first_index(names_of(regs_view(regs@)), name@) is None,
{
    let ghost ns = names_of(regs_view(regs@));
    let mut i: usize = 0;
    while i < regs.len()
        invariant
            i <= regs@.len(),
            ns == names_of(regs_view(regs@)),
            forall|k: int| 0 <= k < i ==> ns[k] != name@,
        decreases regs@.len() - i,
    {
        if regs[i].name == *name {
            proof { lemma_first_index(ns, name@, i as int); }
            return Some(i);
        }
        i = i + 1;
    }
    proof { lemma_no_index(ns, name@); }
    None
}

/// Adds one definition of name `d.0` with type `d.1` to a register list.
pub open spec fn alloc_step(regs: Seq<(Seq<char>, MachType)>, d: (Seq<char>, BrilType)) -> Result<
    Seq<(Seq<char>, MachType)>,
    LowerError,
> {
    match map_type(d.1) {
        None => Err(LowerError::UnsupportedType),
        Some(m) => match first_index(names_of(regs), d.0) {
            Some(j) => if regs[j].1 == m {
                Ok(regs)
            } else {
                Err(LowerError::TypeConflict)
            },
            None => Ok(regs.push((d.0, m))),
        },
    }
}

/// The registers of the first `n` code elements, in first-definition order.
pub open spec fn alloc_upto(codes: Seq<Code>, n: nat) -> Result<Seq<(Seq<char>, MachType)>, LowerError>
    decreases n,
{
    if n == 0 {
        Ok(seq![])
    } else {
        match alloc_upto(codes, (n - 1) as nat) {
            Err(e) => Err(e),
            Ok(regs) => match def_of(codes[n - 1]) {
                None => Ok(regs),
                Some(d) => alloc_step(regs, d),
            },
        }
    }
}

/// The register list of a function: each destination of a constant or value
/// instruction once, in the order of its first definition, with the machine
/// type of its declared type.
pub open spec fn allocation(f: BrilFunction) -> Result<Seq<(Seq<char>, MachType)>, LowerError> {
    alloc_upto(f.instrs@, f.instrs@.len())
}

/// An error met in a prefix is the error of the whole list.
pub proof fn lemma_alloc_err(codes: Seq<Code>, n: nat, m: nat)
    requires
        n <= m,
        alloc_upto(codes, n) is Err,
    ensures
        alloc_upto(codes, m) == alloc_upto(codes, n),
    decreases m - n,
{
    if n < m {
        lemma_alloc_err(codes, n, (m - 1) as nat);
    }
}

/// Collects every destination of `f` into its register list: one register
/// per distinct name (so as many registers as distinct destination names), typed by its declared type. An unmapped type fails with
/// `UnsupportedType`; a name declared with two types with `TypeConflict`.
pub fn all_vars(f: &BrilFunction) -> (r: Result<Vec<Reg>, LowerError>)
    ensures
        match r {
            Ok(v) => allocation(*f) == Ok::<Seq<(Seq<char>, MachType)>, LowerError>(regs_view(v@)),
            Err(e) => allocation(*f) == Err::<Seq<(Seq<char>, MachType)>, LowerError>(e),
        },
        r matches Ok(v) ==> v@.len() == dest_names(*f).len(),
{
    let mut regs: Vec<Reg> = Vec::new();
    let mut i: usize = 0;
    assert(regs_view(regs@) =~= seq![]);
    while i < f.instrs.len()
        invariant
            i <= f.instrs@.len(),
            alloc_upto(f.instrs@, i as nat) == Ok::<Seq<(Seq<char>, MachType)>, LowerError>(
                regs_view(regs@),
            ),
        decreases f.instrs@.len() - i,
    {
        let (dest, typ) = match &f.instrs[i] {
            Code::Instruction(Instruction::Constant { dest, const_type, .. }) => (dest, const_type),
            Code::Instruction(Instruction::Value { dest, op_type, .. }) => (dest, op_type),
            _ => {
                i = i + 1;
                continue;
            },
        };
        let ghost before = regs_view(regs@);
        match tr_type(typ) {
            Err(e) => {
                proof { lemma_alloc_err(f.instrs@, (i + 1) as nat, f.instrs@.len()); }
                return Err(e);
            },
            Ok(m) => match find_reg(&regs, dest) {
                Some(j) => {
                    if regs[j].ty != m {
                        proof { lemma_alloc_err(f.instrs@, (i + 1) as nat, f.instrs@.len()); }
                        return Err(LowerError::TypeConflict);
                    }
                },
                None => {
                    regs.push(Reg { name: dest.clone(), ty: m });
                    assert(regs_view(regs@) == before.push((dest@, m)));
                },
            },
        }
        i = i + 1;
    }
    proof { lemma_register_count(*f); }
    Ok(regs)
}

/// Whether a code element defines the name `x`.
pub open spec fn defines(c: Code, x: Seq<char>) -> bool {
    def_of(c) is Some && def_of(c)->Some_0.0 == x
}

/// The destination names among the first `n` code elements.
pub open spec fn dest_names_upto(codes: Seq<Code>, n: nat) -> Set<Seq<char>> {
    Set::new(|x: Seq<char>| exists|i: int| 0 <= i < n && #[trigger] defines(codes[i], x))
}

/// The distinct destination names of a function's constant and value
/// instructions.
pub open spec fn dest_names(f: BrilFunction) -> Set<Seq<char>> {
    dest_names_upto(f.instrs@, f.instrs@.len())
}

pub proof fn lemma_some_first(s: Seq<Seq<char>>, x: Seq<char>, k: int)
    requires
        0 <= k < s.len(),
        s[k] == x,
    ensures
        first_index(s, x) is Some,
    decreases k,
{
    if exists|c: int| 0 <= c < k && s[c] == x {
        let c = choose|c: int| 0 <= c < k && s[c] == x;
        lemma_some_first(s, x, c);
    } else {
        assert(is_first(s, x, k));
    }
}

proof fn lemma_alloc_names(codes: Seq<Code>, n: nat)
    requires
        n <= codes.len(),
        alloc_upto(codes, n) is Ok,
    ensures
        names_of(alloc_upto(codes, n)->Ok_0).no_duplicates(),
        names_of(alloc_upto(codes, n)->Ok_0).to_set() == dest_names_upto(codes, n),
    decreases n,
{
    if n == 0 {
        assert(names_of(alloc_upto(codes, n)->Ok_0).to_set() =~= dest_names_upto(codes, n));
    } else {
        let m = (n - 1) as nat;
        if alloc_upto(codes, m) is Err {
            lemma_alloc_err(codes, m, n);
        }
        lemma_alloc_names(codes, m);
        let regs = alloc_upto(codes, m)->Ok_0;
        let after = alloc_upto(codes, n)->Ok_0;
        match def_of(codes[m as int]) {
            None => {
                assert(names_of(after).to_set() =~= dest_names_upto(codes, n)) by {
                    assert forall|x: Seq<char>| dest_names_upto(codes, n).contains(x) implies dest_names_upto(codes, m).contains(x) by {
                        let i = choose|i: int| 0 <= i < n && #[trigger] defines(codes[i], x);
                        assert(i != m);
                    };
                    assert forall|x: Seq<char>| dest_names_upto(codes, m).contains(x) implies dest_names_upto(codes, n).contains(x) by {
                        let i = choose|i: int| 0 <= i < m && #[trigger] defines(codes[i], x);
                    };
                };
            },
            Some(d) => {
                let mt = map_type(d.1)->Some_0;
                let old_names = names_of(regs);
                assert forall|x: Seq<char>| dest_names_upto(codes, n).contains(x) <==> (dest_names_upto(codes, m).contains(x) || x == d.0) by {
                    if dest_names_upto(codes, n).contains(x) && x != d.0 {
                        let i = choose|i: int| 0 <= i < n && #[trigger] defines(codes[i], x);
                        assert(i != m);
                    }
                    if dest_names_upto(codes, m).contains(x) {
                        let i = choose|i: int| 0 <= i < m && #[trigger] defines(codes[i], x);
                    }
                    if x == d.0 {
                        assert(defines(codes[m as int], x));
                    }
                };
                match first_index(old_names, d.0) {
                    Some(j) => {
                        assert(after == regs);
                        assert(old_names[j] == d.0);
                        assert(old_names.to_set().contains(d.0));
                        assert(names_of(after).to_set() =~= dest_names_upto(codes, n));
                    },
                    None => {
                        assert(after == regs.push((d.0, mt)));
                        assert(names_of(after) =~= old_names.push(d.0));
                        assert forall|k: int| 0 <= k < old_names.len() implies old_names[k] != d.0 by {
                            if old_names[k] == d.0 {
                                lemma_some_first(old_names, d.0, k);
                            }
                        };
                        assert(names_of(after).to_set() =~= dest_names_upto(codes, n)) by {
                            assert forall|x: Seq<char>| names_of(after).to_set().contains(x) <==> (old_names.to_set().contains(x) || x == d.0) by {
                                if names_of(after).to_set().contains(x) {
                                    let k = choose|k: int| 0 <= k < names_of(after).len() && names_of(after)[k] == x;
                                    if k < old_names.len() {
                                        assert(old_names[k] == x);
                                    }
                                }
                                if old_names.to_set().contains(x) {
                                    let k = choose|k: int| 0 <= k < old_names.len() && old_names[k] == x;
                                    assert(names_of(after)[k] == x);
                                }
                                if x == d.0 {
                                    assert(names_of(after)[old_names.len() as int] == x);
                                }
                            };
                            assert forall|x: Seq<char>| names_of(after).to_set().contains(x) <==> dest_names_upto(codes, n).contains(x) by {
                                assert(old_names.to_set().contains(x) == dest_names_upto(codes, m).contains(x));
                            };
                        };
                    },
                }
            },
        }
    }
}

/// The register count of a function is the number of distinct destination
/// names among its constant and value instructions: each name has exactly one
/// register, however often it is defined.
pub proof fn lemma_register_count(f: BrilFunction)
    requires
        allocation(f) is Ok,
    ensures
        names_of(allocation(f)->Ok_0).no_duplicates(),
        names_of(allocation(f)->Ok_0).to_set() == dest_names(f),
        allocation(f)->Ok_0.len() == dest_names(f).len(),
{
    lemma_alloc_names(f.instrs@, f.instrs@.len());
    names_of(allocation(f)->Ok_0).unique_seq_to_set();
}

} // verus!
