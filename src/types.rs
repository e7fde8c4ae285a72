//! BrilType mapping and signature construction.
use vstd::prelude::*;
use crate::source::{BrilType, BrilFunction};
use crate::target::{MachType, CallSig};
use crate::error::LowerError;

verus! {

/// The machine type of a source type, where it has one.
pub open spec fn map_type(t: BrilType) -> Option<MachType> {
    match t {
        BrilType::Int => Some(MachType::I64),
        BrilType::Bool => Some(MachType::I8),
        _ => None,
    }
}

/// The type mapper is total on the closed type set and injective there:
/// int maps to the 64-bit integer type, bool to the boolean type, every other
/// type has no machine type, and two types with one machine type are equal.
pub proof fn lemma_type_mapping(a: BrilType, b: BrilType)
    ensures
        map_type(BrilType::Int) == Some(MachType::I64),
        map_type(BrilType::Bool) == Some(MachType::I8),
        map_type(a) is None <==> (a != BrilType::Int && a != BrilType::Bool),
        map_type(a) is Some && map_type(a) == map_type(b) ==> a == b,
{
}

/// Maps a source type to its machine type; any type but int and bool fails.
pub fn tr_type(t: &BrilType) -> (r: Result<MachType, LowerError>)
    ensures
        match map_type(*t) {
            Some(m) => r == Ok::<MachType, LowerError>(m),
            None => r is Err && r->Err_0 == LowerError::UnsupportedType,
        },
{
    match t {
        BrilType::Int => Ok(MachType::I64),
        BrilType::Bool => Ok(MachType::I8),
        _ => Err(LowerError::UnsupportedType),
    }
}

/// Whether every argument type and the return type of `f` have a machine type.
pub open spec fn sig_mappable(f: BrilFunction) -> bool {
    &&& forall|i: int| 0 <= i < f.args@.len() ==> (#[trigger] map_type(f.args@[i].arg_type)) is Some
    &&& (f.return_type matches Some(t) ==> map_type(t) is Some)
}

/// The parameter types of `f`'s signature, in declaration order.
pub open spec fn sig_params(f: BrilFunction) -> Seq<MachType> {
    f.args@.map_values(|a: crate::source::Argument| map_type(a.arg_type)->Some_0)
}

/// The return types of `f`'s signature: none, or one.
pub open spec fn sig_returns(f: BrilFunction) -> Seq<MachType> {
    match f.return_type {
        Some(t) => seq![map_type(t)->Some_0],
        None => seq![],
    }
}

/// Builds the native-convention signature of `f`: each argument's machine
/// type in order, and the machine type of the return type if there is one.
pub fn tr_sig(f: &BrilFunction) -> (r: Result<CallSig, LowerError>)
    ensures
        r is Ok <==> sig_mappable(*f),
        r matches Ok(s) ==> s.params@ == sig_params(*f) && s.results@ == sig_returns(*f),
        r matches Err(e) ==> e == LowerError::UnsupportedType,
{
    let mut results: Vec<MachType> = Vec::new();
    if let Some(t) = &f.return_type {
        let m = tr_type(t)?;
        results.push(m);
    }
    let mut params: Vec<MachType> = Vec::new();
    let mut i: usize = 0;
    while i < f.args.len()
        invariant
            i <= f.args@.len(),
            f.return_type matches Some(t) ==> map_type(t) is Some,
            results@ == sig_returns(*f),
            params@ == sig_params(*f).take(i as int),
            forall|k: int| 0 <= k < i ==> (#[trigger] map_type(f.args@[k].arg_type)) is Some,
        decreases f.args@.len() - i,
    {
        let m = tr_type(&f.args[i].arg_type)?;
        params.push(m);
        assert(sig_params(*f).take(i + 1) == sig_params(*f).take(i as int).push(m));
        i = i + 1;
    }
    assert(sig_params(*f).take(i as int) == sig_params(*f));
    Ok(CallSig { params, results })
}

} // verus!
