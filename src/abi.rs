use alloy::dyn_abi::{DynSolType, DynSolValue, JsonAbiExt};
use alloy::json_abi::{Function, JsonAbi};
use std::str::FromStr;
use vstd::prelude::*;

verus! {

#[verifier::external_type_specification]
#[verifier::external_body]
pub struct ExFunction(Function);


/// Name and input type texts of one ABI function.
pub type FunctionSig = (Seq<char>, Seq<Seq<char>>);

/// One function of a contract ABI: its name, the canonical type text of
/// each input in order (a tuple written out as its components), and the ABI
/// item itself, which encodes calls. Only `parse_abi` builds one, so the
/// three always describe the same function.
pub(crate) struct AbiFunction {
    pub(crate) name: String,
    pub(crate) input_types: Vec<String>,
    pub(crate) function: Function,
}

impl AbiFunction {
    pub(crate) open spec fn sig(&self) -> FunctionSig {
        (self.name@, self.input_types@.map_values(|t: String| t@))
    }
}

/// The functions that a JSON ABI text declares, grouped by name in
/// ascending order and in declaration order within a name; `None` where the
/// text is not a JSON ABI.
pub uninterp spec fn abi_functions(text: Seq<char>) -> Option<Seq<FunctionSig>>;

/// Relies on `serde_json::from_str::<JsonAbi>`, then lists the parsed
/// functions with `JsonAbi::functions`, each input by `Param::selector_type`;
/// the outcome depends on the text alone.
#[verifier::external_body]
pub(crate) fn parse_abi(text: &str) -> (r: Option<Vec<AbiFunction>>)
    ensures
        match r {
            Some(fs) => abi_functions(text@) == Some(fs@.map_values(|f: AbiFunction| f.sig())),
            None => abi_functions(text@).is_none(),
        },
{
    let abi: JsonAbi = serde_json::from_str(text).ok()?;
    Some(abi.functions().map(|f| AbiFunction {
        name: f.name.clone(),
        input_types: f.inputs.iter().map(|p| p.selector_type().into_owned()).collect(),
        function: f.clone(),
    }).collect())
}

/// Whether a text coerces to a value of the Solidity type that `ty` names.
pub uninterp spec fn coerces(ty: Seq<char>, text: Seq<char>) -> bool;

/// Relies on alloy's `DynSolType::from_str` on the type text and
/// `DynSolType::coerce_str` on the value text; the outcome depends on the two
/// texts alone.
#[verifier::external_body]
pub(crate) fn coerces_to(ty: &str, text: &str) -> (r: bool)
    ensures
        r == coerces(ty@, text@),
{
    match DynSolType::from_str(ty) {
        Ok(t) => t.coerce_str(text).is_ok(),
        Err(_) => false,
    }
}

/// The calldata of a call of the function `f` with the argument texts
/// `args`: the 4-byte selector, then the ABI encoding of each text coerced
/// to the input type at its position.
pub uninterp spec fn call_data(f: FunctionSig, args: Seq<Seq<char>>) -> Seq<u8>;

/// Relies on alloy's `DynSolType::coerce_str` for each argument, then
/// `JsonAbiExt::abi_encode_input` for `Function`, which prefixes the
/// selector. A value coerced to an input's canonical type is accepted by
/// the encoder's type check, so the call succeeds when every argument
/// coerces and the counts agree.
#[verifier::external_body]
pub(crate) fn encode_call(f: &AbiFunction, args: &Vec<String>) -> (r: Option<Vec<u8>>)
    ensures
        r matches Some(d) ==> d@ == call_data(f.sig(), args@.map_values(|s: String| s@)) && d@.len() >= 4,
        args@.len() == f.input_types@.len() && (forall|i: int| 0 <= i < args@.len()
            ==> coerces(f.input_types@[i]@, #[trigger] args@[i]@)) ==> r is Some,
{
    let values: Option<Vec<DynSolValue>> = f.input_types.iter().zip(args.iter())
        .map(|(ty, a)| DynSolType::from_str(ty).ok()?.coerce_str(a).ok())
        .collect();
    f.function.abi_encode_input(&values?).ok()
}

/// Input types of the first function of that name in the list.
pub open spec fn function_inputs(fs: Seq<FunctionSig>, name: Seq<char>) -> Option<Seq<Seq<char>>>
    decreases fs.len(),
{
    if fs.len() == 0 {
        None
    } else if fs[0].0 == name {
        Some(fs[0].1)
    } else {
        function_inputs(fs.drop_first(), name)
    }
}

/// Index of the first function of that name.
pub(crate) fn find_function(fs: &Vec<AbiFunction>, name: &String) -> (r: Option<usize>)
    ensures
        match r {
            Some(i) => i < fs@.len() && fs@[i as int].name@ == name@ && function_inputs(
                fs@.map_values(|f: AbiFunction| f.sig()),
                name@,
            ) == Some(fs@[i as int].sig().1),
            None => function_inputs(fs@.map_values(|f: AbiFunction| f.sig()), name@).is_none(),
        },
{
    let ghost sigs = fs@.map_values(|f: AbiFunction| f.sig());
    let mut i: usize = 0;
    assert(sigs.skip(0) =~= sigs);
    while i < fs.len()
        invariant
            i <= fs@.len(),
            sigs == fs@.map_values(|f: AbiFunction| f.sig()),
            function_inputs(sigs, name@) == function_inputs(sigs.skip(i as int), name@),
        decreases fs@.len() - i,
    {
        let ghost rest = sigs.skip(i as int);
        assert(rest.drop_first() =~= sigs.skip(i as int + 1));
        assert(rest[0] == fs@[i as int].sig());
        if fs[i].name == *name {
            return Some(i);
        }
        i = i + 1;
    }
    None
}

} // verus!
