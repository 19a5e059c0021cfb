use crate::abi::{
    abi_functions, call_data, coerces, coerces_to, encode_call, find_function, function_inputs,
    parse_abi,
};
use crate::address::{address_of_text, parse_address};
use crate::error::RelayerError;
use crate::hexfmt::{prefixed_hex, prefixed_hex_text};
use crate::types::{EventLog, TxRequest};
use vstd::prelude::*;
use vstd::string::StrSliceExecFns;

verus! {

/// A stored action: the call to make on `chain_id` whenever the bound
/// subscription fires. Each parameter slot is either a literal or
/// `topic{k}`, which stands for the log's topic at index `k` (index 0 is the
/// event selector); bound to an `address` input, a topic gives its low 20
/// bytes.
#[derive(Clone)]
pub struct RawTransaction {
    pub chain_id: usize,
    pub contract_address: String,
    pub abi: String,
    pub function_name: String,
    pub params: Vec<(usize, String)>,
}

pub open spec fn types_view(v: Seq<String>) -> Seq<Seq<char>> {
    v.map_values(|t: String| t@)
}

pub open spec fn is_digit(c: char) -> bool {
    '0' <= c && c <= '9'
}

/// Value of a string of decimal digits.
pub open spec fn decimal_value(s: Seq<char>) -> nat
    decreases s.len(),
{
    if s.len() == 0 {
        0
    } else {
        decimal_value(s.drop_last()) * 10 + (s.last() as int - '0' as int) as nat
    }
}

pub open spec fn topic_prefix() -> Seq<char> {
    seq!['t', 'o', 'p', 'i', 'c']
}

pub open spec fn address_type() -> Seq<char> {
    seq!['a', 'd', 'd', 'r', 'e', 's', 's']
}

/// Text of a topic word substituted into an input of type `ty`: an
/// `address` input takes the word's low 20 bytes (an indexed address is
/// stored left-padded), any other input the whole word.
pub open spec fn topic_text(word: Seq<u8>, ty: Seq<char>) -> Seq<char> {
    if ty == address_type() {
        prefixed_hex_text(word.subrange(12, 32))
    } else {
        prefixed_hex_text(word)
    }
}

/// Declared type of the input at position `i`; empty past the last input.
pub open spec fn type_at(types: Seq<Seq<char>>, i: int) -> Seq<char> {
    if 0 <= i < types.len() {
        types[i]
    } else {
        Seq::empty()
    }
}

/// What one parameter slot, bound to an input of type `ty`, stands for
/// under the given topics.
pub open spec fn slot_value(slot: Seq<char>, topics: Seq<[u8; 32]>, ty: Seq<char>) -> Result<Seq<char>, RelayerError> {
    if slot.len() >= 5 && slot.take(5) == topic_prefix() {
        let digits = slot.skip(5);
        if digits.len() == 0 || exists|i: int| 0 <= i < digits.len() && !is_digit(#[trigger] digits[i]) {
            Err(RelayerError::InvalidTopicMapping)
        } else if decimal_value(digits) < topics.len() {
            Ok(topic_text(topics[decimal_value(digits) as int]@, ty))
        } else {
            Err(RelayerError::TopicOutOfIndex)
        }
    } else {
        Ok(slot)
    }
}

/// The slots resolved in order against the declared input types, or the
/// error of the first slot that fails.
pub open spec fn resolved_args(params: Seq<(usize, String)>, topics: Seq<[u8; 32]>, types: Seq<Seq<char>>) -> Result<Seq<Seq<char>>, RelayerError>
    decreases params.len(),
{
    if params.len() == 0 {
        Ok(Seq::empty())
    } else {
        match resolved_args(params.drop_last(), topics, types) {
            Err(e) => Err(e),
            Ok(prev) => match slot_value(params.last().1@, topics, type_at(types, params.len() - 1)) {
                Err(e) => Err(e),
                Ok(v) => Ok(prev.push(v)),
            },
        }
    }
}

/// What a template decides before encoding: the target address, the
/// function's input types and the resolved arguments, or the first error
/// among ABI, function, slots, argument count, argument types and target
/// address, in that order.
pub open spec fn build_plan(t: RawTransaction, topics: Seq<[u8; 32]>) -> Result<(Seq<u8>, Seq<Seq<char>>, Seq<Seq<char>>), RelayerError> {
    match abi_functions(t.abi@) {
        None => Err(RelayerError::InvalidABI),
        Some(fs) => match function_inputs(fs, t.function_name@) {
            None => Err(RelayerError::FunctionNotFound),
            Some(inputs) => match resolved_args(t.params@, topics, inputs) {
                Err(e) => Err(e),
                Ok(args) => if args.len() != inputs.len() {
                    Err(RelayerError::InvalidArgsCount)
                } else if exists|i: int| 0 <= i < args.len() && !coerces(inputs[i], #[trigger] args[i]) {
                    Err(RelayerError::InvalidDataType)
                } else {
                    match address_of_text(t.contract_address@) {
                        None => Err(RelayerError::InvalidAddress),
                        Some(to) => Ok((to, inputs, args)),
                    }
                },
            },
        },
    }
}

/// Resolves one parameter slot against the log's topics.
pub fn resolve_slot(slot: &String, topics: &Vec<[u8; 32]>, ty: &String) -> (r: Result<String, RelayerError>)
    ensures
        match r {
            Ok(v) => slot_value(slot@, topics@, ty@) == Ok::<Seq<char>, RelayerError>(v@),
            Err(e) => slot_value(slot@, topics@, ty@) == Err::<Seq<char>, RelayerError>(e),
        },
{
    let s = slot.as_str();
    let n = s.unicode_len();
    if n < 5 || s.get_char(0) != 't' || s.get_char(1) != 'o' || s.get_char(2) != 'p'
        || s.get_char(3) != 'i' || s.get_char(4) != 'c' {
        proof {
            if slot@.len() >= 5 {
                assert(slot@.take(5)[0] == slot@[0]);
                assert(slot@.take(5)[1] == slot@[1]);
                assert(slot@.take(5)[2] == slot@[2]);
                assert(slot@.take(5)[3] == slot@[3]);
                assert(slot@.take(5)[4] == slot@[4]);
            }
        }
        return Ok(slot.clone());
    }
    assert(slot@.take(5) =~= topic_prefix());
    let ghost digits = slot@.skip(5);
    let len = topics.len();
    let mut acc: u128 = 0;
    let mut over = len == 0;
    let mut i: usize = 5;
    assert(slot@.subrange(5, 5) =~= Seq::<char>::empty());
    while i < n
        invariant
            5 <= i <= n,
            n == slot@.len(),
            s@ == slot@,
            slot@.take(5) == topic_prefix(),
            len == topics@.len(),
            digits == slot@.skip(5),
            forall|k: int| 5 <= k < i ==> is_digit(#[trigger] slot@[k]),
            over ==> decimal_value(slot@.subrange(5, i as int)) >= len,
            !over ==> acc == decimal_value(slot@.subrange(5, i as int)) && acc < len,
        decreases n - i,
    {
        let c = s.get_char(i);
        if c < '0' || c > '9' {
            assert(digits[i - 5] == c);
            assert(0 <= i - 5 < digits.len() && !is_digit(digits[i - 5]));
            assert(slot_value(slot@, topics@, ty@) == Err::<Seq<char>, RelayerError>(RelayerError::InvalidTopicMapping));
            return Err(RelayerError::InvalidTopicMapping);
        }
        let d = (c as u32 - '0' as u32) as u128;
        proof {
            let p = slot@.subrange(5, i as int + 1);
            assert(p.drop_last() =~= slot@.subrange(5, i as int));
            assert(p.last() == c);
        }
        if !over {
            acc = acc * 10 + d;
            if acc >= len as u128 {
                over = true;
            }
        }
        i = i + 1;
    }
    assert(slot@.subrange(5, n as int) =~= digits);
    if n == 5 {
        return Err(RelayerError::InvalidTopicMapping);
    }
    if over {
        return Err(RelayerError::TopicOutOfIndex);
    }
    let k = acc as usize;
    let addr = "address".to_owned();
    proof {
        reveal_strlit("address");
    }
    assert(addr@ =~= address_type());
    assert(digits =~= slot@.subrange(5, n as int));
    if *ty == addr {
        let mut low: Vec<u8> = Vec::new();
        let mut j: usize = 12;
        while j < 32
            invariant
                12 <= j <= 32,
                k < topics@.len(),
                low@ == topics@[k as int]@.subrange(12, j as int),
            decreases 32 - j,
        {
            low.push(topics[k][j]);
            j = j + 1;
            assert(low@ =~= topics@[k as int]@.subrange(12, j as int));
        }
        let r = prefixed_hex(low.as_slice());
        assert(r@ == topic_text(topics@[k as int]@, ty@));
        Ok(r)
    } else {
        Ok(prefixed_hex(&topics[k]))
    }
}

/// Resolves every slot in order; the first slot that fails decides the error.
pub fn resolve_args(params: &Vec<(usize, String)>, topics: &Vec<[u8; 32]>, types: &Vec<String>) -> (r: Result<Vec<String>, RelayerError>)
    ensures
        match r {
            Ok(v) => resolved_args(params@, topics@, types_view(types@)) == Ok::<Seq<Seq<char>>, RelayerError>(v@.map_values(|s: String| s@)),
            Err(e) => resolved_args(params@, topics@, types_view(types@)) == Err::<Seq<Seq<char>>, RelayerError>(e),
        },
{
    let mut out: Vec<String> = Vec::new();
    let mut i: usize = 0;
    assert(params@.subrange(0, 0) =~= Seq::<(usize, String)>::empty());
    assert(out@.map_values(|s: String| s@) =~= Seq::<Seq<char>>::empty());
    while i < params.len()
        invariant
            i <= params@.len(),
            resolved_args(params@.subrange(0, i as int), topics@, types_view(types@)) == Ok::<Seq<Seq<char>>, RelayerError>(out@.map_values(|s: String| s@)),
        decreases params@.len() - i,
    {
        let ghost p = params@.subrange(0, i as int + 1);
        assert(p.drop_last() =~= params@.subrange(0, i as int));
        let none = String::new();
        let ty = if i < types.len() { &types[i] } else { &none };
        assert(ty@ == type_at(types_view(types@), i as int));
        match resolve_slot(&params[i].1, topics, ty) {
            Ok(v) => {
                let ghost before = out@;
                out.push(v);
                assert(out@.map_values(|s: String| s@) =~= before.map_values(|s: String| s@).push(v@));
            },
            Err(e) => {
                assert(params@.subrange(0, i as int + 1) =~= p);
                proof { lemma_resolve_error_sticks(params@, topics@, types_view(types@), i as int + 1, e); }
                return Err(e);
            },
        }
        i = i + 1;
    }
    assert(params@.subrange(0, params@.len() as int) =~= params@);
    Ok(out)
}

/// Once a prefix of the slots fails, every longer prefix fails the same way.
proof fn lemma_resolve_error_sticks(params: Seq<(usize, String)>, topics: Seq<[u8; 32]>, types: Seq<Seq<char>>, j: int, e: RelayerError)
    requires
        0 <= j <= params.len(),
        resolved_args(params.subrange(0, j), topics, types) == Err::<Seq<Seq<char>>, RelayerError>(e),
    ensures
        resolved_args(params, topics, types) == Err::<Seq<Seq<char>>, RelayerError>(e),
    decreases params.len() - j,
{
    if j < params.len() {
        let p = params.subrange(0, j + 1);
        assert(p.drop_last() =~= params.subrange(0, j));
        lemma_resolve_error_sticks(params, topics, types, j + 1, e);
    } else {
        assert(params.subrange(0, j) =~= params);
    }
}

impl RawTransaction {
    pub fn new(
        chain_id: usize,
        contract_address: String,
        abi: String,
        function_name: String,
        params: Vec<(usize, String)>,
    ) -> (r: Self)
        ensures
            r.chain_id == chain_id,
            r.contract_address == contract_address,
            r.abi == abi,
            r.function_name == function_name,
            r.params == params,
    {
        RawTransaction { chain_id, contract_address, abi, function_name, params }
    }

    /// Checks that there is one resolved argument for each declared input
    /// and that each coerces to the input's type.
    pub fn convert_strings_to_sol_values(&self, params: &Vec<String>, abi_inputs: &Vec<String>) -> (r: Result<(), RelayerError>)
        ensures
            match r {
                Ok(()) => params@.len() == abi_inputs@.len()
                    && forall|i: int| 0 <= i < params@.len() ==> coerces(abi_inputs@[i]@, #[trigger] params@[i]@),
                Err(e) => if params@.len() != abi_inputs@.len() {
                    e == RelayerError::InvalidArgsCount
                } else {
                    e == RelayerError::InvalidDataType
                        && exists|i: int| 0 <= i < params@.len() && !coerces(abi_inputs@[i]@, #[trigger] params@[i]@)
                },
            },
    {
        if params.len() != abi_inputs.len() {
            return Err(RelayerError::InvalidArgsCount);
        }
        let mut i: usize = 0;
        while i < params.len()
            invariant
                i <= params@.len(),
                params@.len() == abi_inputs@.len(),
                forall|j: int| 0 <= j < i ==> coerces(abi_inputs@[j]@, #[trigger] params@[j]@),
            decreases params@.len() - i,
        {
            if !coerces_to(abi_inputs[i].as_str(), params[i].as_str()) {
                assert(!coerces(abi_inputs@[i as int]@, params@[i as int]@));
                return Err(RelayerError::InvalidDataType);
            }
            i = i + 1;
        }
        Ok(())
    }

    /// Renders the template against a triggering log: the call goes to the
    /// template's contract on the template's chain, with the calldata that
    /// the ABI function encodes from the resolved arguments. The template
    /// renders exactly when every check passes.
    pub fn build_transaction(&self, log: &EventLog) -> (r: Result<TxRequest, RelayerError>)
        ensures
            match build_plan(*self, log.topics@) {
                Err(e) => r == Err::<TxRequest, RelayerError>(e),
                Ok(plan) => r matches Ok(tx) && tx.to@ == plan.0 && tx.from.is_none()
                    && tx.chain_id == Some(self.chain_id as u64)
                    && tx.input@ == call_data((self.function_name@, plan.1), plan.2),
            },
    {
        let fs = match parse_abi(self.abi.as_str()) {
            Some(fs) => fs,
            None => return Err(RelayerError::InvalidABI),
        };
        let idx = match find_function(&fs, &self.function_name) {
            Some(i) => i,
            None => return Err(RelayerError::FunctionNotFound),
        };
        let f = &fs[idx];
        let args = match resolve_args(&self.params, &log.topics, &f.input_types) {
            Ok(a) => a,
            Err(e) => return Err(e),
        };
        assert(f.input_types@.map_values(|t: String| t@).len() == f.input_types@.len());
        match self.convert_strings_to_sol_values(&args, &f.input_types) {
            Ok(()) => {},
            Err(e) => {
                proof {
                    let inputs = f.input_types@.map_values(|t: String| t@);
                    let rargs = args@.map_values(|s: String| s@);
                    if args@.len() == f.input_types@.len() {
                        let i = choose|i: int| 0 <= i < args@.len() && !coerces(f.input_types@[i]@, #[trigger] args@[i]@);
                        assert(!coerces(inputs[i], rargs[i]));
                    }
                }
                return Err(e);
            },
        };
        proof {
            let inputs = f.input_types@.map_values(|t: String| t@);
            let rargs = args@.map_values(|s: String| s@);
            assert forall|i: int| 0 <= i < rargs.len() implies coerces(inputs[i], #[trigger] rargs[i]) by {
                assert(coerces(f.input_types@[i]@, args@[i]@));
            }
        }
        let to = match parse_address(self.contract_address.as_str()) {
            Some(a) => a,
            None => return Err(RelayerError::InvalidAddress),
        };
        let input = match encode_call(f, &args) {
            Some(d) => d,
            None => return Err(RelayerError::InvalidDataType),
        };
        Ok(TxRequest { to, from: None, chain_id: Some(self.chain_id as u64), input })
    }
}

} // verus!
