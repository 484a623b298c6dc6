//! The part of a contract's ABI that deployment reads, and the calls that turn
//! constructor arguments from text into values and from values into bytes.

use crate::exponent::{check_overflows_as, overflows_as};
use alloy_dyn_abi::{DynSolType, DynSolValue, JsonAbiExt, Specifier};
use alloy_json_abi::Param;
use vstd::prelude::*;

verus! {

/// `alloy_json_abi::Param`: one declared input of a constructor.
#[verifier::external_type_specification]
#[verifier::external_body]
pub struct ExParam(Param);

/// `alloy_dyn_abi::DynSolType`: a resolved Solidity type.
#[verifier::external_type_specification]
#[verifier::external_body]
pub struct ExDynSolType(DynSolType);

/// `alloy_dyn_abi::DynSolValue`: a value of some Solidity type.
#[verifier::external_type_specification]
#[verifier::external_body]
pub struct ExDynSolValue(DynSolValue);

/// `alloy_dyn_abi::Error`: why a type, a text or a value was refused.
#[verifier::external_type_specification]
#[verifier::external_body]
pub struct ExAbiError(alloy_dyn_abi::Error);

/// What `Param::resolve` makes of a declared input, on a machine with words of so many bits.
pub uninterp spec fn resolved_type(param: Param, word_bits: u32) -> Result<
    DynSolType,
    alloy_dyn_abi::Error,
>;

/// How a declared input is displayed.
pub uninterp spec fn param_text(param: Param) -> Seq<char>;

/// What `DynSolType::coerce_str` makes of a text, on a machine with words of so many bits.
pub uninterp spec fn coerced_value(ty: DynSolType, text: Seq<char>, word_bits: u32) -> Result<
    DynSolValue,
    alloy_dyn_abi::Error,
>;

/// What `abi_encode_input` makes of values under declared constructor inputs, on a machine with
/// words of so many bits.
pub uninterp spec fn encoded_input(
    inputs: Seq<Param>,
    values: Seq<DynSolValue>,
    word_bits: u32,
) -> Result<Seq<u8>, alloy_dyn_abi::Error>;

/// What `abi_decode_input` reads from bytes under declared constructor inputs, without validation,
/// on a machine with words of so many bits. Nothing in this library decodes: the name stands only
/// in what is said of the bytes that values are encoded to.
pub uninterp spec fn decoded_input(inputs: Seq<Param>, data: Seq<u8>, word_bits: u32) -> Result<
    Seq<DynSolValue>,
    alloy_dyn_abi::Error,
>;

/// What `DynSolType::sol_type_name` says of a type: its name, which spells out what it is made of.
pub uninterp spec fn name_of_type(ty: DynSolType) -> Seq<char>;

/// How an ABI error is displayed.
pub uninterp spec fn abi_error_text(error: alloy_dyn_abi::Error) -> Seq<char>;

/// The type of a declared input, or why it has none.
pub open spec fn type_of(param: Param) -> Result<DynSolType, alloy_dyn_abi::Error> {
    resolved_type(param, usize::BITS)
}

/// The value of a type that a text stands for, or why it stands for none.
pub open spec fn value_of(ty: DynSolType, text: Seq<char>) -> Result<
    DynSolValue,
    alloy_dyn_abi::Error,
> {
    coerced_value(ty, text, usize::BITS)
}

/// The bytes that values under declared constructor inputs are encoded to, or why they are not.
pub open spec fn encoding_of(inputs: Seq<Param>, values: Seq<DynSolValue>) -> Result<
    Seq<u8>,
    alloy_dyn_abi::Error,
> {
    encoded_input(inputs, values, usize::BITS)
}

/// The values that are read from bytes under declared constructor inputs, or why none are.
pub open spec fn decoding_of(inputs: Seq<Param>, data: Seq<u8>) -> Result<
    Seq<DynSolValue>,
    alloy_dyn_abi::Error,
> {
    decoded_input(inputs, data, usize::BITS)
}

/// Whether a declared input is neither an array nor a tuple: the name of its type has no bracket.
pub open spec fn is_simple(param: Param) -> bool {
    &&& type_of(param) is Ok
    &&& !name_of_type(type_of(param)->Ok_0).contains('(')
    &&& !name_of_type(type_of(param)->Ok_0).contains('[')
}

/// Whether no declared input is an array or a tuple.
pub open spec fn all_simple(inputs: Seq<Param>) -> bool {
    forall|i: int| 0 <= i < inputs.len() ==> is_simple(#[trigger] inputs[i])
}

/// Whether a text, read as a value of a type, comes to an integer whose exponent does not fit into
/// a machine word.
pub open spec fn is_oversized(ty: DynSolType, text: Seq<char>) -> bool {
    overflows_as(name_of_type(ty), text)
}

/// Whether a type is that of a declared input.
pub open spec fn is_declared(ty: DynSolType) -> bool {
    exists|param: Param| #[trigger] type_of(param) == resolved_to(ty)
}

/// The resolution to a type.
pub open spec fn resolved_to(ty: DynSolType) -> Result<DynSolType, alloy_dyn_abi::Error> {
    Ok(ty)
}

/// Calls `DynSolType::sol_type_name` of `alloy_dyn_abi`: the text depends on the type alone.
#[verifier::external_body]
pub(crate) fn display_type(ty: &DynSolType) -> (r: String)
    ensures
        r@ == name_of_type(*ty),
{
    ty.sol_type_name().into_owned()
}

/// Tests whether a text, read as a value of a type, comes to an integer whose exponent is too
/// large.
pub fn check_oversized(ty: &DynSolType, text: &str) -> (r: bool)
    ensures
        r == is_oversized(*ty, text@),
{
    let name = display_type(ty);
    check_overflows_as(name.as_str(), text)
}

/// Calls `Specifier::resolve` of `alloy_dyn_abi` on a declared input. The result depends on that
/// input and on the size of a machine word, which the lengths of arrays have to fit into.
#[verifier::external_body]
pub(crate) fn resolve(param: &Param) -> (r: Result<DynSolType, alloy_dyn_abi::Error>)
    ensures
        r == resolved_type(*param, usize::BITS),
{
    param.resolve()
}

/// Calls `Display` of `alloy_json_abi::Param`: the text depends on the input alone.
#[verifier::external_body]
pub(crate) fn display_param(param: &Param) -> (r: String)
    ensures
        r@ == param_text(*param),
{
    param.to_string()
}

/// Calls `Display` of `alloy_dyn_abi::Error`: the text depends on the error alone.
#[verifier::external_body]
pub(crate) fn display_abi_error(error: &alloy_dyn_abi::Error) -> (r: String)
    ensures
        r@ == abi_error_text(*error),
{
    error.to_string()
}

/// Calls `DynSolType::coerce_str` of `alloy_dyn_abi`. The result depends on the type, on the text
/// and on the size of a machine word, which the exponent of a number has to fit into. Where the
/// parser comes to an integer it adds the exponent of the unit to the one that is written, without
/// asking whether the sum fits, and it takes it that an integer type has bits. So the type is that
/// of a declared input, and the text does not come to an exponent that its unit takes too far.
#[verifier::external_body]
pub(crate) fn coerce(ty: &DynSolType, text: &str) -> (r: Result<DynSolValue, alloy_dyn_abi::Error>)
    requires
        is_declared(*ty),
        !is_oversized(*ty, text@),
    ensures
        r == coerced_value(*ty, text@, usize::BITS),
{
    ty.coerce_str(text)
}

/// A value that some text was coerced to, under the type that a declared input resolves to.
pub open spec fn comes_from_text(param: Param, value: DynSolValue) -> bool {
    &&& type_of(param) is Ok
    &&& exists|text: Seq<char>| #[trigger]
        value_of(type_of(param)->Ok_0, text) == Ok::<_, alloy_dyn_abi::Error>(value)
}

/// One value for each input, each coerced from text under its input's own type.
pub open spec fn come_from_texts(inputs: Seq<Param>, values: Seq<DynSolValue>) -> bool {
    &&& inputs.len() == values.len()
    &&& forall|i: int|
        0 <= i < inputs.len() ==> comes_from_text(#[trigger] inputs[i], values[i])
}

/// A result that holds bytes, with the bytes as a sequence.
pub open spec fn viewed(r: Result<Vec<u8>, alloy_dyn_abi::Error>) -> Result<
    Seq<u8>,
    alloy_dyn_abi::Error,
> {
    match r {
        Ok(bytes) => Ok(bytes@),
        Err(e) => Err(e),
    }
}

/// The successful reading of values.
pub open spec fn read_as(values: Seq<DynSolValue>) -> Result<
    Seq<DynSolValue>,
    alloy_dyn_abi::Error,
> {
    Ok(values)
}

/// The successful encoding without a byte.
pub open spec fn no_bytes() -> Result<Seq<u8>, alloy_dyn_abi::Error> {
    Ok(Seq::empty())
}

/// Calls `JsonAbiExt::abi_encode_input` of `alloy_dyn_abi` on a constructor with these inputs,
/// which reads nothing else of the constructor. The result depends on the inputs, on the values
/// and on the size of a machine word, which the lengths of arrays have to fit into. Another
/// number of values than of inputs is refused; no values for no inputs give no bytes; values that
/// were coerced from text under the inputs' own types are accepted. Where no input is an array or
/// a tuple, `abi_decode_input` reads the same values back from the bytes.
#[verifier::external_body]
pub(crate) fn encode_input(inputs: &Vec<Param>, values: &Vec<DynSolValue>) -> (r: Result<
    Vec<u8>,
    alloy_dyn_abi::Error,
>)
    ensures
        viewed(r) == encoded_input(inputs@, values@, usize::BITS),
        r is Ok ==> inputs@.len() == values@.len(),
        inputs@.len() == 0 && values@.len() == 0 ==> viewed(r) == no_bytes(),
        come_from_texts(inputs@, values@) ==> r is Ok,
        r matches Ok(bytes) ==> all_simple(inputs@) ==> decoded_input(
            inputs@,
            bytes@,
            usize::BITS,
        ) == read_as(values@),
{
    let constructor = alloy_json_abi::Constructor {
        inputs: inputs.clone(),
        state_mutability: Default::default(),
    };
    constructor.abi_encode_input(values)
}

/// `Clone` of `alloy_json_abi::Param`, which is derived: the copy is equal to what it was made
/// from.
pub assume_specification[ <Param as Clone>::clone ](param: &Param) -> (r: Param)
    ensures
        r == *param,
;

/// `Clone` of `alloy_dyn_abi::DynSolValue`, which is derived: the copy is equal to what it was
/// made from.
pub assume_specification[ <DynSolValue as Clone>::clone ](value: &DynSolValue) -> (r: DynSolValue)
    ensures
        r == *value,
;

/// A contract's constructor: its declared inputs.
#[derive(Debug)]
pub struct Constructor {
    pub inputs: Vec<Param>,
}

/// A contract's ABI, as far as deployment reads it.
#[derive(Debug)]
pub struct JsonAbi {
    pub constructor: Option<Constructor>,
}

impl View for JsonAbi {
    type V = Option<Seq<Param>>;

    /// The constructor's declared inputs, if there is a constructor.
    open spec fn view(&self) -> Option<Seq<Param>> {
        match self.constructor {
            Some(constructor) => Some(constructor.inputs@),
            None => None,
        }
    }
}

impl Clone for Constructor {
    fn clone(&self) -> (r: Self)
        ensures
            r.inputs@ == self.inputs@,
    {
        let inputs = self.inputs.clone();
        assert(inputs@ =~= self.inputs@);
        Constructor { inputs }
    }
}

impl Clone for JsonAbi {
    fn clone(&self) -> (r: Self)
        ensures
            r@ == self@,
    {
        match &self.constructor {
            Some(constructor) => JsonAbi { constructor: Some(constructor.clone()) },
            None => JsonAbi { constructor: None },
        }
    }
}

/// Types, values and encodings are those that are had with machine words of this machine's size,
/// and whether a text is too large for a type goes by the type's name.
pub proof fn types_and_values_are_those_of_this_machine(
    param: Param,
    ty: DynSolType,
    text: Seq<char>,
    inputs: Seq<Param>,
    values: Seq<DynSolValue>,
    data: Seq<u8>,
)
    ensures
        type_of(param) == resolved_type(param, usize::BITS),
        value_of(ty, text) == coerced_value(ty, text, usize::BITS),
        encoding_of(inputs, values) == encoded_input(inputs, values, usize::BITS),
        decoding_of(inputs, data) == decoded_input(inputs, data, usize::BITS),
        is_oversized(ty, text) == overflows_as(name_of_type(ty), text),
{
}

/// Values come from texts exactly if there is one for each input, and each is what some text was
/// coerced to under the type that its input resolves to.
pub proof fn values_come_from_texts_one_by_one(inputs: Seq<Param>, values: Seq<DynSolValue>)
    ensures
        come_from_texts(inputs, values) <==> inputs.len() == values.len() && forall|i: int|
            0 <= i < inputs.len() ==> exists|ty: DynSolType, text: Seq<char>|
                resolved_type(#[trigger] inputs[i], usize::BITS) == Ok::<
                    DynSolType,
                    alloy_dyn_abi::Error,
                >(ty) && #[trigger] coerced_value(ty, text, usize::BITS) == Ok::<
                    DynSolValue,
                    alloy_dyn_abi::Error,
                >(values[i]),
{
    assert forall|i: int| 0 <= i < inputs.len() implies comes_from_text(
        #[trigger] inputs[i],
        values[i],
    ) == exists|ty: DynSolType, text: Seq<char>|
        resolved_type(inputs[i], usize::BITS) == Ok::<DynSolType, alloy_dyn_abi::Error>(ty)
            && #[trigger] coerced_value(ty, text, usize::BITS) == Ok::<
            DynSolValue,
            alloy_dyn_abi::Error,
        >(values[i]) by {
        if comes_from_text(inputs[i], values[i]) {
            let ty = type_of(inputs[i])->Ok_0;
            let text = choose|text: Seq<char>| #[trigger]
                value_of(ty, text) == Ok::<DynSolValue, alloy_dyn_abi::Error>(values[i]);
            assert(coerced_value(ty, text, usize::BITS) == Ok::<DynSolValue, alloy_dyn_abi::Error>(
                values[i],
            ));
        }
        if exists|ty: DynSolType, text: Seq<char>|
            resolved_type(inputs[i], usize::BITS) == Ok::<DynSolType, alloy_dyn_abi::Error>(ty)
                && #[trigger] coerced_value(ty, text, usize::BITS) == Ok::<
                DynSolValue,
                alloy_dyn_abi::Error,
            >(values[i]) {
            let (ty, text) = choose|ty: DynSolType, text: Seq<char>|
                resolved_type(inputs[i], usize::BITS) == Ok::<DynSolType, alloy_dyn_abi::Error>(ty)
                    && #[trigger] coerced_value(ty, text, usize::BITS) == Ok::<
                    DynSolValue,
                    alloy_dyn_abi::Error,
                >(values[i]);
            assert(value_of(type_of(inputs[i])->Ok_0, text) == Ok::<
                DynSolValue,
                alloy_dyn_abi::Error,
            >(values[i]));
        }
    }
    if come_from_texts(inputs, values) {
        assert forall|i: int| 0 <= i < inputs.len() implies comes_from_text(
            #[trigger] inputs[i],
            values[i],
        ) by {}
    }
}

/// A contract's ABI says which inputs its constructor declares, if it has one.
pub proof fn an_abi_says_what_its_constructor_declares(abi: JsonAbi)
    ensures
        match abi.constructor {
            Some(constructor) => abi@ == Some(constructor.inputs@),
            None => abi@ is None,
        },
{
}

/// A result is seen as it is: bytes as they stand, an error as the error.
pub proof fn results_are_seen_as_they_are(
    bytes: Vec<u8>,
    error: alloy_dyn_abi::Error,
    values: Seq<DynSolValue>,
    ty: DynSolType,
)
    ensures
        viewed(Ok(bytes)) == Ok::<_, alloy_dyn_abi::Error>(bytes@),
        viewed(Err(error)) == Err::<Seq<u8>, _>(error),
        read_as(values) == Ok::<_, alloy_dyn_abi::Error>(values),
        resolved_to(ty) == Ok::<_, alloy_dyn_abi::Error>(ty),
        no_bytes() is Ok && no_bytes()->Ok_0.len() == 0,
{
}

/// An input is simple exactly if its type is known and the type's name has no opening bracket.
pub proof fn simple_inputs_have_no_brackets(inputs: Seq<Param>)
    ensures
        all_simple(inputs) <==> forall|i: int|
            0 <= i < inputs.len() ==> resolved_type(#[trigger] inputs[i], usize::BITS) is Ok && !(
            name_of_type(resolved_type(inputs[i], usize::BITS)->Ok_0).contains('(')) && !(
            name_of_type(resolved_type(inputs[i], usize::BITS)->Ok_0).contains('[')),
{
    if all_simple(inputs) {
        assert forall|i: int| 0 <= i < inputs.len() implies resolved_type(
            #[trigger] inputs[i],
            usize::BITS,
        ) is Ok && !(name_of_type(resolved_type(inputs[i], usize::BITS)->Ok_0).contains('(')) && !(
        name_of_type(resolved_type(inputs[i], usize::BITS)->Ok_0).contains('[')) by {
            assert(is_simple(inputs[i]));
        }
    } else {
        let i = choose|i: int| 0 <= i < inputs.len() && !is_simple(#[trigger] inputs[i]);
        assert(inputs[i] == inputs[i]);
    }
}

} // verus!
