//! The arguments of the command, and what is decided from them alone.

use crate::abi::{
    abi_error_text, check_oversized, coerce, coerced_value, come_from_texts, comes_from_text,
    display_abi_error, display_param, is_declared, is_oversized, name_of_type, param_text, resolve,
    resolved_to, resolved_type, type_of, value_of, Constructor, JsonAbi,
};
use crate::exponent::{
    number, only_integers_overflow, only_large_exponents_overflow, overflows_as,
};
use crate::primitives::{Address, U256};
use crate::results::all_or_first;
use crate::text::{decimal, texts, write_decimal};
use crate::tx::{copy_bytes, paymaster_view, PaymasterModel, PaymasterParams};
use alloy_dyn_abi::{DynSolType, DynSolValue};
use alloy_json_abi::Param;
use std::path::PathBuf;
use vstd::prelude::*;
use vstd::string::*;

verus! {

/// `std::path::PathBuf`: where a file is.
#[verifier::external_type_specification]
#[verifier::external_body]
pub struct ExPathBuf(PathBuf);

/// A contract's name and, where it was given, its source file.
#[derive(Debug)]
pub struct ContractInfo {
    pub path: Option<String>,
    pub name: String,
}

/// How often, and how many seconds apart, a verification request is tried again.
#[derive(Debug, Clone, Copy)]
pub struct RetryArgs {
    pub retries: u32,
    pub delay: u32,
}

/// Which service verifies contracts, and how it is reached.
#[derive(Debug)]
pub struct VerifierArgs {
    pub verifier: String,
    pub verifier_api_key: Option<String>,
    pub verifier_url: Option<String>,
}

/// The block explorer's API key, and the chain.
#[derive(Debug, Clone)]
pub struct EtherscanOpts {
    pub key: Option<String>,
    pub chain: Option<u64>,
}

/// How the node and the block explorer are reached, and who sends.
#[derive(Debug, Clone)]
pub struct EthereumOpts {
    pub etherscan: EtherscanOpts,
    /// The API key that verification requests are made with.
    pub etherscan_key: Option<String>,
    /// The account that is given as the sender.
    pub from: Option<Address>,
}

/// What is given of the transaction.
#[derive(Debug, Clone, Copy)]
pub struct TransactionOpts {
    pub gas_limit: Option<U256>,
    /// The gas price of a legacy transaction, or the maximum fee of another one.
    pub gas_price: Option<U256>,
    pub priority_gas_price: Option<U256>,
    pub value: Option<U256>,
    pub nonce: Option<U256>,
    pub legacy: bool,
}

/// What is given of the ZKsync compiler and of the paymaster.
#[derive(Debug, Clone)]
pub struct ZkSyncArgs {
    /// Whether the contract is compiled for, and deployed on, ZKsync.
    pub enabled: bool,
    pub paymaster_address: Option<Address>,
    pub paymaster_input: Option<Vec<u8>>,
}

/// What is given of the compiler.
#[derive(Debug, Clone)]
pub struct CompilerArgs {
    pub evm_version: Option<String>,
    pub optimize: Option<bool>,
    pub optimizer_runs: Option<usize>,
    pub zk: ZkSyncArgs,
}

/// What is given of the build.
#[derive(Debug, Clone)]
pub struct CoreBuildArgs {
    pub libraries: Vec<String>,
    pub via_ir: bool,
    pub compiler: CompilerArgs,
}

/// The compiler version and the settings profile that a contract was compiled with.
#[derive(Debug, Clone)]
pub struct ArtifactId {
    pub version: String,
    pub profile: String,
}

/// The arguments of the command.
#[derive(Debug, Clone)]
pub struct CreateArgs {
    /// The contract.
    pub contract: ContractInfo,
    /// The constructor arguments.
    pub constructor_args: Vec<String>,
    /// The path to a file containing the constructor arguments.
    pub constructor_args_path: Option<PathBuf>,
    /// Broadcast the transaction.
    pub broadcast: bool,
    /// Verify the contract after creation.
    pub verify: bool,
    /// Have the node sign with the given sender's account.
    pub unlocked: bool,
    /// Print the standard JSON compiler input when verifying.
    pub show_standard_json_input: bool,
    /// Timeout to use for broadcasting transactions, in seconds.
    pub timeout: Option<u64>,
    pub opts: CoreBuildArgs,
    pub tx: TransactionOpts,
    pub eth: EthereumOpts,
    pub verifier: VerifierArgs,
    pub retry: RetryArgs,
    /// Gas per pubdata.
    pub zk_gas_per_pubdata: Option<u64>,
}

impl Clone for ContractInfo {
    fn clone(&self) -> (r: Self)
        ensures
            r == *self,
    {
        ContractInfo { path: copy_text(&self.path), name: self.name.clone() }
    }
}

impl Clone for VerifierArgs {
    fn clone(&self) -> (r: Self)
        ensures
            r == *self,
    {
        VerifierArgs {
            verifier: self.verifier.clone(),
            verifier_api_key: copy_text(&self.verifier_api_key),
            verifier_url: copy_text(&self.verifier_url),
        }
    }
}

/// Copies a text that may be missing.
pub(crate) fn copy_text(text: &Option<String>) -> (r: Option<String>)
    ensures
        r == *text,
{
    match text {
        Some(text) => Some(text.clone()),
        None => None,
    }
}

/// Copies texts.
pub(crate) fn copy_texts(list: &Vec<String>) -> (r: Vec<String>)
    ensures
        r@ == list@,
{
    let copy = list.clone();
    assert(copy@ =~= list@);
    copy
}

/// Why constructor arguments could not be parsed.
#[derive(Debug)]
pub enum ConstructorArgsError {
    /// The type of a declared input is not known.
    Unresolved { input: String, error: alloy_dyn_abi::Error },
    /// This argument writes an exponent that is too large for a machine word.
    Oversized(String),
    /// An argument is no value of its input's type.
    Coercion(alloy_dyn_abi::Error),
}

impl ConstructorArgsError {
    /// What went wrong, in words, and behind it the cause.
    pub open spec fn chain(self) -> Seq<Seq<char>> {
        match self {
            Self::Unresolved { input, error } => seq![
                "Could not resolve constructor arg: input="@ + input@,
                abi_error_text(error),
            ],
            Self::Oversized(argument) => seq![
                "Exponent of constructor arg is too large: "@ + argument@,
            ],
            Self::Coercion(error) => seq![abi_error_text(error)],
        }
    }

    /// What went wrong, in words, and behind it the cause.
    pub fn messages(&self) -> (r: Vec<String>)
        ensures
            texts(r@) == self.chain(),
    {
        let mut out: Vec<String> = Vec::new();
        match self {
            Self::Unresolved { input, error } => {
                let mut message = "Could not resolve constructor arg: input=".to_string();
                message.append(input.as_str());
                out.push(message);
                out.push(display_abi_error(error));
            },
            Self::Oversized(argument) => {
                let mut message = "Exponent of constructor arg is too large: ".to_string();
                message.append(argument.as_str());
                out.push(message);
            },
            Self::Coercion(error) => {
                out.push(display_abi_error(error));
            },
        }
        assert(texts(out@) =~= self.chain());
        out
    }
}

/// A constructor that declares another number of inputs than arguments were given for.
#[derive(Debug, Clone, Copy, PartialEq, Eq)]
pub struct ArgumentMismatch {
    /// How many arguments meet a declared input.
    pub given: usize,
    /// How many inputs are declared.
    pub expected: usize,
}

impl ArgumentMismatch {
    /// What is said of the mismatch.
    pub fn message(&self) -> (r: String)
        ensures
            r@ == "Constructor argument mismatch: expected "@ + decimal(self.expected as nat)
                + " arguments, but received "@ + decimal(self.given as nat)
                + ". Ensure that the number of arguments provided matches the constructor definition."@,
    {
        let mut out = "Constructor argument mismatch: expected ".to_string();
        let expected = write_decimal(self.expected);
        out.append(expected.as_str());
        out.append(" arguments, but received ");
        let given = write_decimal(self.given);
        out.append(given.as_str());
        out.append(
            ". Ensure that the number of arguments provided matches the constructor definition.",
        );
        out
    }
}

/// How many arguments meet a declared input.
pub open spec fn paired(inputs: Seq<Param>, args: Seq<String>) -> int {
    if inputs.len() < args.len() {
        inputs.len() as int
    } else {
        args.len() as int
    }
}

/// Whether the first `count` inputs have known types.
pub open spec fn all_resolve(inputs: Seq<Param>, count: int) -> bool {
    forall|i: int| 0 <= i < count ==> type_of(#[trigger] inputs[i]) is Ok
}

/// What becomes of an argument under a type. One that writes too large an exponent is not asked
/// for its value.
pub open spec fn is_reading(
    ty: DynSolType,
    argument: String,
    r: Result<DynSolValue, ConstructorArgsError>,
) -> bool {
    match r {
        Ok(value) => {
            &&& !is_oversized(ty, argument@)
            &&& value_of(ty, argument@) == Ok::<_, alloy_dyn_abi::Error>(value)
        },
        Err(ConstructorArgsError::Oversized(text)) => {
            &&& is_oversized(ty, argument@)
            &&& text == argument
        },
        Err(ConstructorArgsError::Coercion(error)) => {
            &&& !is_oversized(ty, argument@)
            &&& value_of(ty, argument@) == Err::<DynSolValue, _>(error)
        },
        Err(ConstructorArgsError::Unresolved { .. }) => false,
    }
}

/// What becomes of the argument at a position, under the type of the input there.
pub open spec fn is_reading_at(
    inputs: Seq<Param>,
    args: Seq<String>,
    i: int,
    r: Result<DynSolValue, ConstructorArgsError>,
) -> bool {
    is_reading(type_of(inputs[i])->Ok_0, args[i], r)
}

/// Whether the argument at a position is a value of the type of the input there.
pub open spec fn parses(inputs: Seq<Param>, args: Seq<String>, i: int) -> bool {
    &&& !is_oversized(type_of(inputs[i])->Ok_0, args[i]@)
    &&& value_of(type_of(inputs[i])->Ok_0, args[i]@) is Ok
}

/// Whether the first `count` arguments are values of their inputs' types.
pub open spec fn all_parse(inputs: Seq<Param>, args: Seq<String>, count: int) -> bool {
    forall|i: int| 0 <= i < count ==> #[trigger] parses(inputs, args, i)
}

/// Whether an input is the first without a known type.
pub open spec fn is_first_unresolved(inputs: Seq<Param>, i: int) -> bool {
    type_of(inputs[i]) is Err && all_resolve(inputs, i)
}

/// Whether an argument is the first that is no value of its input's type.
pub open spec fn is_first_unparsed(inputs: Seq<Param>, args: Seq<String>, i: int) -> bool {
    !parses(inputs, args, i) && all_parse(inputs, args, i)
}

/// What parsing constructor arguments gives. The inputs' types come first: an input without a
/// known type is reported though an argument before it may be no value of its type.
pub open spec fn is_parse_of(
    inputs: Seq<Param>,
    args: Seq<String>,
    r: Result<Vec<DynSolValue>, ConstructorArgsError>,
) -> bool {
    let count = paired(inputs, args);
    match r {
        Ok(values) => {
            &&& all_resolve(inputs, count)
            &&& values@.len() == count
            &&& forall|i: int|
                0 <= i < count ==> is_reading_at(inputs, args, i, Ok(#[trigger] values@[i]))
        },
        Err(ConstructorArgsError::Unresolved { input, error }) => exists|i: int|
            {
                &&& 0 <= i < count
                &&& #[trigger] is_first_unresolved(inputs, i)
                &&& type_of(inputs[i]) == Err::<DynSolType, _>(error)
                &&& input@ == param_text(inputs[i])
            },
        Err(error) => {
            &&& all_resolve(inputs, count)
            &&& exists|i: int|
                {
                    &&& 0 <= i < count
                    &&& #[trigger] is_first_unparsed(inputs, args, i)
                    &&& is_reading_at(inputs, args, i, Err(error))
                }
        },
    }
}

/// Constructor arguments parse in one way only, whatever else the command was given: to the same
/// values, or to the same error.
pub proof fn parse_is_unique(
    inputs: Seq<Param>,
    args: Seq<String>,
    a: Result<Vec<DynSolValue>, ConstructorArgsError>,
    b: Result<Vec<DynSolValue>, ConstructorArgsError>,
)
    requires
        is_parse_of(inputs, args, a),
        is_parse_of(inputs, args, b),
    ensures
        match a {
            Ok(values) => b matches Ok(others) && values@ == others@,
            Err(ConstructorArgsError::Unresolved { input, error }) => b matches Err(
                ConstructorArgsError::Unresolved { input: other, error: e },
            ) && input@ == other@ && error == e,
            Err(error) => b matches Err(e) && error == e,
        },
{
    parse_succeeds_where_all_parse(inputs, args, a);
    parse_succeeds_where_all_parse(inputs, args, b);
    let count = paired(inputs, args);
    match (a, b) {
        (Ok(values), Ok(others)) => {
            assert forall|i: int| 0 <= i < count implies values@[i] == others@[i] by {
                assert(is_reading_at(inputs, args, i, Ok(values@[i])));
                assert(is_reading_at(inputs, args, i, Ok(others@[i])));
            }
            assert(values@ =~= others@);
        },
        (Err(e), Err(f)) => {
            if e is Unresolved {
                let i = choose|i: int|
                    0 <= i < count && #[trigger] is_first_unresolved(inputs, i) && type_of(
                        inputs[i],
                    ) == Err::<DynSolType, _>(e->error) && e->input@ == param_text(inputs[i]);
                first_unresolved_is_reported(inputs, args, b, i);
            } else if f is Unresolved {
                let i = choose|i: int| 0 <= i < count && #[trigger] is_first_unresolved(inputs, i);
                first_unresolved_is_reported(inputs, args, a, i);
            } else {
                let i = choose|i: int|
                    0 <= i < count && #[trigger] is_first_unparsed(inputs, args, i)
                        && is_reading_at(inputs, args, i, Err(e));
                first_unparsed_is_reported(inputs, args, b, i);
            }
        },
        _ => {},
    }
}

/// Constructor arguments parse exactly if every input that meets an argument has a known type and
/// every argument that meets an input is a value of that type.
pub proof fn parse_succeeds_where_all_parse(
    inputs: Seq<Param>,
    args: Seq<String>,
    r: Result<Vec<DynSolValue>, ConstructorArgsError>,
)
    requires
        is_parse_of(inputs, args, r),
    ensures
        r is Ok <==> all_resolve(inputs, paired(inputs, args)) && all_parse(
            inputs,
            args,
            paired(inputs, args),
        ),
{
    let count = paired(inputs, args);
    match r {
        Ok(values) => {
            assert forall|i: int| 0 <= i < count implies #[trigger] parses(inputs, args, i) by {
                assert(is_reading_at(inputs, args, i, Ok(values@[i])));
            }
        },
        Err(ConstructorArgsError::Unresolved { input, error }) => {
            let i = choose|i: int| 0 <= i < count && #[trigger] is_first_unresolved(inputs, i);
            assert(type_of(inputs[i]) is Err);
        },
        Err(error) => {
            let i = choose|i: int| 0 <= i < count && #[trigger] is_first_unparsed(inputs, args, i);
            assert(!parses(inputs, args, i));
        },
    }
}

/// The first input that meets an argument and has no known type is reported, whatever the
/// arguments are.
pub proof fn first_unresolved_is_reported(
    inputs: Seq<Param>,
    args: Seq<String>,
    r: Result<Vec<DynSolValue>, ConstructorArgsError>,
    at: int,
)
    requires
        is_parse_of(inputs, args, r),
        0 <= at < paired(inputs, args),
        is_first_unresolved(inputs, at),
    ensures
        r matches Err(ConstructorArgsError::Unresolved { input, error }) && input@ == param_text(
            inputs[at],
        ) && type_of(inputs[at]) == Err::<DynSolType, _>(error),
{
    assert(type_of(inputs[at]) is Err);
    if let Err(ConstructorArgsError::Unresolved { input, error }) = r {
        let i = choose|i: int|
            0 <= i < paired(inputs, args) && #[trigger] is_first_unresolved(inputs, i) && type_of(
                inputs[i],
            ) == Err::<DynSolType, _>(error) && input@ == param_text(inputs[i]);
        if i < at {
            assert(type_of(inputs[i]) is Ok);
        }
        if at < i {
            assert(type_of(inputs[at]) is Ok);
        }
    }
}

/// Where every input that meets an argument has a known type, what is wrong with the first
/// argument that is no value of it is reported, whatever the later arguments are.
pub proof fn first_unparsed_is_reported(
    inputs: Seq<Param>,
    args: Seq<String>,
    r: Result<Vec<DynSolValue>, ConstructorArgsError>,
    at: int,
)
    requires
        is_parse_of(inputs, args, r),
        all_resolve(inputs, paired(inputs, args)),
        0 <= at < paired(inputs, args),
        is_first_unparsed(inputs, args, at),
    ensures
        r matches Err(error) && is_reading_at(inputs, args, at, Err(error)),
{
    parse_succeeds_where_all_parse(inputs, args, r);
    assert(!parses(inputs, args, at));
    if let Err(error) = r {
        if error is Unresolved {
            let i = choose|i: int|
                0 <= i < paired(inputs, args) && #[trigger] is_first_unresolved(inputs, i);
            assert(type_of(inputs[i]) is Err);
        } else {
            let i = choose|i: int|
                0 <= i < paired(inputs, args) && #[trigger] is_first_unparsed(inputs, args, i)
                    && is_reading_at(inputs, args, i, Err(error));
            if i < at {
                assert(parses(inputs, args, i));
            }
            if at < i {
                assert(parses(inputs, args, at));
            }
        }
    }
}

/// Arguments and inputs without a counterpart have no part in the parse: without them it is the
/// same.
pub proof fn surplus_is_ignored(
    inputs: Seq<Param>,
    args: Seq<String>,
    r: Result<Vec<DynSolValue>, ConstructorArgsError>,
)
    requires
        is_parse_of(inputs, args, r),
    ensures
        is_parse_of(
            inputs.take(paired(inputs, args)),
            args.take(paired(inputs, args)),
            r,
        ),
{
    let count = paired(inputs, args);
    let met = inputs.take(count);
    let given = args.take(count);
    assert(paired(met, given) == count);
    assert forall|i: int| 0 <= i < count implies met[i] == inputs[i] && given[i] == args[i] by {}
    assert forall|i: int| 0 <= i < count implies (#[trigger] parses(met, given, i)) == parses(
        inputs,
        args,
        i,
    ) by {}
    match r {
        Ok(values) => {
            assert forall|i: int| 0 <= i < count implies type_of(#[trigger] met[i]) is Ok by {
                assert(type_of(inputs[i]) is Ok);
            }
            assert forall|i: int| 0 <= i < count implies is_reading_at(
                met,
                given,
                i,
                Ok(#[trigger] values@[i]),
            ) by {
                assert(is_reading_at(inputs, args, i, Ok(values@[i])));
            }
        },
        Err(ConstructorArgsError::Unresolved { input, error }) => {
            let at = choose|i: int|
                0 <= i < count && #[trigger] is_first_unresolved(inputs, i) && type_of(inputs[i])
                    == Err::<DynSolType, _>(error) && input@ == param_text(inputs[i]);
            assert forall|i: int| 0 <= i < at implies type_of(#[trigger] met[i]) is Ok by {
                assert(type_of(inputs[i]) is Ok);
            }
            assert(is_first_unresolved(met, at));
        },
        Err(error) => {
            let at = choose|i: int|
                0 <= i < count && #[trigger] is_first_unparsed(inputs, args, i) && is_reading_at(
                    inputs,
                    args,
                    i,
                    Err(error),
                );
            assert forall|i: int| 0 <= i < count implies type_of(#[trigger] met[i]) is Ok by {
                assert(type_of(inputs[i]) is Ok);
            }
            assert forall|i: int| 0 <= i < at implies #[trigger] parses(met, given, i) by {
                assert(parses(inputs, args, i));
            }
            assert(is_first_unparsed(met, given, at));
            assert(is_reading_at(met, given, at, Err(error)));
        },
    }
}

/// Reads one argument as a value of a type, unless it writes too large an exponent.
fn read_argument(ty: &DynSolType, argument: &String) -> (r: Result<
    DynSolValue,
    ConstructorArgsError,
>)
    requires
        is_declared(*ty),
    ensures
        is_reading(*ty, *argument, r),
{
    if check_oversized(ty, argument.as_str()) {
        return Err(ConstructorArgsError::Oversized(argument.clone()));
    }
    match coerce(ty, argument.as_str()) {
        Ok(value) => Ok(value),
        Err(error) => Err(ConstructorArgsError::Coercion(error)),
    }
}

/// Where the constructor arguments are taken from.
#[derive(Debug)]
pub enum ArgsSource<'a> {
    /// There is no constructor, so no arguments are taken.
    Nowhere,
    /// From this file.
    File(&'a PathBuf),
    /// From the command's own arguments.
    CommandLine,
}

/// What the contract to deploy is found by.
#[derive(Debug)]
pub enum Target<'a> {
    /// The source file at this path below the project's root.
    Path(&'a String),
    /// The contract of this name.
    Name(&'a String),
}

impl CreateArgs {
    /// What the contract to deploy is found by.
    pub open spec fn target_to_find(&self) -> Target<'_> {
        match self.contract.path {
            Some(path) => Target::Path(&path),
            None => Target::Name(&self.contract.name),
        }
    }

    /// Whether these are the values for the contract's constructor, or the reason why there are
    /// none.
    pub open spec fn are_params(
        &self,
        abi: JsonAbi,
        file: Option<Vec<String>>,
        params: Result<Vec<DynSolValue>, ConstructorArgsError>,
    ) -> bool {
        match abi@ {
            None => params matches Ok(values) && values@.len() == 0,
            Some(inputs) => {
                let args = self.given_args(file);
                &&& is_parse_of(inputs, args, params)
                &&& params matches Ok(values) ==> inputs.len() <= args.len() ==> come_from_texts(
                    inputs,
                    values@,
                )
            },
        }
    }

    /// Whether the contract is deployed on this chain, where the node answered this.
    pub open spec fn deploys_on(&self, chain: u64, fetched: Option<u64>) -> bool {
        match self.eth.etherscan.chain {
            Some(given) => chain == given,
            None => Some(chain) == fetched,
        }
    }

    /// Whether the contract is deployed from this account, where the signer is this.
    pub open spec fn deploys_from(&self, account: Address, signer: Option<Address>) -> bool {
        Some(account) == if self.unlocked {
            self.eth.from
        } else {
            signer
        }
    }
}

impl CreateArgs {
    /// Returns the provided chain id, if any.
    pub fn chain_id(&self) -> (r: Option<u64>)
        ensures
            r == self.eth.etherscan.chain,
    {
        self.eth.etherscan.chain
    }

    /// The name under which these arguments provide configuration.
    pub fn metadata(&self) -> (r: String)
        ensures
            r@ == "Create Args Provider"@,
    {
        "Create Args Provider".to_string()
    }

    /// The configuration values that these arguments set, each under its key.
    pub fn data(&self) -> (r: Vec<(String, u64)>)
        ensures
            match self.timeout {
                Some(timeout) => r@.len() == 1 && r@[0].0@ == "transaction_timeout"@ && r@[0].1
                    == timeout,
                None => r@.len() == 0,
            },
    {
        let mut dict: Vec<(String, u64)> = Vec::new();
        if let Some(timeout) = self.timeout {
            dict.push(("transaction_timeout".to_string(), timeout));
        }
        dict
    }

    /// What the contract to deploy is found by: its path, if one was given.
    pub fn target(&self) -> (r: Target<'_>)
        ensures
            r == self.target_to_find(),
    {
        match &self.contract.path {
            Some(path) => Target::Path(path),
            None => Target::Name(&self.contract.name),
        }
    }

    /// Where the constructor arguments are taken from: a file only if there is a constructor
    /// and a path was given.
    pub fn constructor_args_source(&self, abi: &JsonAbi) -> (r: ArgsSource<'_>)
        ensures
            r == self.args_source(abi@),
    {
        match &abi.constructor {
            None => ArgsSource::Nowhere,
            Some(_) => match &self.constructor_args_path {
                Some(path) => ArgsSource::File(path),
                None => ArgsSource::CommandLine,
            },
        }
    }

    /// Where the constructor arguments are taken from, under these declared inputs.
    pub open spec fn args_source(&self, constructor: Option<Seq<Param>>) -> ArgsSource<'_> {
        if constructor is None {
            ArgsSource::Nowhere
        } else {
            match self.constructor_args_path {
                Some(path) => ArgsSource::File(&path),
                None => ArgsSource::CommandLine,
            }
        }
    }

    /// The constructor arguments that count: those of the file, if one was read.
    pub open spec fn given_args(&self, file: Option<Vec<String>>) -> Seq<String> {
        match file {
            Some(args) => args@,
            None => self.constructor_args@,
        }
    }

    /// Parses the given constructor arguments into values, by matching them against the
    /// constructor's input params. Arguments or inputs without a counterpart are left out. An
    /// argument that comes to an integer with too large an exponent is refused when it is its turn.
    pub fn parse_constructor_args(
        &self,
        constructor: &Constructor,
        constructor_args: &[String],
    ) -> (r: Result<Vec<DynSolValue>, ConstructorArgsError>)
        ensures
            is_parse_of(constructor.inputs@, constructor_args@, r),
            r is Ok <==> all_resolve(
                constructor.inputs@,
                paired(constructor.inputs@, constructor_args@),
            ) && all_parse(
                constructor.inputs@,
                constructor_args@,
                paired(constructor.inputs@, constructor_args@),
            ),
            r matches Ok(values) ==> constructor.inputs@.len() <= constructor_args@.len()
                ==> come_from_texts(constructor.inputs@, values@),
    {
        let inputs = &constructor.inputs;
        let count: usize = if inputs.len() < constructor_args.len() {
            inputs.len()
        } else {
            constructor_args.len()
        };
        assert(count == paired(inputs@, constructor_args@));
        let mut resolved: Vec<Result<DynSolType, alloy_dyn_abi::Error>> = Vec::new();
        let mut i: usize = 0;
        while i < count
            invariant
                i <= count <= inputs@.len(),
                resolved@.len() == i,
                forall|j: int| 0 <= j < i ==> resolved@[j] == type_of(#[trigger] inputs@[j]),
            decreases count - i,
        {
            resolved.push(resolve(&inputs[i]));
            i = i + 1;
        }
        let ghost types_or_errors = resolved@;
        let types = match all_or_first(resolved) {
            Ok(types) => types,
            Err((at, error)) => {
                let input = display_param(&inputs[at]);
                proof {
                    assert(type_of(inputs@[at as int]) == Err::<DynSolType, _>(error));
                    assert forall|j: int| 0 <= j < at implies type_of(
                        #[trigger] inputs@[j],
                    ) is Ok by {
                        assert(types_or_errors[j] == type_of(inputs@[j]));
                    }
                }
                assert(is_first_unresolved(inputs@, at as int));
                proof {
                    parse_succeeds_where_all_parse(
                        inputs@,
                        constructor_args@,
                        Err(ConstructorArgsError::Unresolved { input, error }),
                    );
                }
                return Err(ConstructorArgsError::Unresolved { input, error });
            },
        };
        assert forall|j: int| 0 <= j < count implies type_of(#[trigger] inputs@[j]) == resolved_to(
            types@[j],
        ) by {
            assert(types_or_errors[j] == type_of(inputs@[j]));
        }
        let mut values: Vec<DynSolValue> = Vec::new();
        let mut k: usize = 0;
        while k < count
            invariant
                inputs == &constructor.inputs,
                k <= count <= inputs@.len(),
                count <= constructor_args@.len(),
                count == paired(inputs@, constructor_args@),
                types@.len() == count,
                values@.len() == k,
                forall|j: int|
                    0 <= j < count ==> type_of(#[trigger] inputs@[j]) == resolved_to(types@[j]),
                forall|j: int|
                    0 <= j < k ==> is_reading_at(
                        inputs@,
                        constructor_args@,
                        j,
                        Ok(#[trigger] values@[j]),
                    ),
            decreases count - k,
        {
            assert(type_of(inputs@[k as int]) == resolved_to(types@[k as int]));
            match read_argument(&types[k], &constructor_args[k]) {
                Ok(value) => {
                    assert(is_reading_at(inputs@, constructor_args@, k as int, Ok(value)));
                    values.push(value);
                },
                Err(error) => {
                    proof {
                        assert forall|j: int| 0 <= j < k implies #[trigger] parses(
                            inputs@,
                            constructor_args@,
                            j,
                        ) by {
                            assert(is_reading_at(inputs@, constructor_args@, j, Ok(values@[j])));
                        }
                        assert(is_first_unparsed(inputs@, constructor_args@, k as int));
                        assert(is_reading_at(inputs@, constructor_args@, k as int, Err(error)));
                        parse_succeeds_where_all_parse(inputs@, constructor_args@, Err(error));
                    }
                    return Err(error);
                },
            }
            k = k + 1;
        }
        proof {
            parse_succeeds_where_all_parse(inputs@, constructor_args@, Ok(values));
            if inputs@.len() <= constructor_args@.len() {
                assert forall|j: int| 0 <= j < inputs@.len() implies comes_from_text(
                    #[trigger] inputs@[j],
                    values@[j],
                ) by {
                    assert(is_reading_at(inputs@, constructor_args@, j, Ok(values@[j])));
                    assert(type_of(inputs@[j]) == resolved_to(types@[j]));
                    assert(value_of(types@[j], constructor_args@[j]@) == Ok::<
                        _,
                        alloy_dyn_abi::Error,
                    >(values@[j]));
                }
            }
        }
        Ok(values)
    }

    /// The number of arguments and that of the constructor's inputs, where they differ and every
    /// input that meets an argument has a known type. It is to be warned of before the arguments
    /// are parsed.
    pub fn argument_mismatch(&self, abi: &JsonAbi, file: &Option<Vec<String>>) -> (r: Option<
        ArgumentMismatch,
    >)
        ensures
            match abi@ {
                None => r is None,
                Some(inputs) => {
                    let given = paired(inputs, self.given_args(*file));
                    if given != inputs.len() && all_resolve(inputs, given) {
                        r matches Some(mismatch) && mismatch.given == given && mismatch.expected
                            == inputs.len()
                    } else {
                        r is None
                    }
                },
            },
    {
        match &abi.constructor {
            None => None,
            Some(constructor) => {
                let inputs = &constructor.inputs;
                let args = match file {
                    Some(args) => args,
                    None => &self.constructor_args,
                };
                if inputs.len() <= args.len() {
                    return None;
                }
                let mut i: usize = 0;
                while i < args.len()
                    invariant
                        abi@ == Some(inputs@),
                        args@ == self.given_args(*file),
                        i <= args@.len() < inputs@.len(),
                        all_resolve(inputs@, i as int),
                    decreases args@.len() - i,
                {
                    if resolve(&inputs[i]).is_err() {
                        assert(type_of(inputs@[i as int]) is Err);
                        return None;
                    }
                    i = i + 1;
                }
                Some(ArgumentMismatch { given: args.len(), expected: inputs.len() })
            },
        }
    }

    /// The values for the contract's constructor, from the arguments of a file if one was read
    /// and from the command's own ones else: none where there is no constructor.
    pub fn constructor_params(&self, abi: &JsonAbi, file: Option<Vec<String>>) -> (r: Result<
        Vec<DynSolValue>,
        ConstructorArgsError,
    >)
        ensures
            self.are_params(*abi, file, r),
    {
        match &abi.constructor {
            None => Ok(Vec::new()),
            Some(constructor) => {
                let args = match &file {
                    Some(args) => args.as_slice(),
                    None => self.constructor_args.as_slice(),
                };
                assert(args@ == self.given_args(file));
                self.parse_constructor_args(constructor, args)
            },
        }
    }

    /// The paymaster that was given: its input is empty unless that was given too.
    pub fn paymaster_params(&self) -> (r: Option<PaymasterParams>)
        ensures
            paymaster_view(r) == self.opts.compiler.zk.paymaster(),
    {
        match self.opts.compiler.zk.paymaster_address {
            Some(paymaster) => {
                let paymaster_input: Vec<u8> = match &self.opts.compiler.zk.paymaster_input {
                    Some(input) => copy_bytes(input),
                    None => Vec::new(),
                };
                Some(PaymasterParams { paymaster, paymaster_input })
            },
            None => None,
        }
    }

    /// The chain to deploy on: the provided one, or else the one that the node is on.
    pub fn chain(&self, fetched: Option<u64>) -> (r: u64)
        requires
            self.eth.etherscan.chain is None ==> fetched is Some,
        ensures
            self.deploys_on(r, fetched),
    {
        match self.chain_id() {
            Some(chain) => chain,
            None => fetched.unwrap(),
        }
    }

    /// The account that deploys: the given sender if its account is unlocked, or else the
    /// signer's.
    pub fn sender(&self, signer: Option<Address>) -> (r: Address)
        requires
            self.unlocked ==> self.eth.from is Some,
            !self.unlocked ==> signer is Some,
        ensures
            self.deploys_from(r, signer),
    {
        let sender = if self.unlocked {
            self.eth.from
        } else {
            signer
        };
        sender.unwrap()
    }
}

impl ZkSyncArgs {
    /// The paymaster that was given.
    pub open spec fn paymaster(&self) -> Option<PaymasterModel> {
        match self.paymaster_address {
            Some(paymaster) => Some(
                PaymasterModel {
                    paymaster,
                    paymaster_input: match self.paymaster_input {
                        Some(input) => input@,
                        None => seq![],
                    },
                },
            ),
            None => None,
        }
    }
}

/// As many values are parsed as there are inputs and arguments that meet, and each is what its
/// argument is coerced to under the type that its input resolves to.
pub proof fn values_are_those_of_the_arguments(
    inputs: Seq<Param>,
    args: Seq<String>,
    values: Vec<DynSolValue>,
)
    requires
        is_parse_of(inputs, args, Ok(values)),
    ensures
        values@.len() <= inputs.len(),
        values@.len() <= args.len(),
        values@.len() == inputs.len() || values@.len() == args.len(),
        forall|i: int|
            0 <= i < values@.len() ==> resolved_type(inputs[i], usize::BITS) is Ok && coerced_value(
                resolved_type(inputs[i], usize::BITS)->Ok_0,
                args[i]@,
                usize::BITS,
            ) == Ok::<DynSolValue, alloy_dyn_abi::Error>(#[trigger] values@[i]),
{
    assert forall|i: int| 0 <= i < values@.len() implies resolved_type(inputs[i], usize::BITS) is Ok
        && coerced_value(
        resolved_type(inputs[i], usize::BITS)->Ok_0,
        args[i]@,
        usize::BITS,
    ) == Ok::<DynSolValue, alloy_dyn_abi::Error>(#[trigger] values@[i]) by {
        assert(type_of(inputs[i]) is Ok);
        assert(is_reading_at(inputs, args, i, Ok(values@[i])));
    }
}

/// An input is reported only if it meets an argument, has no known type and is the first such.
pub proof fn only_inputs_without_a_type_are_unresolved(
    inputs: Seq<Param>,
    args: Seq<String>,
    input: String,
    error: alloy_dyn_abi::Error,
)
    requires
        is_parse_of(inputs, args, Err(ConstructorArgsError::Unresolved { input, error })),
    ensures
        exists|i: int|
            {
                &&& 0 <= i < inputs.len()
                &&& i < args.len()
                &&& resolved_type(#[trigger] inputs[i], usize::BITS) == Err::<DynSolType, _>(error)
                &&& input@ == param_text(inputs[i])
                &&& forall|j: int|
                    0 <= j < i ==> resolved_type(#[trigger] inputs[j], usize::BITS) is Ok
            },
{
    let i = choose|i: int|
        0 <= i < paired(inputs, args) && #[trigger] is_first_unresolved(inputs, i) && type_of(
            inputs[i],
        ) == Err::<DynSolType, _>(error) && input@ == param_text(inputs[i]);
    assert(resolved_type(inputs[i], usize::BITS) == Err::<DynSolType, _>(error));
    assert forall|j: int| 0 <= j < i implies resolved_type(
        #[trigger] inputs[j],
        usize::BITS,
    ) is Ok by {
        assert(type_of(inputs[j]) is Ok);
    }
}

/// An argument is reported as no value only if it meets an input, every input that meets an
/// argument has a known type, and it is the first that is not coerced under its input's.
pub proof fn only_arguments_that_are_no_values_are_refused(
    inputs: Seq<Param>,
    args: Seq<String>,
    error: alloy_dyn_abi::Error,
)
    requires
        is_parse_of(inputs, args, Err(ConstructorArgsError::Coercion(error))),
    ensures
        forall|j: int|
            0 <= j < inputs.len() && j < args.len() ==> resolved_type(
                #[trigger] inputs[j],
                usize::BITS,
            ) is Ok,
        exists|i: int|
            {
                &&& 0 <= i < inputs.len()
                &&& i < args.len()
                &&& coerced_value(
                    resolved_type(inputs[i], usize::BITS)->Ok_0,
                    (#[trigger] args[i])@,
                    usize::BITS,
                ) == Err::<DynSolValue, _>(error)
                &&& forall|j: int|
                    0 <= j < i ==> coerced_value(
                        resolved_type(inputs[j], usize::BITS)->Ok_0,
                        (#[trigger] args[j])@,
                        usize::BITS,
                    ) is Ok
            },
{
    assert forall|j: int| 0 <= j < inputs.len() && j < args.len() implies resolved_type(
        #[trigger] inputs[j],
        usize::BITS,
    ) is Ok by {
        assert(type_of(inputs[j]) is Ok);
    }
    let i = choose|i: int|
        0 <= i < paired(inputs, args) && #[trigger] is_first_unparsed(inputs, args, i)
            && is_reading_at(inputs, args, i, Err(ConstructorArgsError::Coercion(error)));
    assert(coerced_value(
        resolved_type(inputs[i], usize::BITS)->Ok_0,
        args[i]@,
        usize::BITS,
    ) == Err::<DynSolValue, _>(error));
    assert forall|j: int| 0 <= j < i implies coerced_value(
        resolved_type(inputs[j], usize::BITS)->Ok_0,
        (#[trigger] args[j])@,
        usize::BITS,
    ) is Ok by {
        assert(parses(inputs, args, j));
    }
}

/// An argument is refused for its exponent only if it meets an input, every input that meets an
/// argument has a known type, every argument before it is a value, and its text writes an exponent:
/// an `e`, a plus sign or none, and decimal digits whose number is at most `isize::MAX` and exceeds
/// it with at most eighteen more.
pub proof fn only_large_exponents_are_refused(inputs: Seq<Param>, args: Seq<String>, text: String)
    requires
        is_parse_of(inputs, args, Err(ConstructorArgsError::Oversized(text))),
    ensures
        forall|j: int|
            0 <= j < inputs.len() && j < args.len() ==> resolved_type(
                #[trigger] inputs[j],
                usize::BITS,
            ) is Ok,
        exists|i: int|
            {
                &&& 0 <= i < inputs.len()
                &&& i < args.len()
                &&& #[trigger] args[i] == text
                &&& overflows_as(
                    name_of_type(resolved_type(inputs[i], usize::BITS)->Ok_0),
                    text@,
                )
                &&& forall|j: int|
                    0 <= j < i ==> coerced_value(
                        resolved_type(inputs[j], usize::BITS)->Ok_0,
                        (#[trigger] args[j])@,
                        usize::BITS,
                    ) is Ok
            },
        exists|at: int, from: int, to: int|
            {
                &&& 0 <= at < from < to <= text@.len()
                &&& #[trigger] text@[at] == 'e' || text@[at] == 'E'
                &&& from == at + 1 || (from == at + 2 && text@[at + 1] == '+')
                &&& forall|k: int| from <= k < to ==> '0' <= #[trigger] text@[k] <= '9'
                &&& isize::MAX - 18 < #[trigger] number(text@, from, to) <= isize::MAX
            },
{
    assert forall|j: int| 0 <= j < inputs.len() && j < args.len() implies resolved_type(
        #[trigger] inputs[j],
        usize::BITS,
    ) is Ok by {
        assert(type_of(inputs[j]) is Ok);
    }
    let i = choose|i: int|
        0 <= i < paired(inputs, args) && #[trigger] is_first_unparsed(inputs, args, i)
            && is_reading_at(inputs, args, i, Err(ConstructorArgsError::Oversized(text)));
    assert(args[i] == text);
    assert forall|j: int| 0 <= j < i implies coerced_value(
        resolved_type(inputs[j], usize::BITS)->Ok_0,
        (#[trigger] args[j])@,
        usize::BITS,
    ) is Ok by {
        assert(parses(inputs, args, j));
    }
    only_large_exponents_overflow(
        name_of_type(resolved_type(inputs[i], usize::BITS)->Ok_0),
        text@,
    );
}

/// Where no input is an integer or made of other types, arguments parse exactly if each that meets
/// an input is coerced under the type that the input resolves to.
pub proof fn other_arguments_parse_where_they_are_coerced(
    inputs: Seq<Param>,
    args: Seq<String>,
    r: Result<Vec<DynSolValue>, ConstructorArgsError>,
)
    requires
        is_parse_of(inputs, args, r),
        forall|i: int|
            0 <= i < inputs.len() && i < args.len() ==> {
                let name = name_of_type(resolved_type(#[trigger] inputs[i], usize::BITS)->Ok_0);
                &&& resolved_type(inputs[i], usize::BITS) is Ok
                &&& name.len() > 0 ==> name[0] != 'u' && name[0] != 'i' && name[0] != '('
                    && name.last() != ']'
            },
    ensures
        r is Ok <==> forall|i: int|
            0 <= i < inputs.len() && i < args.len() ==> coerced_value(
                resolved_type(inputs[i], usize::BITS)->Ok_0,
                (#[trigger] args[i])@,
                usize::BITS,
            ) is Ok,
{
    parse_succeeds_where_all_parse(inputs, args, r);
    let count = paired(inputs, args);
    assert forall|i: int| 0 <= i < count implies type_of(#[trigger] inputs[i]) is Ok by {
        assert(resolved_type(inputs[i], usize::BITS) is Ok);
    }
    assert forall|i: int| 0 <= i < count implies (#[trigger] parses(inputs, args, i)) == (
    coerced_value(resolved_type(inputs[i], usize::BITS)->Ok_0, args[i]@, usize::BITS) is Ok) by {
        let name = name_of_type(resolved_type(inputs[i], usize::BITS)->Ok_0);
        only_integers_overflow(name, args[i]@);
    }
    if forall|i: int|
        0 <= i < inputs.len() && i < args.len() ==> coerced_value(
            resolved_type(inputs[i], usize::BITS)->Ok_0,
            (#[trigger] args[i])@,
            usize::BITS,
        ) is Ok {
        assert forall|i: int| 0 <= i < count implies #[trigger] parses(inputs, args, i) by {
            assert(coerced_value(
                resolved_type(inputs[i], usize::BITS)->Ok_0,
                args[i]@,
                usize::BITS,
            ) is Ok);
        }
    } else {
        let i = choose|i: int|
            0 <= i < inputs.len() && i < args.len() && !(coerced_value(
                resolved_type(inputs[i], usize::BITS)->Ok_0,
                (#[trigger] args[i])@,
                usize::BITS,
            ) is Ok);
        assert(!parses(inputs, args, i));
    }
}

/// Where every argument that meets an input is coerced under the type that the input resolves to,
/// and holds neither `e` nor `E`, the arguments parse.
pub proof fn arguments_without_exponents_parse(
    inputs: Seq<Param>,
    args: Seq<String>,
    r: Result<Vec<DynSolValue>, ConstructorArgsError>,
)
    requires
        is_parse_of(inputs, args, r),
        forall|i: int|
            0 <= i < inputs.len() && i < args.len() ==> {
                &&& resolved_type(inputs[i], usize::BITS) is Ok
                &&& coerced_value(
                    resolved_type(inputs[i], usize::BITS)->Ok_0,
                    (#[trigger] args[i])@,
                    usize::BITS,
                ) is Ok
                &&& !args[i]@.contains('e')
                &&& !args[i]@.contains('E')
            },
    ensures
        r is Ok,
{
    match r {
        Ok(_) => {},
        Err(ConstructorArgsError::Unresolved { input, error }) => {
            only_inputs_without_a_type_are_unresolved(inputs, args, input, error);
            let i = choose|i: int|
                0 <= i < inputs.len() && i < args.len() && resolved_type(
                    #[trigger] inputs[i],
                    usize::BITS,
                ) == Err::<DynSolType, _>(error);
            assert(args[i]@ == args[i]@);
        },
        Err(ConstructorArgsError::Coercion(error)) => {
            only_arguments_that_are_no_values_are_refused(inputs, args, error);
        },
        Err(ConstructorArgsError::Oversized(text)) => {
            only_large_exponents_are_refused(inputs, args, text);
            let i = choose|i: int|
                0 <= i < inputs.len() && i < args.len() && #[trigger] args[i] == text;
            let (at, from, to) = choose|at: int, from: int, to: int|
                {
                    &&& 0 <= at < from < to <= text@.len()
                    &&& #[trigger] text@[at] == 'e' || text@[at] == 'E'
                    &&& #[trigger] number(text@, from, to) <= isize::MAX
                };
            assert(args[i]@.contains(text@[at]));
        },
    }
}

/// As many arguments meet an input as there are of the fewer.
pub proof fn the_fewer_are_paired(inputs: Seq<Param>, args: Seq<String>)
    ensures
        paired(inputs, args) <= inputs.len(),
        paired(inputs, args) <= args.len(),
        paired(inputs, args) == inputs.len() || paired(inputs, args) == args.len(),
        forall|count: int|
            all_resolve(inputs, count) <==> forall|i: int|
                0 <= i < count ==> resolved_type(#[trigger] inputs[i], usize::BITS) is Ok,
{
    assert forall|count: int|
        all_resolve(inputs, count) == forall|i: int|
            0 <= i < count ==> resolved_type(#[trigger] inputs[i], usize::BITS) is Ok by {
        if all_resolve(inputs, count) {
            assert forall|i: int| 0 <= i < count implies resolved_type(
                #[trigger] inputs[i],
                usize::BITS,
            ) is Ok by {
                assert(type_of(inputs[i]) is Ok);
            }
        }
    }
}

/// What went wrong with constructor arguments is told in words, and behind it the cause.
pub proof fn argument_errors_are_told_in_words(input: String, error: alloy_dyn_abi::Error)
    ensures
        (ConstructorArgsError::Unresolved { input, error }).chain() == seq![
            "Could not resolve constructor arg: input="@ + input@,
            abi_error_text(error),
        ],
        ConstructorArgsError::Oversized(input).chain() == seq![
            "Exponent of constructor arg is too large: "@ + input@,
        ],
        ConstructorArgsError::Coercion(error).chain() == seq![abi_error_text(error)],
{
}

/// What is given decides: the contract is found by its path if one is given and by its name else;
/// arguments are taken from a file if there is a constructor and a path is given, and what the file
/// holds takes the place of the command's own; the given chain wins over the node's; and an
/// unlocked account sends in place of the signer.
pub proof fn what_is_given_decides(
    args: CreateArgs,
    constructor: Option<Seq<Param>>,
    file: Option<Vec<String>>,
    chain: u64,
    fetched: Option<u64>,
    account: Address,
    signer: Option<Address>,
)
    ensures
        args.contract.path matches Some(path) ==> args.target_to_find() == Target::Path(&path),
        args.contract.path is None ==> args.target_to_find() == Target::Name(&args.contract.name),
        constructor is None ==> args.args_source(constructor) is Nowhere,
        constructor is Some ==> args.constructor_args_path is None ==> args.args_source(
            constructor,
        ) is CommandLine,
        args.constructor_args_path matches Some(path) ==> constructor is Some ==> args.args_source(
            constructor,
        ) == ArgsSource::File(&path),
        file matches Some(lines) ==> args.given_args(file) == lines@,
        file is None ==> args.given_args(file) == args.constructor_args@,
        args.eth.etherscan.chain matches Some(given) ==> (args.deploys_on(chain, fetched)
            <==> chain == given),
        args.eth.etherscan.chain is None ==> (args.deploys_on(chain, fetched) <==> fetched == Some(
            chain,
        )),
        args.unlocked ==> (args.deploys_from(account, signer) <==> args.eth.from == Some(account)),
        !args.unlocked ==> (args.deploys_from(account, signer) <==> signer == Some(account)),
{
}

/// The values for a constructor are parsed from what the file holds, if it was read, and from the
/// command's own arguments else; without a constructor there are none.
pub proof fn params_are_parsed_from_the_given_arguments(
    args: CreateArgs,
    abi: JsonAbi,
    file: Option<Vec<String>>,
    params: Result<Vec<DynSolValue>, ConstructorArgsError>,
)
    requires
        args.are_params(abi, file, params),
    ensures
        abi.constructor is None ==> params is Ok && params->Ok_0@.len() == 0,
        abi.constructor matches Some(constructor) ==> file is Some ==> is_parse_of(
            constructor.inputs@,
            file->Some_0@,
            params,
        ),
        abi.constructor matches Some(constructor) ==> file is None ==> is_parse_of(
            constructor.inputs@,
            args.constructor_args@,
            params,
        ),
{
}

/// A paymaster pays exactly if its address is given, and is called with the input that is given, or
/// with none.
pub proof fn a_paymaster_is_had_by_its_address(zk: ZkSyncArgs)
    ensures
        zk.paymaster_address is None ==> zk.paymaster() is None,
        zk.paymaster_address matches Some(address) ==> {
            &&& zk.paymaster() is Some
            &&& zk.paymaster()->Some_0.paymaster == address
            &&& zk.paymaster_input matches Some(input) ==> zk.paymaster()->Some_0.paymaster_input
                == input@
            &&& zk.paymaster_input is None ==> zk.paymaster()->Some_0.paymaster_input.len() == 0
        },
{
}

/// Where every input that meets an argument has a known type, and an argument comes to an integer
/// with too large an exponent behind arguments that are values, it is the argument that is refused.
pub proof fn large_exponents_are_refused(
    inputs: Seq<Param>,
    args: Seq<String>,
    r: Result<Vec<DynSolValue>, ConstructorArgsError>,
    at: int,
)
    requires
        is_parse_of(inputs, args, r),
        0 <= at < inputs.len(),
        at < args.len(),
        forall|i: int|
            0 <= i < inputs.len() && i < args.len() ==> resolved_type(
                #[trigger] inputs[i],
                usize::BITS,
            ) is Ok,
        overflows_as(name_of_type(resolved_type(inputs[at], usize::BITS)->Ok_0), args[at]@),
        forall|i: int|
            0 <= i < at ==> {
                let ty = resolved_type(inputs[i], usize::BITS)->Ok_0;
                &&& !overflows_as(name_of_type(ty), args[i]@)
                &&& coerced_value(ty, (#[trigger] args[i])@, usize::BITS) is Ok
            },
    ensures
        r == Err::<Vec<DynSolValue>, _>(ConstructorArgsError::Oversized(args[at])),
{
    let count = paired(inputs, args);
    assert forall|i: int| 0 <= i < count implies type_of(#[trigger] inputs[i]) is Ok by {
        assert(resolved_type(inputs[i], usize::BITS) is Ok);
    }
    assert forall|i: int| 0 <= i < at implies #[trigger] parses(inputs, args, i) by {
        assert(args[i]@ == args[i]@);
    }
    assert(!parses(inputs, args, at));
    first_unparsed_is_reported(inputs, args, r, at);
}

} // verus!
