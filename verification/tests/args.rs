//! The command's arguments: what is parsed from them, and what is decided from them.

use alloy_dyn_abi::{DynSolType, DynSolValue};
use alloy_primitives::I256;
use clap::{Arg, ArgAction, Command};
use forge_create::abi::{check_oversized, Constructor, JsonAbi};
use forge_create::args::{
    ArgsSource, ArgumentMismatch, CompilerArgs, ConstructorArgsError, ContractInfo, CoreBuildArgs,
    CreateArgs, EthereumOpts, EtherscanOpts, RetryArgs, Target, TransactionOpts, VerifierArgs,
    ZkSyncArgs,
};
use forge_create::exponent::check_overflows_as;
use forge_create::primitives::{check_fits_u128, check_fits_u64, Address, U256};
use forge_create::results::all_or_first;
use forge_create::text::{split_at_colon, write_decimal};
use std::path::PathBuf;

fn parse_from(argv: &[&str]) -> CreateArgs {
    let matches = Command::new("create")
        .arg(Arg::new("contract").required(true))
        .arg(
            Arg::new("constructor_args")
                .long("constructor-args")
                .num_args(1..)
                .allow_hyphen_values(true)
                .action(ArgAction::Append),
        )
        .arg(Arg::new("verify").long("verify").action(ArgAction::SetTrue))
        .arg(Arg::new("retries").long("retries").default_value("5"))
        .arg(Arg::new("delay").long("delay").default_value("5"))
        .arg(Arg::new("chain").long("chain-id"))
        .try_get_matches_from(argv)
        .unwrap();
    let text = |name: &str| matches.get_one::<String>(name).cloned();
    let contract = text("contract").unwrap();
    let (path, name) = split_at_colon(&contract).unwrap();
    CreateArgs {
        contract: ContractInfo { path: Some(path.to_string()), name: name.to_string() },
        constructor_args: matches
            .get_many::<String>("constructor_args")
            .map(|args| args.cloned().collect())
            .unwrap_or_default(),
        constructor_args_path: None,
        broadcast: false,
        verify: matches.get_flag("verify"),
        unlocked: false,
        show_standard_json_input: false,
        timeout: None,
        opts: CoreBuildArgs {
            libraries: vec![],
            via_ir: false,
            compiler: CompilerArgs {
                evm_version: None,
                optimize: None,
                optimizer_runs: None,
                zk: ZkSyncArgs {
                    enabled: false,
                    paymaster_address: None,
                    paymaster_input: None,
                },
            },
        },
        tx: TransactionOpts {
            gas_limit: None,
            gas_price: None,
            priority_gas_price: None,
            value: None,
            nonce: None,
            legacy: false,
        },
        eth: EthereumOpts {
            etherscan: EtherscanOpts {
                key: None,
                chain: text("chain").map(|id| id.parse().unwrap()),
            },
            etherscan_key: None,
            from: None,
        },
        verifier: VerifierArgs {
            verifier: "etherscan".to_string(),
            verifier_api_key: None,
            verifier_url: None,
        },
        retry: RetryArgs {
            retries: text("retries").unwrap().parse().unwrap(),
            delay: text("delay").unwrap().parse().unwrap(),
        },
        zk_gas_per_pubdata: None,
    }
}

fn args() -> CreateArgs {
    parse_from(&["foundry-cli", "src/Domains.sol:Domains"])
}

fn constructor(json: &str) -> Constructor {
    let parsed: alloy_json_abi::Constructor = serde_json::from_str(json).unwrap();
    Constructor { inputs: parsed.inputs }
}

fn strings(items: &[&str]) -> Vec<String> {
    items.iter().map(|item| item.to_string()).collect()
}

#[test]
fn can_parse_create() {
    let args: CreateArgs = parse_from(&[
        "foundry-cli",
        "src/Domains.sol:Domains",
        "--verify",
        "--retries",
        "10",
        "--delay",
        "30",
    ]);
    assert_eq!(args.retry.retries, 10);
    assert_eq!(args.retry.delay, 30);
}

#[test]
fn can_parse_chain_id() {
    let args: CreateArgs = parse_from(&[
        "foundry-cli",
        "src/Domains.sol:Domains",
        "--verify",
        "--retries",
        "10",
        "--delay",
        "30",
        "--chain-id",
        "9999",
    ]);
    assert_eq!(args.chain_id(), Some(9999));
}

#[test]
fn test_parse_constructor_args() {
    let args: CreateArgs = parse_from(&[
        "foundry-cli",
        "src/Domains.sol:Domains",
        "--constructor-args",
        "Hello",
    ]);
    let constructor = constructor(
        r#"{"type":"constructor","inputs":[{"name":"_name","type":"string","internalType":"string"}],"stateMutability":"nonpayable"}"#,
    );
    let params = args.parse_constructor_args(&constructor, &args.constructor_args).unwrap();
    assert_eq!(params, vec![DynSolValue::String("Hello".to_string())]);
}

#[test]
fn test_parse_tuple_constructor_args() {
    let args: CreateArgs = parse_from(&[
        "foundry-cli",
        "src/Domains.sol:Domains",
        "--constructor-args",
        "[(1,2), (2,3), (3,4)]",
    ]);
    let constructor = constructor(
        r#"{"type":"constructor","inputs":[{"name":"_points","type":"tuple[]","internalType":"struct Point[]","components":[{"name":"x","type":"uint256","internalType":"uint256"},{"name":"y","type":"uint256","internalType":"uint256"}]}],"stateMutability":"nonpayable"}"#,
    );
    let _params = args.parse_constructor_args(&constructor, &args.constructor_args).unwrap();
}

#[test]
fn test_parse_int_constructor_args() {
    let args: CreateArgs = parse_from(&[
        "foundry-cli",
        "src/Domains.sol:Domains",
        "--constructor-args",
        "-5",
    ]);
    let constructor = constructor(
        r#"{"type":"constructor","inputs":[{"name":"_name","type":"int256","internalType":"int256"}],"stateMutability":"nonpayable"}"#,
    );
    let params = args.parse_constructor_args(&constructor, &args.constructor_args).unwrap();
    assert_eq!(params, vec![DynSolValue::Int(I256::unchecked_from(-5), 256)]);
}

const TWO_INPUTS: &str = r#"{"type":"constructor","inputs":[{"name":"a","type":"bool","internalType":"bool"},{"name":"b","type":"uint8","internalType":"uint8"}],"stateMutability":"nonpayable"}"#;

#[test]
fn arguments_without_counterpart_are_left_out() {
    let constructor = constructor(TWO_INPUTS);
    let few = args().parse_constructor_args(&constructor, &strings(&["true"])).unwrap();
    assert_eq!(few, vec![DynSolValue::Bool(true)]);
    let many = args()
        .parse_constructor_args(&constructor, &strings(&["true", "7", "unused"]))
        .unwrap();
    assert_eq!(many.len(), 2);
    assert_eq!(many[0], DynSolValue::Bool(true));
    assert_eq!(many[1], DynSolValue::Uint(alloy_primitives::U256::from(7), 8));
    let none = args().parse_constructor_args(&constructor, &[]).unwrap();
    assert!(none.is_empty());
}

#[test]
fn the_first_argument_that_is_no_value_is_reported() {
    let constructor = constructor(TWO_INPUTS);
    let error = args()
        .parse_constructor_args(&constructor, &strings(&["maybe", "x"]))
        .unwrap_err();
    let expected = DynSolType::Bool.coerce_str("maybe").unwrap_err().to_string();
    assert!(matches!(error, ConstructorArgsError::Coercion(_)));
    assert_eq!(error.messages(), vec![expected]);
}

#[test]
fn an_input_of_unknown_type_is_reported_first() {
    let constructor = constructor(
        r#"{"type":"constructor","inputs":[{"name":"a","type":"bool","internalType":"bool"},{"name":"b","type":"uint7","internalType":"uint7"}],"stateMutability":"nonpayable"}"#,
    );
    let error = args()
        .parse_constructor_args(&constructor, &strings(&["maybe", "1"]))
        .unwrap_err();
    assert!(matches!(error, ConstructorArgsError::Unresolved { .. }));
    let messages = error.messages();
    assert_eq!(messages.len(), 2);
    let input = constructor.inputs[1].to_string();
    assert_eq!(messages[0], format!("Could not resolve constructor arg: input={input}"));
    // The second input does not matter where no argument meets it.
    let params = args().parse_constructor_args(&constructor, &strings(&["true"])).unwrap();
    assert_eq!(params, vec![DynSolValue::Bool(true)]);
}

#[test]
fn all_values_or_the_first_error() {
    let good: Vec<Result<u8, &str>> = vec![Ok(1), Ok(2)];
    assert_eq!(all_or_first(good), Ok(vec![1, 2]));
    let bad: Vec<Result<u8, &str>> = vec![Ok(1), Err("x"), Ok(3), Err("y")];
    assert_eq!(all_or_first(bad), Err((1, "x")));
    let none: Vec<Result<u8, &str>> = vec![];
    assert_eq!(all_or_first(none), Ok(vec![]));
}

#[test]
fn a_file_is_read_only_for_a_constructor() {
    let mut args = args();
    let plain = JsonAbi { constructor: None };
    let built = JsonAbi { constructor: Some(constructor(TWO_INPUTS)) };
    assert!(matches!(args.constructor_args_source(&plain), ArgsSource::Nowhere));
    assert!(matches!(args.constructor_args_source(&built), ArgsSource::CommandLine));
    args.constructor_args_path = Some(PathBuf::from("args.json"));
    assert!(matches!(args.constructor_args_source(&plain), ArgsSource::Nowhere));
    match args.constructor_args_source(&built) {
        ArgsSource::File(path) => assert_eq!(path, &PathBuf::from("args.json")),
        other => panic!("{other:?}"),
    }
}

#[test]
fn a_file_takes_the_place_of_the_arguments() {
    let mut args = args();
    args.constructor_args = strings(&["true", "1"]);
    let abi = JsonAbi { constructor: Some(constructor(TWO_INPUTS)) };
    let own = args.constructor_params(&abi, None).unwrap();
    assert_eq!(own[0], DynSolValue::Bool(true));
    let read = args.constructor_params(&abi, Some(strings(&["false"]))).unwrap();
    assert_eq!(read, vec![DynSolValue::Bool(false)]);
    let plain = JsonAbi { constructor: None };
    assert!(args.constructor_params(&plain, None).unwrap().is_empty());
}

#[test]
fn the_target_is_a_path_if_one_is_given() {
    let mut args = args();
    match args.target() {
        Target::Path(path) => assert_eq!(path, "src/Domains.sol"),
        other => panic!("{other:?}"),
    }
    args.contract.path = None;
    match args.target() {
        Target::Name(name) => assert_eq!(name, "Domains"),
        other => panic!("{other:?}"),
    }
}

#[test]
fn the_timeout_is_configuration() {
    let mut args = args();
    assert_eq!(args.metadata(), "Create Args Provider");
    assert_eq!(args.data(), vec![]);
    args.timeout = Some(45);
    assert_eq!(args.data(), vec![("transaction_timeout".to_string(), 45)]);
}

#[test]
fn a_given_chain_wins() {
    let mut args = args();
    assert_eq!(args.chain_id(), None);
    assert_eq!(args.chain(Some(31337)), 31337);
    args.eth.etherscan.chain = Some(10);
    assert_eq!(args.chain(Some(31337)), 10);
    assert_eq!(args.chain(None), 10);
}

#[test]
fn an_unlocked_account_sends() {
    let mut args = args();
    let from = Address { bytes: [1; 20] };
    let signer = Address { bytes: [2; 20] };
    args.eth.from = Some(from);
    assert_eq!(args.sender(Some(signer)), signer);
    args.unlocked = true;
    assert_eq!(args.sender(None), from);
}

#[test]
fn a_paymaster_needs_an_address() {
    let mut args = args();
    args.opts.compiler.zk.paymaster_input = Some(vec![1]);
    assert!(args.paymaster_params().is_none());
    args.opts.compiler.zk.paymaster_address = Some(Address { bytes: [3; 20] });
    let params = args.paymaster_params().unwrap();
    assert_eq!(params.paymaster, Address { bytes: [3; 20] });
    assert_eq!(params.paymaster_input, vec![1]);
    args.opts.compiler.zk.paymaster_input = None;
    assert_eq!(args.paymaster_params().unwrap().paymaster_input, Vec::<u8>::new());
}

#[test]
fn numbers_fit_their_fields() {
    assert!(check_fits_u64(None) && check_fits_u128(None));
    assert!(check_fits_u64(Some(U256::from_u128(u64::MAX as u128))));
    assert!(!check_fits_u64(Some(U256::from_u128(u64::MAX as u128 + 1))));
    assert!(!check_fits_u64(Some(U256 { high: 1, low: 0 })));
    assert!(check_fits_u128(Some(U256::from_u128(u128::MAX))));
    assert!(!check_fits_u128(Some(U256 { high: 1, low: 0 })));
    assert_eq!(U256::from_u128(7).to_u64(), Some(7));
    assert_eq!(U256::from_u128(u128::MAX).to_u128(), Some(u128::MAX));
}

#[test]
fn arguments_parse_the_same_each_time() {
    let constructor = constructor(TWO_INPUTS);
    let given = strings(&["true", "3"]);
    let first = args().parse_constructor_args(&constructor, &given).unwrap();
    let second = args().clone().parse_constructor_args(&constructor, &given).unwrap();
    assert_eq!(first, second);
}

#[test]
fn exponents_that_their_unit_takes_too_far_are_found() {
    for (ty, text) in [
        ("uint256", "1e9223372036854775807 ether"),
        ("uint8", "1E+9223372036854775807ether"),
        ("uint256", "1e9223372036854775790 \tether"),
        ("uint256", "1e9223372036854775799 gwei"),
        ("uint256", "1.50e9223372036854775807nanoether"),
        ("uint256", "0x1.5e9223372036854775807ether"),
        ("int256", "-1e9223372036854775807 nano"),
        ("int8", "+1e9223372036854775807 nano"),
        ("uint256[]", "[1e9223372036854775807 nano"),
        ("uint256[2]", "[ 1, 1e9223372036854775807ether]"),
        ("uint256[][]", "[[1 ether ], [],[2,1e9223372036854775807ether]]"),
        ("(uint256,)", " ( 1e9223372036854775807ether)"),
        ("(bool,int8)[]", "[(true,-1), (false, 1e9223372036854775807ether)]"),
        ("(string,uint256)", "(\"a, b)\",1e9223372036854775807ether)"),
        ("(string,uint256)", "(a b ,1e9223372036854775807ether)"),
        ("(bytes,uint256)", "(0x,1e9223372036854775807ether)"),
        ("((address,bytes4)[],(),uint256)", "([(0x00,ff)],(),1e9223372036854775807ether)"),
    ] {
        assert!(check_overflows_as(ty, text), "{ty} {text}");
    }
    for (ty, text) in [
        ("uint256", ""),
        ("uint256", "e"),
        ("uint256", "1e18"),
        ("uint256", "1ether"),
        ("uint256", "1e9223372036854775807"),
        ("uint256", "1e9223372036854775807 wei"),
        ("uint256", "1e9223372036854775807 Ether"),
        ("uint256", "1e9223372036854775807 ethers"),
        ("uint256", "1e9223372036854775789 ether"),
        ("uint256", "1e9223372036854775798 gwei"),
        ("uint256", "1e9223372036854775808 ether"),
        ("uint256", "1e99999999999999999999999999999999999999999999999999 ether"),
        ("uint256", "1e09223372036854775807 ether"),
        ("uint256", "1e-9223372036854775807 ether"),
        ("uint256", "1.e9223372036854775807 ether"),
        ("uint256", "-1e9223372036854775807 ether"),
        ("int256", "--1e9223372036854775807 ether"),
        ("uint256", " 1e9223372036854775807 ether"),
        ("uint256", "1 1e9223372036854775807 ether"),
        ("uint256", "0x00e9223372036854775807"),
        ("uint256", "0x0e9223372036854775807e"),
        ("string", "1e9223372036854775807 ether"),
        ("string[]", "[1e9223372036854775807 ether]"),
        ("(uint256,string)", "(1,\"1e9223372036854775807ether\")"),
        ("(uint256,string)", "(1,1e9223372036854775807ether)"),
        ("(string,uint256)", "('1e9223372036854775807ether',1)"),
        ("(bool,uint256)", "(1e9223372036854775807ether,1)"),
        ("uint256[]", "1e9223372036854775807ether"),
        ("uint256[]", "[1;1e9223372036854775807ether]"),
        ("uint256", "[1e9223372036854775807ether]"),
    ] {
        assert!(!check_overflows_as(ty, text), "{ty} {text}");
    }
}

#[test]
fn what_is_a_value_is_not_refused() {
    for (ty, text) in [
        ("uint256", "0x0e9223372036854775807e"),
        ("uint256", "1e1 gwei"),
        ("int256", "-0x1e"),
        ("bytes", "0x1e9223372036854775807e"),
        ("string", "1e9223372036854775807 ether"),
        ("(uint256,string)", "(1,\"1e9223372036854775807ether\")"),
        ("(uint256,string)", "(1,1e9223372036854775807ether)"),
        ("(string,uint256[])", "( '1e9223372036854775807ether' , [1 gwei, 2 ])"),
        ("string[]", "[1e9223372036854775807ether,\"1e9223372036854775807ether\",]"),
        ("((bool,int8)[],bytes2)[1]", "[([(true,-1), (false, +2e1)],0x1e18)]"),
    ] {
        let ty = DynSolType::parse(ty).unwrap();
        assert!(ty.coerce_str(text).is_ok(), "{ty} {text}");
        assert!(!check_oversized(&ty, text), "{ty} {text}");
    }
}

/// Numbers in some order, each from the one before it.
fn draw(state: &mut u64, below: usize) -> usize {
    *state = state.wrapping_mul(6364136223846793005).wrapping_add(1442695040888963407);
    (*state >> 33) as usize % below
}

/// A text that is, or is nearly, a value of the type.
fn scribble(ty: &DynSolType, state: &mut u64) -> String {
    let choices: &[&str] = match ty {
        DynSolType::Array(item) => {
            let items: Vec<String> = (0..draw(state, 4)).map(|_| scribble(item, state)).collect();
            let ends = [("[", "]"), ("[ ", "]"), ("[", ",]"), ("[", " ]"), ("(", "]")];
            let (open, close) = ends[draw(state, ends.len())];
            return format!("{open}{}{close}", items.join([",", ", "][draw(state, 2)]));
        }
        DynSolType::Tuple(fields) => {
            let fields: Vec<String> = fields.iter().map(|field| scribble(field, state)).collect();
            let ends = [("(", ")"), ("( ", ")"), (" (", " )"), ("(", ",)"), ("[", ")")];
            let (open, close) = ends[draw(state, ends.len())];
            return format!("{open}{}{close}", fields.join([",", " , ", ", "][draw(state, 3)]));
        }
        DynSolType::Uint(_) | DynSolType::Int(_) => &[
            "0", "1", "12 gwei", "1ether", "0x1e", "-1", "+1", "1e1", "1.5 gwei", "1.5e1", "5e-1",
            "0b11", "1e9223372036854775807ether", "1.5E+9223372036854775807 gwei", "1e0nano",
            "0x1.5e9223372036854775807 nano", "0x1e9223372036854775807",
            "-2e9223372036854775807 \tether", "1e9223372036854775807wei", "1e", "",
            "1e9223372036854775807ether ",
        ],
        DynSolType::Bool => &["true", "false", "tru", "1e9223372036854775807ether"],
        DynSolType::String => &[
            "a", "\"a,b\"", "'(1e9223372036854775807ether'", "1e9223372036854775807ether", "", "\"",
            "x y ", "\"]\"", "1,1e9223372036854775807ether",
        ],
        _ => &["0x", "0x1e18", "1e9223372036854775807e", "0x1", "", "e18f", "0xg"],
    };
    choices[draw(state, choices.len())].to_string()
}

#[test]
fn exponents_are_found_where_the_parser_comes_to_them() {
    let types = [
        "uint256",
        "int256",
        "string",
        "(uint256,string)",
        "(string,int256,bytes)",
        "(bool,uint256)[]",
        "uint256[][]",
        "string[]",
        "((bytes,int256)[],string,uint256)",
    ];
    let mut state: u64 = 7;
    let (mut read, mut refused): (usize, usize) = (0, 0);
    for round in 0..20_000 {
        let ty = DynSolType::parse(types[round % types.len()]).unwrap();
        let text = scribble(&ty, &mut state);
        if check_oversized(&ty, &text) {
            // One more is no exponent at all, so no integer has it.
            let other = text.replace("9223372036854775807", "9223372036854775808");
            assert!(ty.coerce_str(&other).is_err(), "{ty} {text}");
            refused += 1;
        } else if ty.coerce_str(&text).is_ok() {
            read += 1;
        }
    }
    assert!(read > 1_000 && refused > 1_000, "{read} {refused}");
}

const MIXED_INPUTS: &str = r#"{"type":"constructor","inputs":[{"name":"a","type":"string","internalType":"string"},{"name":"b","type":"tuple[]","internalType":"struct P[]","components":[{"name":"x","type":"bool","internalType":"bool"},{"name":"y","type":"int8","internalType":"int8"}]},{"name":"c","type":"uint256","internalType":"uint256"}],"stateMutability":"nonpayable"}"#;

#[test]
fn exponents_matter_to_integers_alone() {
    let text = "1e9223372036854775807 ether";
    let integer = DynSolType::Uint(256);
    let pairs = DynSolType::Array(Box::new(DynSolType::Tuple(vec![
        DynSolType::Bool,
        DynSolType::Int(8),
    ])));
    assert!(!check_oversized(&DynSolType::String, text));
    assert!(!check_oversized(&pairs, text));
    assert!(check_oversized(&pairs, "[(true,1e9223372036854775807 ether)]"));
    assert!(check_oversized(&integer, text));
    assert!(!check_oversized(&integer, "1 ether"));
}

#[test]
fn an_argument_with_too_large_an_exponent_is_reported() {
    let text = "1e9223372036854775807 ether";
    let abi = JsonAbi { constructor: Some(constructor(MIXED_INPUTS)) };
    let given = strings(&[text, "[]", text]);
    let error = args().constructor_params(&abi, Some(given)).unwrap_err();
    assert!(matches!(error, ConstructorArgsError::Oversized(_)));
    assert_eq!(
        error.messages(),
        vec![format!("Exponent of constructor arg is too large: {text}")]
    );
    let read = args().constructor_params(&abi, Some(strings(&[text, "[]", "1 ether"]))).unwrap();
    assert_eq!(read[0], DynSolValue::String(text.to_string()));
    assert_eq!(
        read[2],
        DynSolValue::Uint(alloy_primitives::U256::from(1_000_000_000_000_000_000u64), 256)
    );
}

#[test]
fn a_literal_that_ends_in_e_is_read() {
    let constructor = constructor(
        r#"{"type":"constructor","inputs":[{"name":"a","type":"uint256","internalType":"uint256"}],"stateMutability":"nonpayable"}"#,
    );
    let text = "0x0e9223372036854775807e";
    let values = args().parse_constructor_args(&constructor, &strings(&[text])).unwrap();
    let expected = alloy_primitives::U256::from(0x0e9223372036854775807e_u128);
    assert_eq!(values, vec![DynSolValue::Uint(expected, 256)]);
}

#[test]
fn the_first_thing_wrong_is_reported() {
    let text = "1e9223372036854775807 ether";
    let mixed = constructor(MIXED_INPUTS);
    let error = args().parse_constructor_args(&mixed, &strings(&["a", "x", text])).unwrap_err();
    assert!(matches!(error, ConstructorArgsError::Coercion(_)));
    let large = format!("[(true,{text})]");
    let error =
        args().parse_constructor_args(&mixed, &strings(&["a", &large, "x"])).unwrap_err();
    assert!(matches!(error, ConstructorArgsError::Oversized(argument) if argument == large));
    // A type that is not known comes before both.
    let unknown = constructor(
        r#"{"type":"constructor","inputs":[{"name":"a","type":"uint8","internalType":"uint8"},{"name":"b","type":"uint7","internalType":"uint7"}],"stateMutability":"nonpayable"}"#,
    );
    let error = args().parse_constructor_args(&unknown, &strings(&[text, "1"])).unwrap_err();
    assert!(matches!(error, ConstructorArgsError::Unresolved { .. }));
    // What has no counterpart is not looked at.
    let two = constructor(TWO_INPUTS);
    let values = args().parse_constructor_args(&two, &strings(&["true", "1", text])).unwrap();
    assert_eq!(values.len(), 2);
}

#[test]
fn a_mismatch_is_warned_of_where_the_types_are_known() {
    let abi = JsonAbi { constructor: Some(constructor(TWO_INPUTS)) };
    let mismatch = args().argument_mismatch(&abi, &Some(strings(&["maybe"]))).unwrap();
    assert_eq!(mismatch, ArgumentMismatch { given: 1, expected: 2 });
    assert_eq!(
        mismatch.message(),
        "Constructor argument mismatch: expected 2 arguments, but received 1. Ensure that the number of arguments provided matches the constructor definition."
    );
    assert!(args().argument_mismatch(&abi, &Some(strings(&["true", "1"]))).is_none());
    assert!(args().argument_mismatch(&abi, &Some(strings(&["true", "1", "2"]))).is_none());
    assert_eq!(
        args().argument_mismatch(&abi, &None),
        Some(ArgumentMismatch { given: 0, expected: 2 })
    );
    assert!(args().argument_mismatch(&JsonAbi { constructor: None }, &None).is_none());
    let unknown = JsonAbi {
        constructor: Some(constructor(
            r#"{"type":"constructor","inputs":[{"name":"a","type":"uint7","internalType":"uint7"},{"name":"b","type":"bool","internalType":"bool"}],"stateMutability":"nonpayable"}"#,
        )),
    };
    assert!(args().argument_mismatch(&unknown, &Some(strings(&["1"]))).is_none());
}

#[test]
fn numbers_are_written_in_decimal() {
    assert_eq!(write_decimal(0), "0");
    assert_eq!(write_decimal(9), "9");
    assert_eq!(write_decimal(10), "10");
    assert_eq!(write_decimal(1234567890), "1234567890");
    assert_eq!(write_decimal(usize::MAX), usize::MAX.to_string());
}
