//! A deployment from the arguments to the request to verify the contract.

use alloy_dyn_abi::{DynSolValue, JsonAbiExt};
use alloy_provider::PendingTransactionError;
use alloy_transport::TransportErrorKind;
use forge_create::abi::{Constructor, JsonAbi};
use forge_create::args::{
    ArgsSource, ArtifactId, CompilerArgs, ContractInfo, CoreBuildArgs, CreateArgs, EthereumOpts,
    EtherscanOpts, RetryArgs, TransactionOpts, VerifierArgs, ZkSyncArgs,
};
use forge_create::deploy::{
    fee_estimation_failure, hex_args, AwaitingCheck, AwaitingNonce, DeployError, DryRun,
    Eip1559Estimation, FeeQuery, FeeReply, Outcome, Ready,
};
use forge_create::factory::{
    ContractDeploymentError, ContractDeploymentTx, ContractFactory, Deployer,
    DeploymentTxFactory, Receipt, SendError,
};
use forge_create::linking::{BytecodeObject, EvmBytecode, LinkReference};
use forge_create::primitives::{Address, TxHash, U256};
use forge_create::run::{EvmOutput, EvmParsed, EvmRun, Run, RunError, Step};
use forge_create::tx::{PaymasterParams, TransactionRequest, TxKind};
use forge_create::verify::{VerificationCompiler, VerifyArgs};
use std::sync::Arc;

type Factory = DeploymentTxFactory<u8, (), ()>;

fn strings(items: &[&str]) -> Vec<String> {
    items.iter().map(|item| item.to_string()).collect()
}

fn args() -> CreateArgs {
    CreateArgs {
        contract: ContractInfo {
            path: Some("src/Domains.sol".to_string()),
            name: "Domains".to_string(),
        },
        constructor_args: vec![],
        constructor_args_path: None,
        broadcast: false,
        verify: false,
        unlocked: false,
        show_standard_json_input: false,
        timeout: None,
        opts: CoreBuildArgs {
            libraries: strings(&["lib.sol:L:0x01"]),
            via_ir: true,
            compiler: CompilerArgs {
                evm_version: Some("paris".to_string()),
                optimize: None,
                optimizer_runs: Some(200),
                zk: ZkSyncArgs {
                    enabled: false,
                    paymaster_address: None,
                    paymaster_input: None,
                },
            },
        },
        tx: TransactionOpts {
            gas_limit: None,
            gas_price: None,
            priority_gas_price: None,
            value: None,
            nonce: None,
            legacy: false,
        },
        eth: EthereumOpts {
            etherscan: EtherscanOpts { key: Some(" ".to_string()), chain: None },
            etherscan_key: None,
            from: None,
        },
        verifier: VerifierArgs {
            verifier: "sourcify".to_string(),
            verifier_api_key: None,
            verifier_url: Some("http://localhost".to_string()),
        },
        retry: RetryArgs { retries: 10, delay: 30 },
        zk_gas_per_pubdata: None,
    }
}

fn bool_abi() -> JsonAbi {
    let parsed: alloy_json_abi::Constructor = serde_json::from_str(
        r#"{"type":"constructor","inputs":[{"name":"a","type":"bool","internalType":"bool"}],"stateMutability":"nonpayable"}"#,
    )
    .unwrap();
    JsonAbi { constructor: Some(Constructor { inputs: parsed.inputs }) }
}

fn no_input_abi() -> JsonAbi {
    JsonAbi { constructor: Some(Constructor { inputs: vec![] }) }
}

fn plain_abi() -> JsonAbi {
    JsonAbi { constructor: None }
}

fn id() -> ArtifactId {
    ArtifactId { version: "0.8.28".to_string(), profile: "default".to_string() }
}

fn one_encoded() -> Vec<u8> {
    let mut word = vec![0; 32];
    word[31] = 1;
    word
}

fn deployer_address() -> Address {
    Address {
        bytes: [
            0x5a, 0xae, 0xb6, 0x05, 0x3f, 0x3e, 0x94, 0xc9, 0xb9, 0xa0, 0x9f, 0x33, 0x66, 0x94,
            0x35, 0xe7, 0xef, 0x1b, 0xea, 0xed,
        ],
    }
}

fn receipt(contract_address: Option<Address>) -> Receipt {
    Receipt { transaction_hash: TxHash { bytes: [0xab; 32] }, contract_address }
}

fn transport_error() -> alloy_transport::TransportError {
    TransportErrorKind::custom_str("no node")
}

fn started(args: CreateArgs, chain: u64) -> AwaitingNonce<u8, (), ()> {
    started_as(args, chain, false)
}

fn started_as(args: CreateArgs, chain: u64, dry_run: bool) -> AwaitingNonce<u8, (), ()> {
    args.deploy(
        bool_abi(),
        BytecodeObject::Bytecode(vec![0x60, 0x80]),
        vec![DynSolValue::Bool(true)],
        7,
        chain,
        deployer_address(),
        120,
        id(),
        dry_run,
    )
    .unwrap()
}

fn priced(args: CreateArgs) -> AwaitingCheck<u8, (), ()> {
    priced_as(args, false)
}

fn priced_as(args: CreateArgs, dry_run: bool) -> AwaitingCheck<u8, (), ()> {
    started_as(args, 1, dry_run)
        .set_nonce(Some(3))
        .set_gas_limit(Some(21000))
        .set_fees(FeeReply::Eip1559(Eip1559Estimation {
            max_fee_per_gas: 50,
            max_priority_fee_per_gas: 2,
        }))
}

fn ready(args: CreateArgs) -> Ready<u8, (), ()> {
    priced(args).check().unwrap().0.checked::<()>(Ok(())).unwrap()
}

#[test]
fn the_input_is_bytecode_and_arguments() {
    let factory = Factory::new(bool_abi(), vec![0x60, 0x80], 7, 120);
    let deployer = factory.deploy_tokens(vec![DynSolValue::Bool(true)]).unwrap();
    let mut expected = vec![0x60, 0x80];
    expected.extend(one_encoded());
    assert_eq!(deployer.tx.input, Some(expected));
    assert_eq!(deployer.tx.to, None);
    assert_eq!(deployer.tx.nonce, None);
    assert_eq!((deployer.client, deployer.confs, deployer.timeout), (7, 1, 120));
    assert!(deployer.zk_factory_deps.is_none());
    assert!(deployer.zk_paymaster_params.is_none());
}

#[test]
fn values_are_read_back_from_the_input() {
    let constructor: alloy_json_abi::Constructor = serde_json::from_str(
        r#"{"type":"constructor","inputs":[{"name":"a","type":"bool","internalType":"bool"},{"name":"b","type":"string","internalType":"string"},{"name":"c","type":"uint256","internalType":"uint256"},{"name":"d","type":"bytes","internalType":"bytes"},{"name":"e","type":"address","internalType":"address"}],"stateMutability":"nonpayable"}"#,
    )
    .unwrap();
    let build = |text: &str| {
        let params = vec![
            DynSolValue::Bool(true),
            DynSolValue::String(text.to_string()),
            DynSolValue::Uint(alloy_primitives::U256::MAX, 256),
            DynSolValue::Bytes(vec![1; 33]),
            DynSolValue::Address(alloy_primitives::Address::repeat_byte(7)),
        ];
        let abi =
            JsonAbi { constructor: Some(Constructor { inputs: constructor.inputs.clone() }) };
        let deployer = Factory::new(abi, vec![1, 2, 3], 7, 0).deploy_tokens(params.clone());
        (params, deployer.unwrap().tx.input.unwrap())
    };
    let (params, input) = build("hello");
    assert_eq!(input[..3], [1, 2, 3]);
    assert_eq!(constructor.abi_decode_input(&input[3..], false).unwrap(), params);
    assert_ne!(build("hallo").1, input);
}

#[test]
fn no_arguments_give_the_bytecode_alone() {
    let plain = Factory::new(plain_abi(), vec![1, 2, 3], 7, 0);
    assert_eq!(plain.deploy_tokens(vec![]).unwrap().tx.input, Some(vec![1, 2, 3]));
    let built = Factory::new(no_input_abi(), vec![1, 2, 3], 7, 0);
    assert_eq!(built.deploy_tokens(vec![]).unwrap().tx.input, Some(vec![1, 2, 3]));
}

#[test]
fn arguments_without_constructor_are_refused() {
    let factory = Factory::new(plain_abi(), vec![1], 7, 0);
    let error = factory.deploy_tokens(vec![DynSolValue::Bool(true)]).unwrap_err();
    assert!(matches!(error, ContractDeploymentError::ConstructorError));
    assert_eq!(error.message(), "constructor is not defined in the ABI");
}

#[test]
fn arguments_that_do_not_match_are_refused() {
    let factory = Factory::new(bool_abi(), vec![1], 7, 0);
    let error = factory.deploy_tokens(vec![]).unwrap_err();
    assert!(matches!(error, ContractDeploymentError::DetokenizationError(_)));
    let text = match &error {
        ContractDeploymentError::DetokenizationError(e) => e.to_string(),
        other => panic!("{other:?}"),
    };
    assert_eq!(error.message(), text);
}

#[test]
fn encoded_arguments_are_appended() {
    let factory = Factory::new(plain_abi(), vec![1], 7, 0);
    let deployer = factory.clone().deploy_encoded(Ok(vec![2, 3])).unwrap();
    assert_eq!(deployer.tx.input, Some(vec![1, 2, 3]));
    let error = alloy_dyn_abi::DynSolType::Bool.coerce_str("x").unwrap_err();
    assert!(matches!(
        factory.deploy_encoded(Err(error)),
        Err(ContractDeploymentError::DetokenizationError(_))
    ));
}

#[test]
fn a_shared_client_is_cloned() {
    let client = Arc::new(());
    let factory: ContractFactory<(), ()> =
        ContractFactory::new(plain_abi(), vec![1], client.clone(), 0);
    let deployer = factory.deploy_tokens(vec![]).unwrap();
    assert!(Arc::ptr_eq(&deployer.client, &client));
}

#[test]
fn copies_say_the_same() {
    let factory = Factory::new(bool_abi(), vec![1, 2], 7, 9);
    let copy = factory.clone();
    assert_eq!((copy.client, copy.bytecode.clone(), copy.timeout), (7, vec![1, 2], 9));
    let inputs = &copy.abi.constructor.as_ref().unwrap().inputs;
    assert_eq!(inputs, &bool_abi().constructor.unwrap().inputs);
    let mut deployer = copy.deploy_tokens(vec![DynSolValue::Bool(false)]).unwrap();
    deployer.confs = 4;
    deployer.zk_factory_deps = Some(vec![vec![1], vec![2]]);
    deployer.zk_paymaster_params = Some(PaymasterParams {
        paymaster: Address { bytes: [8; 20] },
        paymaster_input: vec![5],
    });
    let tx: ContractDeploymentTx<u8, (), (), String> = ContractDeploymentTx::from(deployer);
    let other = tx.clone().deployer;
    assert_eq!(other.tx.input, tx.deployer.tx.input);
    assert_eq!((other.client, other.confs, other.timeout), (7, 4, 9));
    assert_eq!(other.zk_factory_deps, Some(vec![vec![1], vec![2]]));
    let paymaster = other.zk_paymaster_params.unwrap();
    assert_eq!(paymaster.paymaster, Address { bytes: [8; 20] });
    assert_eq!(paymaster.paymaster_input, vec![5]);
}

#[test]
fn a_receipt_tells_where_the_contract_is() {
    let new = || -> Deployer<u8, (), ()> {
        Factory::new(plain_abi(), vec![1], 7, 60).deploy_tokens(vec![]).unwrap()
    };
    let waiting = new().waiting();
    assert_eq!((waiting.required_confirmations, waiting.timeout), (1, Some(60)));
    let contract = Address { bytes: [9; 20] };
    let (address, receipt_back) = new().send_with_receipt(Ok(receipt(Some(contract)))).unwrap();
    assert_eq!(address, contract);
    assert_eq!(receipt_back.transaction_hash, TxHash { bytes: [0xab; 32] });
    let error = new().send_with_receipt(Ok(receipt(None))).unwrap_err();
    assert!(matches!(error, ContractDeploymentError::ContractNotDeployed));
    assert_eq!(error.message(), "contract was not deployed");
    let error = new()
        .send_with_receipt(Err(SendError::Pending(PendingTransactionError::FailedToRegister)))
        .unwrap_err();
    assert!(matches!(error, ContractDeploymentError::ContractNotDeployed));
    let error = new().send_with_receipt(Err(SendError::Transport(transport_error()))).unwrap_err();
    assert!(matches!(error, ContractDeploymentError::RpcError(_)));
    assert_eq!(error.message(), transport_error().to_string());
}

#[test]
fn errors_are_converted() {
    let abi = alloy_dyn_abi::DynSolType::Bool.coerce_str("x").unwrap_err();
    assert!(matches!(
        ContractDeploymentError::from(abi),
        ContractDeploymentError::DetokenizationError(_)
    ));
    assert!(matches!(
        ContractDeploymentError::from(transport_error()),
        ContractDeploymentError::RpcError(_)
    ));
    assert!(matches!(
        ContractDeploymentError::from(PendingTransactionError::FailedToRegister),
        ContractDeploymentError::ContractNotDeployed
    ));
}

#[test]
fn a_deployment_starts_with_sender_chain_and_creation() {
    let start = started(args(), 1);
    let tx = &start.deployment().deployer.tx;
    assert_eq!(tx.from, Some(deployer_address()));
    assert_eq!(tx.chain_id, Some(1));
    assert_eq!(tx.to, Some(TxKind::Create));
    assert!(!start.deployment().legacy);
}

#[test]
fn a_failed_build_is_told() {
    let build = |abi: JsonAbi, params: Vec<DynSolValue>| -> DeployError {
        let started: Result<AwaitingNonce<u8, (), ()>, DeployError> = args().deploy(
            abi,
            BytecodeObject::Bytecode(vec![1]),
            params,
            7,
            1,
            deployer_address(),
            0,
            id(),
            false,
        );
        started.unwrap_err()
    };
    assert_eq!(
        build(plain_abi(), vec![DynSolValue::Bool(true)]).messages(),
        strings(&["failed to deploy contract", "constructor is not defined in the ABI"])
    );
    let messages = build(bool_abi(), vec![]).messages();
    assert_eq!(messages.len(), 3);
    assert_eq!(
        messages[0],
        "no arguments provided for contract constructor; consider --constructor-args or --constructor-args-path"
    );
    assert_eq!(messages[1], "failed to deploy contract");
}

#[test]
fn replies_fill_the_transaction() {
    let start = started(args(), 1);
    assert_eq!(start.query(), Some(deployer_address()));
    let next = start.set_nonce(Some(3));
    assert_eq!(next.query().unwrap().nonce, Some(3));
    let next = next.set_gas_limit(Some(21000));
    assert_eq!(next.query(), FeeQuery::Eip1559);
    let next = next.set_fees(FeeReply::Eip1559(Eip1559Estimation {
        max_fee_per_gas: 50,
        max_priority_fee_per_gas: 2,
    }));
    let tx = &next.deployment().deployer.tx;
    assert_eq!(tx.nonce, Some(3));
    assert_eq!(tx.value, None);
    assert_eq!(tx.gas, Some(21000));
    assert_eq!(tx.gas_price, None);
    assert_eq!(tx.max_fee_per_gas, Some(50));
    assert_eq!(tx.max_priority_fee_per_gas, Some(2));
}

#[test]
fn given_options_win_over_replies() {
    let mut args = args();
    args.tx.nonce = Some(U256::from_u128(11));
    args.tx.value = Some(U256::from_u128(5));
    args.tx.gas_limit = Some(U256::from_u128(30000));
    args.tx.gas_price = Some(U256::from_u128(99));
    args.tx.priority_gas_price = Some(U256::from_u128(1));
    let start = started(args, 1);
    assert_eq!(start.query(), None);
    let next = start.set_nonce(None);
    assert!(next.query().is_none());
    let next = next.set_gas_limit(None);
    // Fees are estimated even so.
    assert_eq!(next.query(), FeeQuery::Eip1559);
    let next = next.set_fees(FeeReply::Eip1559(Eip1559Estimation {
        max_fee_per_gas: 50,
        max_priority_fee_per_gas: 2,
    }));
    let tx = &next.deployment().deployer.tx;
    assert_eq!(tx.nonce, Some(11));
    assert_eq!(tx.value, Some(U256::from_u128(5)));
    assert_eq!(tx.gas, Some(30000));
    assert_eq!(tx.max_fee_per_gas, Some(99));
    assert_eq!(tx.max_priority_fee_per_gas, Some(1));
}

#[test]
fn a_legacy_transaction_has_a_gas_price_alone() {
    let mut legacy = args();
    legacy.tx.legacy = true;
    legacy.tx.priority_gas_price = Some(U256::from_u128(1));
    let next = started(legacy, 1).set_nonce(Some(0)).set_gas_limit(Some(1));
    assert_eq!(next.query(), FeeQuery::GasPrice);
    let next = next.set_fees(FeeReply::GasPrice(77));
    let tx = &next.deployment().deployer.tx;
    assert_eq!(tx.gas_price, Some(77));
    assert_eq!(tx.max_fee_per_gas, None);
    assert_eq!(tx.max_priority_fee_per_gas, None);

    let mut given = args();
    given.tx.legacy = true;
    given.tx.gas_price = Some(U256::from_u128(88));
    let next = started(given, 1).set_nonce(Some(0)).set_gas_limit(Some(1));
    assert_eq!(next.query(), FeeQuery::Nothing);
    let next = next.set_fees(FeeReply::Nothing);
    let tx = &next.deployment().deployer.tx;
    assert_eq!(tx.gas_price, Some(88));
}

#[test]
fn some_chains_take_legacy_transactions_only() {
    // The BNB Smart Chain is one of them.
    assert!(started(args(), 56).deployment().legacy);
    assert!(!started(args(), 1).deployment().legacy);
    assert!(!started(args(), 424242).deployment().legacy);
}

#[test]
fn failed_fee_estimation_hints_at_legacy() {
    assert_eq!(
        fee_estimation_failure(),
        "Failed to estimate EIP1559 fees. This chain might not support EIP1559, try adding --legacy to your command."
    );
}

#[test]
fn nothing_is_checked_unless_the_contract_is_verified() {
    let (next, verify) = priced(args()).check().unwrap();
    assert!(verify.is_none());
    assert_eq!(next.checked::<()>(Ok(())).unwrap().constructor_args(), &None);
}

fn hex_of_one() -> String {
    format!("0x{}1", "0".repeat(63))
}

#[test]
fn the_verify_settings_are_checked_before_the_deployment() {
    let mut args = args();
    args.verify = true;
    args.opts.compiler.optimize = Some(true);
    let (next, verify) = priced(args).check().unwrap();
    let ready = next.checked::<()>(Ok(())).unwrap();
    assert_eq!(ready.constructor_args(), &Some(hex_of_one()));
    let verify: VerifyArgs = verify.unwrap();
    assert_eq!(verify.address, Address::zero());
    assert_eq!(verify.address.bytes, [0; 20]);
    assert_eq!(verify.contract.as_ref().unwrap().name, "Domains");
    assert_eq!(verify.contract.as_ref().unwrap().path, Some("src/Domains.sol".to_string()));
    assert_eq!(verify.compiler_version, Some("0.8.28".to_string()));
    assert_eq!(verify.compilation_profile, Some("default".to_string()));
    assert_eq!(verify.constructor_args, Some(hex_of_one()));
    assert_eq!(verify.constructor_args_path, None);
    assert_eq!(verify.num_of_optimizations, None);
    assert_eq!(verify.etherscan.key, Some(" ".to_string()));
    assert_eq!(verify.etherscan.chain, Some(1));
    assert!(!verify.flatten && !verify.force && !verify.guess_constructor_args);
    assert!(verify.skip_is_verified_check && verify.watch && verify.via_ir);
    assert_eq!((verify.retry.retries, verify.retry.delay), (10, 30));
    assert_eq!(verify.libraries, strings(&["lib.sol:L:0x01"]));
    assert_eq!(verify.root, None);
    assert_eq!(verify.verifier.verifier, "sourcify");
    assert_eq!(verify.verifier.verifier_url, Some("http://localhost".to_string()));
    assert_eq!(verify.evm_version, Some("paris".to_string()));
    assert!(!verify.zksync && !verify.show_standard_json_input);
    assert_eq!(verify.compiler(), VerificationCompiler::Solc);
    assert_eq!(
        verify.waiting_line(),
        "Waiting for sourcify to detect contract deployment..."
    );
    let keyed = verify.with_configured_key(Some("key".to_string()));
    assert_eq!(keyed.etherscan.key, Some("key".to_string()));
    assert_eq!(keyed.etherscan.chain, Some(1));
}

#[test]
fn arguments_to_verify_are_the_bytes_behind_the_bytecode() {
    let mut args = args();
    args.verify = true;
    let ready = ready(args);
    let input = ready.deployment().deployer.tx.input.clone().unwrap();
    let appended: String = input[2..].iter().map(|byte| format!("{byte:02x}")).collect();
    assert_eq!(ready.constructor_args(), &Some(format!("0x{appended}")));
}

#[test]
fn arguments_to_verify_need_a_constructor() {
    let mut args = args();
    args.verify = true;
    let error = args
        .constructor_args_to_verify(&plain_abi(), &vec![DynSolValue::Bool(true)])
        .unwrap_err();
    assert!(matches!(error, DeployError::NoConstructor));
    assert_eq!(error.messages(), strings(&["could not find constructor"]));
    let error = args
        .constructor_args_to_verify(&no_input_abi(), &vec![DynSolValue::Bool(true)])
        .unwrap_err();
    assert!(matches!(error, DeployError::Encoding(_)));
    assert_eq!(error.messages().len(), 1);
    assert_eq!(args.constructor_args_to_verify(&plain_abi(), &vec![]).unwrap(), None);
    args.verify = false;
    let unchecked = args.constructor_args_to_verify(&plain_abi(), &vec![DynSolValue::Bool(true)]);
    assert_eq!(unchecked.unwrap(), None);
}

#[test]
fn encoded_arguments_are_written_in_hexadecimal() {
    assert_eq!(hex_args(Ok(vec![])).unwrap(), "0x");
    assert_eq!(hex_args(Ok(vec![0, 0xaf, 0x10])).unwrap(), "0x00af10");
}

#[test]
fn a_dry_run_is_only_shown() {
    let (next, _) = priced_as(args(), true).check().unwrap();
    let dry = next.checked::<()>(Ok(())).unwrap();
    assert_eq!(dry.outcome(), Outcome::Show);
    let shown = dry.dry_run("[abi]").unwrap();
    assert_eq!(shown.warning, "Dry run enabled, not broadcasting transaction\n");
    assert_eq!(
        shown.hint,
        "To broadcast this transaction, add --broadcast to the previous command. See forge create --help for more."
    );
    assert_eq!(shown.lines.len(), 3);
    assert_eq!(shown.lines[0], "Contract: Domains");
    assert_eq!(shown.lines[2], "ABI: [abi]\n");
    let json: serde_json::Value =
        serde_json::from_str(shown.lines[1].strip_prefix("Transaction: ").unwrap()).unwrap();
    assert_eq!(json["from"], "0x5aaeb6053f3e94c9b9a09f33669435e7ef1beaed");
    assert_eq!(json["nonce"], "0x3");
    assert_eq!(json["gas"], "0x5208");
    assert_eq!(json["maxFeePerGas"], "0x32");
    assert_eq!(json["maxPriorityFeePerGas"], "0x2");
    assert_eq!(json["chainId"], "0x1");
    assert_eq!(json["input"], format!("0x6080{}1", "0".repeat(63)));
    assert!(json.get("gasPrice").is_none());
    assert_eq!(ready(args()).outcome(), Outcome::Broadcast);
}

#[test]
fn a_transaction_is_written_as_json() {
    let tx = TransactionRequest {
        to: Some(TxKind::Call(deployer_address())),
        value: Some(U256 { high: 1, low: 2 }),
        gas_price: Some(255),
        ..TransactionRequest::with_input(vec![0xab])
    };
    let json: serde_json::Value = serde_json::from_str(&tx.to_json().unwrap()).unwrap();
    assert_eq!(json["to"], "0x5aaeb6053f3e94c9b9a09f33669435e7ef1beaed");
    assert_eq!(json["value"], format!("0x1{}2", "0".repeat(31)));
    assert_eq!(json["gasPrice"], "0xff");
    assert_eq!(json["input"], "0xab");
    assert_eq!(json.as_object().unwrap().len(), 4);
}

#[test]
fn a_dry_run_shows_what_it_is_given() {
    let shown = DryRun::new("C", "{tx}", "[abi]");
    assert_eq!(shown.lines, strings(&["Contract: C", "Transaction: {tx}", "ABI: [abi]\n"]));
}

#[test]
fn a_failed_check_leaves_nothing_to_send() {
    let mut args = args();
    args.verify = true;
    let (next, verify) = priced(args).check().unwrap();
    assert!(verify.is_some());
    assert_eq!(next.checked(Err("no key")).err(), Some("no key"));
}

#[test]
fn a_deployed_contract_is_reported() {
    let contract = Address { bytes: [0x11; 20] };
    let deployed = ready(args()).sent(Ok(receipt(Some(contract)))).unwrap();
    assert!(deployed.verify.is_none());
    assert_eq!(
        deployed.report().lines(),
        vec![
            "Deployer: 0x5aAeb6053F3E94C9b9A09f33669435E7Ef1BeAed".to_string(),
            format!("Deployed to: 0x{}", "11".repeat(20)),
            format!("Transaction hash: 0x{}", "ab".repeat(32)),
        ]
    );
}

#[test]
fn a_deployed_contract_is_verified_with_its_address() {
    let contract = Address { bytes: [0x11; 20] };
    let mut args = args();
    args.verify = true;
    args.opts.compiler.optimize = Some(true);
    args.eth.etherscan_key = Some("used".to_string());
    let verify = ready(args).sent(Ok(receipt(Some(contract)))).unwrap().verify.unwrap();
    assert_eq!(verify.address, contract);
    assert_eq!(verify.num_of_optimizations, Some(200));
    assert_eq!(verify.etherscan.key, Some("used".to_string()));
    assert_eq!(verify.constructor_args, Some(hex_of_one()));
    assert_eq!(verify.compiler_version, Some("0.8.28".to_string()));
    assert_eq!(verify.compilation_profile, Some("default".to_string()));
}

#[test]
fn the_checked_request_is_the_one_made() {
    let mut args = args();
    args.verify = true;
    let (next, checked) = priced(args).check().unwrap();
    let ready = next.checked::<()>(Ok(())).unwrap();
    let checked = checked.unwrap();
    let contract = Address { bytes: [0x11; 20] };
    let made = ready.sent(Ok(receipt(Some(contract)))).unwrap().verify.unwrap();
    assert_eq!(made.contract.unwrap().name, checked.contract.unwrap().name);
    assert_eq!(made.constructor_args, checked.constructor_args);
    assert_eq!(made.etherscan.chain, checked.etherscan.chain);
    assert_eq!(made.libraries, checked.libraries);
    assert_eq!(made.retry.retries, checked.retry.retries);
    assert_eq!(made.verifier.verifier, checked.verifier.verifier);
    assert_eq!(made.evm_version, checked.evm_version);
    assert_eq!(made.via_ir, checked.via_ir);
    assert_eq!(made.zksync, checked.zksync);
}

#[test]
fn steps_change_the_transaction_alone() {
    let last = started_as(args(), 5, true)
        .set_nonce(Some(3))
        .set_gas_limit(Some(21000))
        .set_fees(FeeReply::Eip1559(Eip1559Estimation {
            max_fee_per_gas: 50,
            max_priority_fee_per_gas: 2,
        }));
    let end = last.deployment();
    assert!(end.dry_run);
    assert_eq!(end.chain, 5);
    assert_eq!(end.deployer_address, deployer_address());
    assert_eq!(end.params, vec![DynSolValue::Bool(true)]);
    assert_eq!((end.deployer.client, end.deployer.confs, end.deployer.timeout), (7, 1, 120));
}

#[test]
fn a_legacy_transaction_ignores_a_large_priority_fee() {
    let mut legacy = args();
    legacy.tx.legacy = true;
    legacy.tx.priority_gas_price = Some(U256 { high: 1, low: 0 });
    let next = started(legacy, 1).set_nonce(Some(0)).set_gas_limit(Some(1));
    let next = next.set_fees(FeeReply::GasPrice(77));
    let tx = &next.deployment().deployer.tx;
    assert_eq!(tx.gas_price, Some(77));
    assert_eq!(tx.max_priority_fee_per_gas, None);
}

#[test]
fn optimizer_runs_need_the_optimizer() {
    for optimize in [None, Some(false)] {
        let mut args = args();
        args.opts.compiler.optimize = optimize;
        let verify = args.verify_deployed(Address::zero(), None, 1, None);
        assert_eq!(verify.num_of_optimizations, None);
        assert_eq!(verify.compiler_version, None);
        assert_eq!(verify.compilation_profile, None);
    }
}

#[test]
fn a_failed_deployment_is_not_verified() {
    let mut args = args();
    args.verify = true;
    let error = ready(args).sent(Ok(receipt(None))).unwrap_err();
    assert!(matches!(error, ContractDeploymentError::ContractNotDeployed));
}

fn evm_run(args: CreateArgs) -> Step<EvmRun> {
    match args.run() {
        Run::Evm(run) => run,
        other => panic!("{other:?}"),
    }
}

fn parsed(args: CreateArgs) -> Step<EvmParsed> {
    let output = EvmOutput {
        abi: bool_abi(),
        bytecode: EvmBytecode {
            object: BytecodeObject::Bytecode(vec![1, 2]),
            link_references: vec![],
        },
        id: id(),
    };
    let linked = evm_run(args).compiled(output).unwrap();
    assert!(matches!(linked.args_source(), ArgsSource::CommandLine));
    linked.parse(None).unwrap()
}

#[test]
fn a_run_leads_to_a_dry_deployment_unless_it_broadcasts() {
    for broadcast in [false, true] {
        let mut args = args();
        args.broadcast = broadcast;
        args.constructor_args = strings(&["true"]);
        let parsed = parsed(args);
        assert!(parsed.needs_chain_id() && parsed.needs_signer());
        let next: AwaitingNonce<u8, (), ()> =
            parsed.deploy(7, Some(5), Some(deployer_address()), 60).unwrap();
        assert_eq!(next.deployment().dry_run, !broadcast);
        assert_eq!(next.deployment().chain, 5);
        assert_eq!(next.deployment().deployer.timeout, 60);
        let mut input = vec![1, 2];
        input.extend(one_encoded());
        assert_eq!(next.deployment().deployer.tx.input, Some(input));
        assert_eq!(next.deployment().deployer.tx.from, Some(deployer_address()));
    }
}

#[test]
fn a_run_takes_the_unlocked_sender_and_the_given_chain() {
    let mut args = args();
    args.unlocked = true;
    args.eth.from = Some(Address { bytes: [4; 20] });
    args.eth.etherscan.chain = Some(56);
    args.constructor_args = strings(&["false"]);
    let parsed = parsed(args);
    assert!(!parsed.needs_chain_id() && !parsed.needs_signer());
    let next: AwaitingNonce<u8, (), ()> = parsed.deploy(7, None, None, 60).unwrap();
    assert_eq!(next.deployment().chain, 56);
    assert_eq!(next.deployment().deployer_address, Address { bytes: [4; 20] });
    assert!(next.deployment().legacy);
}

#[test]
fn a_run_with_unlinked_bytecode_ends() {
    let output = EvmOutput {
        abi: bool_abi(),
        bytecode: EvmBytecode {
            object: BytecodeObject::Unlinked(String::new()),
            link_references: vec![LinkReference {
                path: "a.sol".to_string(),
                names: strings(&["A"]),
            }],
        },
        id: id(),
    };
    let error = evm_run(args()).compiled(output).unwrap_err();
    assert!(matches!(error, RunError::Unlinked(_)));
    let messages = error.messages();
    assert_eq!(messages.len(), 1);
    assert!(messages[0].ends_with("link at compile time\n\tA: a.sol"));
}

#[test]
fn a_run_with_bad_arguments_ends() {
    let mut args = args();
    args.constructor_args = strings(&["maybe"]);
    let output = EvmOutput {
        abi: bool_abi(),
        bytecode: EvmBytecode {
            object: BytecodeObject::Bytecode(vec![1]),
            link_references: vec![],
        },
        id: id(),
    };
    let error = evm_run(args).compiled(output).unwrap().parse(None).unwrap_err();
    assert!(matches!(error, RunError::ConstructorArgs(_)));
    assert_eq!(error.messages().len(), 1);
}
