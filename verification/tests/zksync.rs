//! Deployments on ZKsync.

use alloy_dyn_abi::DynSolValue;
use alloy_network::TransactionBuilder;
use alloy_zksync::network::transaction_request::TransactionRequest as AlloyRequest;
use alloy_zksync::network::tx_type::TxType;
use forge_create::abi::{Constructor, JsonAbi};
use forge_create::args::{
    ArtifactId, CompilerArgs, ContractInfo, CoreBuildArgs, CreateArgs, EthereumOpts,
    EtherscanOpts, RetryArgs, TransactionOpts, VerifierArgs, ZkSyncArgs,
};
use forge_create::deploy::{DeployError, Outcome};
use forge_create::deploy_zk::{FeeEstimation, ZkAwaitingNonce};
use forge_create::factory::{
    encoded_or_none, ContractDeploymentError, DeploymentTxFactory, Receipt, ZkSyncData,
};
use forge_create::factory_deps::{FactoryDep, FactoryDepArtifact, Fault};
use forge_create::linking::{BytecodeObject, ZkBytecode};
use forge_create::primitives::{Address, TxHash, U256};
use forge_create::run::{Run, Step, ZkOutput, ZkParsed};
use forge_create::tx::{PaymasterParams, TxKind, ZkTransactionRequest};
use forge_create::verify::VerificationCompiler;

type Factory = DeploymentTxFactory<u8, (), ()>;

fn args() -> CreateArgs {
    CreateArgs {
        contract: ContractInfo { path: None, name: "Domains".to_string() },
        constructor_args: vec![],
        constructor_args_path: None,
        broadcast: false,
        verify: false,
        unlocked: false,
        show_standard_json_input: true,
        timeout: None,
        opts: CoreBuildArgs {
            libraries: vec![],
            via_ir: false,
            compiler: CompilerArgs {
                evm_version: None,
                optimize: Some(true),
                optimizer_runs: None,
                zk: ZkSyncArgs {
                    enabled: true,
                    paymaster_address: None,
                    paymaster_input: None,
                },
            },
        },
        tx: TransactionOpts {
            gas_limit: None,
            gas_price: None,
            priority_gas_price: None,
            value: None,
            nonce: None,
            legacy: false,
        },
        eth: EthereumOpts {
            etherscan: EtherscanOpts { key: None, chain: Some(324) },
            etherscan_key: None,
            from: None,
        },
        verifier: VerifierArgs {
            verifier: "zksync".to_string(),
            verifier_api_key: None,
            verifier_url: None,
        },
        retry: RetryArgs { retries: 5, delay: 5 },
        zk_gas_per_pubdata: Some(800),
    }
}

fn bool_abi() -> JsonAbi {
    let parsed: alloy_json_abi::Constructor = serde_json::from_str(
        r#"{"type":"constructor","inputs":[{"name":"a","type":"bool","internalType":"bool"}],"stateMutability":"nonpayable"}"#,
    )
    .unwrap();
    JsonAbi { constructor: Some(Constructor { inputs: parsed.inputs }) }
}

fn plain_abi() -> JsonAbi {
    JsonAbi { constructor: None }
}

fn id() -> ArtifactId {
    ArtifactId { version: "1.5.7".to_string(), profile: "default".to_string() }
}

fn sender() -> Address {
    Address { bytes: [6; 20] }
}

fn contract_deployer() -> Address {
    let mut bytes = [0; 20];
    bytes[18] = 0x80;
    bytes[19] = 0x06;
    Address { bytes }
}

fn data(code: Vec<u8>) -> ZkSyncData {
    ZkSyncData { bytecode: code, ..Default::default() }
}

fn to_alloy(tx: &ZkTransactionRequest) -> AlloyRequest {
    let mut request = AlloyRequest::default();
    if let Some(TxKind::Call(to)) = tx.base.to {
        request.set_to(alloy_primitives::Address::new(to.bytes));
    }
    if let Some(input) = &tx.base.input {
        request.set_input(input.clone());
    }
    if let Some(meta) = &tx.eip712_meta {
        request.set_factory_deps(meta.factory_deps.iter().map(|dep| dep.clone().into()).collect());
    }
    request
}

#[test]
fn test_zk_deployer_builds_eip712_transactions() {
    let factory = Factory::new_zk(plain_abi(), Default::default(), 7, 0);

    let deployer = factory
        .deploy_tokens_zk(
            Default::default(),
            &ZkSyncData { bytecode: [0u8; 32].into(), ..Default::default() },
        )
        .expect("failed deploying tokens");

    assert_eq!(TxType::Eip712, to_alloy(&deployer.tx).output_tx_type());
}

#[test]
fn a_zk_transaction_calls_the_contract_deployer() {
    let zk_data = ZkSyncData {
        bytecode: vec![10; 32],
        factory_deps: vec![vec![1], vec![2]],
        paymaster_params: None,
    };
    let factory = Factory::new_zk(bool_abi(), vec![], 7, 33);
    let deployer = factory.deploy_tokens_zk(vec![DynSolValue::Bool(true)], &zk_data).unwrap();
    assert_eq!(deployer.tx.base.to, Some(TxKind::Call(contract_deployer())));
    let meta = deployer.tx.eip712_meta.as_ref().unwrap();
    assert_eq!(meta.factory_deps, vec![vec![1], vec![2], vec![10; 32]]);
    assert_eq!(meta.gas_per_pubdata, U256::from_u128(0));
    assert!(meta.paymaster_params.is_none());
    assert_eq!((deployer.client, deployer.confs, deployer.timeout), (7, 1, 33));
    let waiting = deployer.waiting();
    assert_eq!((waiting.required_confirmations, waiting.timeout), (1, Some(33)));
    // The call's selector, an empty salt, the bytecode's hash, and the arguments.
    let input = deployer.tx.base.input.clone().unwrap();
    assert_eq!(input.len(), 4 + 5 * 32);
    assert_eq!(input[4..36], [0; 32]);
    assert_eq!(
        alloy_primitives::hex::encode(&input[36..68]),
        "01000001e7718454476f04edeb935022ae4f4d90934ab7ce913ff20c8baeb399"
    );
    assert_eq!(input[131], 32);
    assert_eq!(input[163], 1);
    let copy = deployer.clone();
    assert_eq!(copy.tx.base.input, Some(input));
    assert_eq!(copy.tx.eip712_meta.unwrap().factory_deps.len(), 3);
    assert_eq!((copy.client, copy.confs, copy.timeout), (7, 1, 33));
}

#[test]
fn arguments_that_cannot_be_encoded_are_refused_on_zksync() {
    let zk_data = data(vec![10; 32]);
    let values = vec![DynSolValue::String("x".to_string())];
    let error = Factory::new_zk(bool_abi(), vec![], 7, 0)
        .deploy_tokens_zk(values, &zk_data)
        .unwrap_err();
    assert!(matches!(error, ContractDeploymentError::DetokenizationError(_)));
    let many = vec![DynSolValue::Bool(true), DynSolValue::Bool(true)];
    let error = Factory::new_zk(bool_abi(), vec![], 7, 0)
        .deploy_tokens_zk(many, &zk_data)
        .unwrap_err();
    assert!(matches!(error, ContractDeploymentError::DetokenizationError(_)));
}

#[test]
fn no_arguments_are_encoded_to_nothing_on_zksync() {
    let zk_data = data(vec![10; 32]);
    let declared = Factory::new_zk(bool_abi(), vec![], 7, 0)
        .deploy_tokens_zk(vec![], &zk_data)
        .unwrap();
    let plain = Factory::new_zk(plain_abi(), vec![], 7, 0)
        .deploy_tokens_zk(vec![], &zk_data)
        .unwrap();
    assert_eq!(declared.tx.base.input, plain.tx.base.input);
    let error = || alloy_dyn_abi::DynSolType::Bool.coerce_str("x").unwrap_err();
    assert_eq!(encoded_or_none(Err(error()), true).unwrap(), Vec::<u8>::new());
    assert!(encoded_or_none(Err(error()), false).is_err());
    assert_eq!(encoded_or_none(Ok(vec![4]), false).unwrap(), vec![4]);
}

#[test]
fn arguments_without_constructor_are_refused_on_zksync() {
    let error = Factory::new_zk(plain_abi(), vec![], 7, 0)
        .deploy_tokens_zk(vec![DynSolValue::Bool(true)], &data(vec![1]))
        .unwrap_err();
    assert!(matches!(error, ContractDeploymentError::ConstructorError));
}

#[test]
fn only_odd_numbers_of_words_are_zk_bytecode() {
    let build = |code: Vec<u8>| {
        Factory::new_zk(plain_abi(), vec![], 7, 0).deploy_tokens_zk(vec![], &data(code))
    };
    for len in [32, 96, 65535 * 32] {
        assert!(build(vec![0; len]).is_ok());
    }
    for len in [0, 1, 31, 33, 64, 65537 * 32] {
        let error = build(vec![0; len]).unwrap_err();
        assert!(matches!(error, ContractDeploymentError::TransactionBuildError));
        assert_eq!(error.message(), "failed building transaction");
    }
}

fn started(args: CreateArgs, zk_data: ZkSyncData) -> ZkAwaitingNonce<u8, (), ()> {
    args.deploy_zk(
        bool_abi(),
        BytecodeObject::Bytecode(zk_data.bytecode.clone()),
        vec![DynSolValue::Bool(true)],
        7,
        324,
        sender(),
        60,
        id(),
        zk_data,
    )
    .unwrap()
}

#[test]
fn a_zk_deployment_makes_exactly_its_dependencies_known() {
    let zk_data = ZkSyncData {
        bytecode: vec![10; 32],
        factory_deps: vec![vec![1], vec![10; 32]],
        paymaster_params: Some(PaymasterParams {
            paymaster: Address { bytes: [3; 20] },
            paymaster_input: vec![1, 2],
        }),
    };
    let start = started(args(), zk_data);
    let tx = &start.deployment().deployer.tx;
    let meta = tx.eip712_meta.as_ref().unwrap();
    assert_eq!(meta.factory_deps, vec![vec![1], vec![10; 32]]);
    let paymaster = meta.paymaster_params.as_ref().unwrap();
    assert_eq!(paymaster.paymaster, Address { bytes: [3; 20] });
    assert_eq!(paymaster.paymaster_input, vec![1, 2]);
    assert_eq!(tx.base.to, Some(TxKind::Call(contract_deployer())));
    assert_eq!(tx.base.from, Some(sender()));
    assert_eq!(tx.base.chain_id, Some(324));
}

#[test]
fn a_zk_deployment_that_cannot_be_built_is_told() {
    let started: Result<ZkAwaitingNonce<u8, (), ()>, DeployError> = args().deploy_zk(
        plain_abi(),
        BytecodeObject::Bytecode(vec![1]),
        vec![],
        7,
        324,
        sender(),
        60,
        id(),
        data(vec![1]),
    );
    let messages = started.unwrap_err().messages();
    assert_eq!(messages.len(), 3);
    assert_eq!(messages[1], "failed to deploy contract");
    assert_eq!(messages[2], "failed building transaction");
}

#[test]
fn zk_replies_fill_the_transaction() {
    let start = started(args(), data(vec![10; 32]));
    assert_eq!(start.query(), Some(sender()));
    let next = start.set_nonce(Some(8));
    assert!(next.query());
    let next = next.set_gas_price(Some(25));
    assert_eq!(next.query(), FeeEstimation { multiplier: 130, gas_per_pubdata: Some(800) });
    let mut estimated = next.deployment().deployer.tx.clone();
    assert_eq!(estimated.base.nonce, Some(8));
    assert_eq!(estimated.base.gas_price, Some(25));
    estimated.base.gas = Some(1_000_000);
    estimated.base.max_fee_per_gas = Some(30);
    let next = next.set_estimated(estimated);
    let tx = &next.deployment().deployer.tx;
    assert_eq!(tx.base.gas, Some(1_000_000));
    assert_eq!(tx.base.max_fee_per_gas, Some(30));
    assert_eq!(tx.base.value, None);
}

#[test]
fn given_options_win_over_zk_replies() {
    let mut args = args();
    args.tx.nonce = Some(U256::from_u128(1));
    args.tx.value = Some(U256::from_u128(2));
    args.tx.gas_price = Some(U256::from_u128(3));
    args.tx.gas_limit = Some(U256::from_u128(4));
    let start = started(args, data(vec![10; 32]));
    assert_eq!(start.query(), None);
    let next = start.set_nonce(None);
    assert!(!next.query());
    let next = next.set_gas_price(None);
    let mut estimated = next.deployment().deployer.tx.clone();
    estimated.base.gas = Some(1_000_000);
    let next = next.set_estimated(estimated);
    let tx = &next.deployment().deployer.tx;
    assert_eq!(tx.base.nonce, Some(1));
    assert_eq!(tx.base.value, Some(U256::from_u128(2)));
    assert_eq!(tx.base.gas_price, Some(3));
    assert_eq!(tx.base.gas, Some(4));
}

#[test]
fn a_zk_contract_is_verified_without_its_compilation() {
    let mut args = args();
    args.verify = true;
    args.broadcast = true;
    let next = started(args, data(vec![10; 32])).set_nonce(Some(0)).set_gas_price(Some(1));
    let estimated = next.deployment().deployer.tx.clone();
    let (next, checked) = next.set_estimated(estimated).check().unwrap();
    let ready = next.checked::<()>(Ok(())).unwrap();
    let checked = checked.unwrap();
    assert_eq!(checked.compiler(), VerificationCompiler::ZkSolc);
    assert_eq!(checked.compiler_version, Some("1.5.7".to_string()));
    assert!(checked.show_standard_json_input);
    let contract = Address { bytes: [1; 20] };
    let deployed = ready
        .sent(Ok(Receipt {
            transaction_hash: TxHash { bytes: [2; 32] },
            contract_address: Some(contract),
        }))
        .unwrap();
    assert_eq!(deployed.deployed_to, contract);
    assert_eq!(deployed.deployer, sender());
    let verify = deployed.verify.unwrap();
    assert_eq!(verify.address, contract);
    assert_eq!(verify.compiler_version, None);
    assert_eq!(verify.compilation_profile, None);
    assert_eq!(verify.constructor_args, checked.constructor_args);
    assert!(verify.zksync);
}

fn parsed(args: CreateArgs, roots: &[&str], deps: Vec<FactoryDep>) -> Step<ZkParsed> {
    let run = match args.run() {
        Run::Zk(run) => run,
        other => panic!("{other:?}"),
    };
    let output = ZkOutput {
        abi: plain_abi(),
        bytecode: ZkBytecode {
            object: BytecodeObject::Bytecode(vec![10; 32]),
            missing_libraries: vec![],
        },
        factory_dependencies: Some(roots.iter().map(|root| root.to_string()).collect()),
        deps,
        id: id(),
    };
    run.compiled(output).unwrap().parse(None).unwrap()
}

fn dep() -> FactoryDep {
    FactoryDep {
        path: "a.sol".to_string(),
        name: "A".to_string(),
        artifact: FactoryDepArtifact {
            factory_dependencies: Some(vec![]),
            bytecode: Some(BytecodeObject::Bytecode(vec![1; 32])),
        },
    }
}

#[test]
fn a_zk_run_carries_what_the_contract_creates() {
    let mut args = args();
    args.opts.compiler.zk.paymaster_address = Some(Address { bytes: [3; 20] });
    let parsed = parsed(args, &["a.sol:A"], vec![dep()]);
    assert!(!parsed.needs_chain_id());
    let gathered = parsed.gather(None).unwrap();
    assert_eq!(gathered.state().chain, 324);
    assert_eq!(gathered.state().zk_data.factory_deps, vec![vec![1; 32], vec![10; 32]]);
    assert!(gathered.needs_signer());
    let next: ZkAwaitingNonce<u8, (), ()> =
        gathered.deploy(7, Some(sender()), 60).unwrap();
    assert_eq!(next.deployment().deployer.timeout, 60);
    let meta = next.deployment().deployer.tx.eip712_meta.as_ref().unwrap();
    assert_eq!(meta.factory_deps, vec![vec![1; 32], vec![10; 32]]);
    assert_eq!(meta.paymaster_params.as_ref().unwrap().paymaster, Address { bytes: [3; 20] });
}

#[test]
fn an_unlocked_zk_run_keeps_the_timeout() {
    let mut args = args();
    args.unlocked = true;
    args.eth.from = Some(sender());
    args.eth.etherscan.chain = None;
    let parsed = parsed(args, &[], vec![]);
    assert!(parsed.needs_chain_id());
    let gathered = parsed.gather(Some(300)).unwrap();
    assert!(!gathered.needs_signer());
    let next: ZkAwaitingNonce<u8, (), ()> = gathered.deploy(7, None, 60).unwrap();
    assert_eq!(next.deployment().deployer.timeout, 60);
    assert_eq!(next.deployment().chain, 300);
    assert_eq!(next.deployment().deployer_address, sender());
}

#[test]
fn a_zk_run_ends_at_a_missing_dependency() {
    let error = parsed(args(), &["a.sol:A", "b.sol:B"], vec![dep()]).gather(None).unwrap_err();
    assert_eq!((error.fault, error.dep.as_str()), (Fault::NotFound, "b.sol:B"));
}

#[test]
fn a_zk_run_is_only_shown_unless_it_broadcasts() {
    for broadcast in [false, true] {
        let mut args = args();
        args.broadcast = broadcast;
        args.opts.compiler.zk.paymaster_address = Some(Address { bytes: [3; 20] });
        let next: ZkAwaitingNonce<u8, (), ()> = parsed(args, &["a.sol:A"], vec![dep()])
            .gather(None)
            .unwrap()
            .deploy(7, Some(sender()), 60)
            .unwrap();
        assert_eq!(next.deployment().dry_run, !broadcast);
        let next = next.set_nonce(Some(8)).set_gas_price(Some(25));
        let estimated = next.deployment().deployer.tx.clone();
        let (next, _) = next.set_estimated(estimated).check().unwrap();
        let ready = next.checked::<()>(Ok(())).unwrap();
        let expected = if broadcast { Outcome::Broadcast } else { Outcome::Show };
        assert_eq!(ready.outcome(), expected);
        let shown = ready.dry_run("[]").unwrap();
        assert_eq!(shown.lines[0], "Contract: Domains");
        let json: serde_json::Value =
            serde_json::from_str(shown.lines[1].strip_prefix("Transaction: ").unwrap()).unwrap();
        assert_eq!(json["to"], format!("0x{}8006", "0".repeat(36)));
        assert_eq!(json["nonce"], "0x8");
        assert_eq!(json["type"], "0x71");
        let meta = &json["eip712Meta"];
        assert_eq!(meta["factoryDeps"].as_array().unwrap().len(), 2);
        assert_eq!(
            meta["paymasterParams"]["paymaster"],
            format!("0x{}", "03".repeat(20))
        );
    }
}

#[test]
fn a_failed_check_leaves_nothing_to_send_on_zksync() {
    let mut args = args();
    args.verify = true;
    args.broadcast = true;
    let next = started(args, data(vec![10; 32])).set_nonce(Some(0)).set_gas_price(Some(1));
    let estimated = next.deployment().deployer.tx.clone();
    let (next, verify) = next.set_estimated(estimated).check().unwrap();
    assert!(verify.is_some());
    assert_eq!(next.checked(Err("no key")).err(), Some("no key"));
}
