//! A deployment, step by step. Each step takes what the node answered, if it had to be asked,
//! and leads to the next.

use crate::abi::{
    abi_error_text, come_from_texts, display_abi_error, encode_input, encoded_input, encoding_of,
    JsonAbi,
};
use crate::args::{copy_text, ArtifactId, CreateArgs, TransactionOpts};
use crate::factory::{
    creation_data, deployed, ContractDeploymentError, Deployer, DeploymentTxFactory, Receipt,
    SendError,
};
use crate::linking::BytecodeObject;
use crate::primitives::{
    chain_is_legacy, checksummed, debug_hash, display_address, encode_prefixed, fits_u128,
    fits_u64, is_legacy_chain, prefixed_hex, Address, TxHash, U256,
};
use crate::text::texts;
use crate::tx::{only_input, transaction_json, TransactionRequest, TxKind, TxModel};
use crate::verify::VerifyArgs;
use alloy_dyn_abi::DynSolValue;
use alloy_json_abi::Param;
use vstd::pervasive::unreached;
use vstd::prelude::*;
use vstd::string::*;

verus! {

/// Why a deployment cannot go on.
#[derive(Debug)]
pub enum DeployError {
    /// The transaction could not be built, with or without constructor arguments.
    Build { error: ContractDeploymentError, no_args: bool },
    /// There are constructor arguments to verify with, but no constructor.
    NoConstructor,
    /// The constructor arguments to verify with cannot be encoded.
    Encoding(alloy_dyn_abi::Error),
}

impl DeployError {
    /// Whether texts say what went wrong, and behind each the cause.
    pub open spec fn is_told_as(self, chain: Seq<Seq<char>>) -> bool {
        match self {
            Self::Build { error, no_args } => {
                let hints: Seq<Seq<char>> = if no_args {
                    seq![
                        "no arguments provided for contract constructor; consider --constructor-args or --constructor-args-path"@,
                        "failed to deploy contract"@,
                    ]
                } else {
                    seq!["failed to deploy contract"@]
                };
                &&& chain.len() == hints.len() + 1
                &&& chain.drop_last() == hints
                &&& error.is_told_as(chain.last())
            },
            Self::NoConstructor => chain == seq!["could not find constructor"@],
            Self::Encoding(error) => chain == seq![abi_error_text(error)],
        }
    }

    /// What went wrong, in words, and behind each text its cause.
    pub fn messages(&self) -> (r: Vec<String>)
        ensures
            self.is_told_as(texts(r@)),
    {
        let mut out: Vec<String> = Vec::new();
        match self {
            Self::Build { error, no_args } => {
                if *no_args {
                    out.push(
                        "no arguments provided for contract constructor; consider --constructor-args or --constructor-args-path".to_string(),
                    );
                }
                out.push("failed to deploy contract".to_string());
                let ghost hints = texts(out@);
                out.push(error.message());
                assert(texts(out@).drop_last() =~= hints);
                assert(*no_args ==> hints =~= seq![
                    "no arguments provided for contract constructor; consider --constructor-args or --constructor-args-path"@,
                    "failed to deploy contract"@,
                ]);
                assert(!*no_args ==> hints =~= seq!["failed to deploy contract"@]);
            },
            Self::NoConstructor => {
                out.push("could not find constructor".to_string());
                assert(texts(out@) =~= seq!["could not find constructor"@]);
            },
            Self::Encoding(error) => {
                out.push(display_abi_error(error));
                assert(texts(out@) =~= seq![abi_error_text(*error)]);
            },
        }
        out
    }
}

/// Fees as a node estimates them for a chain with EIP-1559.
#[derive(Debug, Clone, Copy, PartialEq, Eq)]
pub struct Eip1559Estimation {
    pub max_fee_per_gas: u128,
    pub max_priority_fee_per_gas: u128,
}

/// What a node is asked about fees.
#[derive(Debug, Clone, Copy, PartialEq, Eq)]
pub enum FeeQuery {
    Nothing,
    GasPrice,
    Eip1559,
}

/// What a node answered about fees.
#[derive(Debug, Clone, Copy, PartialEq, Eq)]
pub enum FeeReply {
    Nothing,
    GasPrice(u128),
    Eip1559(Eip1559Estimation),
}

impl FeeReply {
    /// Whether this is an answer to what was asked.
    pub open spec fn answers(self, query: FeeQuery) -> bool {
        match query {
            FeeQuery::Nothing => self is Nothing,
            FeeQuery::GasPrice => self is GasPrice,
            FeeQuery::Eip1559 => self is Eip1559,
        }
    }
}

/// What is said where a node cannot estimate EIP-1559 fees.
pub fn fee_estimation_failure() -> (r: String)
    ensures
        r@ == "Failed to estimate EIP1559 fees. This chain might not support EIP1559, try adding --legacy to your command."@,
{
    "Failed to estimate EIP1559 fees. This chain might not support EIP1559, try adding --legacy to your command.".to_string()
}

/// What is given, or else what the node answered.
pub open spec fn given_or<A>(given: Option<A>, fetched: Option<A>) -> Option<A> {
    if given is Some {
        given
    } else {
        fetched
    }
}

/// A given number as a `u64`.
pub open spec fn as_u64(n: Option<U256>) -> Option<u64> {
    match n {
        Some(n) => Some(n@ as u64),
        None => None,
    }
}

/// A given number as a `u128`.
pub open spec fn as_u128(n: Option<U256>) -> Option<u128> {
    match n {
        Some(n) => Some(n@ as u128),
        None => None,
    }
}

/// A transaction that creates a contract, before the node was asked anything.
pub open spec fn started_tx(data: Seq<u8>, from: Address, chain: u64) -> TxModel {
    TxModel {
        from: Some(from),
        chain_id: Some(chain),
        to: Some(TxKind::Create),
        ..only_input(data)
    }
}

/// A transaction with its nonce, and with its value if one is given.
pub open spec fn numbered_tx(tx: TxModel, opts: TransactionOpts, fetched: Option<u64>) -> TxModel {
    TxModel {
        nonce: given_or(as_u64(opts.nonce), fetched),
        value: given_or(opts.value, tx.value),
        ..tx
    }
}

/// A transaction with its gas limit.
pub open spec fn limited_tx(tx: TxModel, opts: TransactionOpts, estimated: Option<u64>) -> TxModel {
    TxModel { gas: given_or(as_u64(opts.gas_limit), estimated), ..tx }
}

/// What the node has to be asked about fees: nothing for a legacy transaction with a given gas
/// price, and always an estimate for another one.
pub open spec fn fees_to_ask(opts: TransactionOpts, legacy: bool) -> FeeQuery {
    if !legacy {
        FeeQuery::Eip1559
    } else if opts.gas_price is None {
        FeeQuery::GasPrice
    } else {
        FeeQuery::Nothing
    }
}

/// A transaction with its fees: a gas price for a legacy one, a maximum fee and a priority fee
/// for another one.
pub open spec fn priced_tx(
    tx: TxModel,
    opts: TransactionOpts,
    legacy: bool,
    reply: FeeReply,
) -> TxModel {
    if legacy {
        let fetched = match reply {
            FeeReply::GasPrice(price) => Some(price),
            _ => None,
        };
        TxModel { gas_price: given_or(as_u128(opts.gas_price), fetched), ..tx }
    } else {
        let (fee, priority) = match reply {
            FeeReply::Eip1559(estimate) => (
                Some(estimate.max_fee_per_gas),
                Some(estimate.max_priority_fee_per_gas),
            ),
            _ => (None, None),
        };
        TxModel {
            max_fee_per_gas: given_or(as_u128(opts.gas_price), fee),
            max_priority_fee_per_gas: given_or(as_u128(opts.priority_gas_price), priority),
            ..tx
        }
    }
}

/// The constructor arguments to verify with, in hexadecimal: none unless the contract is to be
/// verified and there are arguments.
pub open spec fn args_to_verify(
    verify: bool,
    constructor: Option<Seq<Param>>,
    params: Seq<DynSolValue>,
) -> Result<Option<Seq<char>>, DeployError> {
    if !verify || params.len() == 0 {
        Ok(None)
    } else {
        match constructor {
            None => Err(DeployError::NoConstructor),
            Some(inputs) => match encoding_of(inputs, params) {
                Ok(bytes) => Ok(Some(prefixed_hex(bytes))),
                Err(error) => Err(DeployError::Encoding(error)),
            },
        }
    }
}

/// Whether a text that may be missing is this one.
pub open spec fn reads(text: Option<String>, expected: Option<Seq<char>>) -> bool {
    match expected {
        Some(expected) => text matches Some(text) && text@ == expected,
        None => text is None,
    }
}

/// Encoded constructor arguments in hexadecimal.
pub fn hex_args(encoded: Result<Vec<u8>, alloy_dyn_abi::Error>) -> (r: Result<String, DeployError>)
    ensures
        match encoded {
            Ok(bytes) => r matches Ok(text) && text@ == prefixed_hex(bytes@),
            Err(error) => r matches Err(e) && e == DeployError::Encoding(error),
        },
{
    match encoded {
        Ok(bytes) => Ok(encode_prefixed(bytes.as_slice())),
        Err(error) => Err(DeployError::Encoding(error)),
    }
}

impl CreateArgs {
    /// The constructor arguments to verify with, in hexadecimal.
    pub fn constructor_args_to_verify(&self, abi: &JsonAbi, params: &Vec<DynSolValue>) -> (r:
        Result<Option<String>, DeployError>)
        ensures
            match args_to_verify(self.verify, abi@, params@) {
                Ok(expected) => r matches Ok(text) && reads(text, expected),
                Err(error) => r matches Err(e) && e == error,
            },
            self.verify && params@.len() > 0 ==> match abi.constructor {
                Some(constructor) => match encoded_input(
                    constructor.inputs@,
                    params@,
                    usize::BITS,
                ) {
                    Ok(bytes) => r matches Ok(Some(text)) && text@ == prefixed_hex(bytes),
                    Err(error) => r matches Err(e) && e == DeployError::Encoding(error),
                },
                None => r matches Err(e) && e is NoConstructor,
            },
    {
        if !self.verify || params.len() == 0 {
            return Ok(None);
        }
        match &abi.constructor {
            None => Err(DeployError::NoConstructor),
            Some(constructor) => match hex_args(encode_input(&constructor.inputs, params)) {
                Ok(text) => Ok(Some(text)),
                Err(error) => Err(error),
            },
        }
    }

    /// Deploys the contract: builds the transaction, as far as that goes without the node.
    pub fn deploy<B: Clone, P, T>(
        self,
        abi: JsonAbi,
        bin: BytecodeObject,
        params: Vec<DynSolValue>,
        client: B,
        chain: u64,
        deployer_address: Address,
        timeout: u64,
        id: ArtifactId,
        dry_run: bool,
    ) -> (r: Result<AwaitingNonce<B, P, T>, DeployError>)
        requires
            bin is Bytecode,
        ensures
            match creation_data(abi@, bin->Bytecode_0@, params@) {
                Ok(data) => r matches Ok(next) && {
                    let d = next@;
                    &&& d.args == self
                    &&& d.params == params
                    &&& d.chain == chain
                    &&& d.deployer_address == deployer_address
                    &&& d.id == id
                    &&& d.dry_run == dry_run
                    &&& d.legacy == (self.tx.legacy || chain_is_legacy(chain))
                    &&& d.deployer.tx@ == started_tx(data, deployer_address, chain)
                    &&& d.deployer.abi == abi
                    &&& cloned(client, d.deployer.client)
                    &&& d.deployer.confs == 1
                    &&& d.deployer.timeout == timeout
                    &&& d.deployer.zk_factory_deps is None
                    &&& d.deployer.zk_paymaster_params is None
                },
                Err(error) => r matches Err(e) && e == (DeployError::Build {
                    error,
                    no_args: params@.len() == 0,
                }),
            },
            abi@ matches Some(inputs) ==> come_from_texts(inputs, params@) ==> r is Ok,
    {
        let bytecode = match bin {
            BytecodeObject::Bytecode(bytecode) => bytecode,
            BytecodeObject::Unlinked(_) => unreached(),
        };
        let factory: DeploymentTxFactory<B, P, T> = DeploymentTxFactory::new(
            abi,
            bytecode,
            client,
            timeout,
        );
        let no_args = params.len() == 0;
        let copy = params.clone();
        assert(copy@ =~= params@);
        match factory.deploy_tokens(copy) {
            Ok(deployer) => {
                let legacy_chain = is_legacy_chain(chain);
                Ok(
                    self.start_deployment(
                        deployer,
                        params,
                        chain,
                        deployer_address,
                        id,
                        dry_run,
                        legacy_chain,
                    ),
                )
            },
            Err(error) => Err(DeployError::Build { error, no_args }),
        }
    }

    /// Starts the deployment of a transaction on a chain that takes legacy transactions only, or
    /// other ones too.
    pub fn start_deployment<B, P, T>(
        self,
        deployer: Deployer<B, P, T>,
        params: Vec<DynSolValue>,
        chain: u64,
        deployer_address: Address,
        id: ArtifactId,
        dry_run: bool,
        legacy_chain: bool,
    ) -> (r: AwaitingNonce<B, P, T>)
        ensures
            r@.deployer.tx@ == (TxModel {
                from: Some(deployer_address),
                chain_id: Some(chain),
                to: given_or(deployer.tx@.to, Some(TxKind::Create)),
                ..deployer.tx@
            }),
            r@ == (Deployment {
                args: self,
                params,
                deployer: Deployer { tx: r@.deployer.tx, ..deployer },
                chain,
                deployer_address,
                id,
                dry_run,
                legacy: self.tx.legacy || legacy_chain,
            }),
    {
        let legacy = self.tx.legacy || legacy_chain;
        let mut deployer = deployer;
        deployer.tx.from = Some(deployer_address);
        deployer.tx.chain_id = Some(chain);
        // The recipient must be set explicitly.
        if deployer.tx.to.is_none() {
            deployer.tx.to = Some(TxKind::Create);
        }
        AwaitingNonce {
            deployment: Deployment {
                args: self,
                params,
                deployer,
                chain,
                deployer_address,
                id,
                dry_run,
                legacy,
            },
        }
    }
}

/// A deployment that is under way.
#[derive(Debug)]
pub struct Deployment<B, P, T> {
    pub args: CreateArgs,
    /// The values for the constructor.
    pub params: Vec<DynSolValue>,
    pub deployer: Deployer<B, P, T>,
    pub chain: u64,
    pub deployer_address: Address,
    pub id: ArtifactId,
    /// Whether the transaction is only shown.
    pub dry_run: bool,
    /// Whether the transaction is a legacy one.
    pub legacy: bool,
}

impl<B, P, T> Deployment<B, P, T> {
    /// The same deployment with another transaction.
    pub open spec fn with_tx(self, tx: TransactionRequest) -> Self {
        Deployment { deployer: Deployer { tx, ..self.deployer }, ..self }
    }

    /// Whether another deployment differs from this one by its transaction alone.
    pub open spec fn differs_by_tx(self, other: Self) -> bool {
        other == self.with_tx(other.deployer.tx)
    }
}

/// A deployment whose transaction needs a nonce.
#[derive(Debug)]
pub struct AwaitingNonce<B, P, T> {
    deployment: Deployment<B, P, T>,
}

impl<B, P, T> View for AwaitingNonce<B, P, T> {
    type V = Deployment<B, P, T>;

    closed spec fn view(&self) -> Deployment<B, P, T> {
        self.deployment
    }
}

/// A deployment whose transaction needs a gas limit.
#[derive(Debug)]
pub struct AwaitingGasLimit<B, P, T> {
    deployment: Deployment<B, P, T>,
}

impl<B, P, T> View for AwaitingGasLimit<B, P, T> {
    type V = Deployment<B, P, T>;

    closed spec fn view(&self) -> Deployment<B, P, T> {
        self.deployment
    }
}

/// A deployment whose transaction needs its fees.
#[derive(Debug)]
pub struct AwaitingFees<B, P, T> {
    deployment: Deployment<B, P, T>,
}

impl<B, P, T> View for AwaitingFees<B, P, T> {
    type V = Deployment<B, P, T>;

    closed spec fn view(&self) -> Deployment<B, P, T> {
        self.deployment
    }
}

/// A deployment whose transaction is complete, and whose verification is to be checked.
#[derive(Debug)]
pub struct AwaitingCheck<B, P, T> {
    deployment: Deployment<B, P, T>,
}

impl<B, P, T> View for AwaitingCheck<B, P, T> {
    type V = Deployment<B, P, T>;

    closed spec fn view(&self) -> Deployment<B, P, T> {
        self.deployment
    }
}

/// A deployment that waits for what comes of the check of its verification.
#[derive(Debug)]
pub struct AwaitingVerdict<B, P, T> {
    deployment: Deployment<B, P, T>,
    /// The constructor arguments to verify with, in hexadecimal.
    constructor_args: Option<String>,
}

impl<B, P, T> View for AwaitingVerdict<B, P, T> {
    type V = Deployment<B, P, T>;

    closed spec fn view(&self) -> Deployment<B, P, T> {
        self.deployment
    }
}

/// A deployment that is ready to be sent, or to be shown.
#[derive(Debug)]
pub struct Ready<B, P, T> {
    deployment: Deployment<B, P, T>,
    /// The constructor arguments to verify with, in hexadecimal.
    constructor_args: Option<String>,
}

impl<B, P, T> View for Ready<B, P, T> {
    type V = Deployment<B, P, T>;

    closed spec fn view(&self) -> Deployment<B, P, T> {
        self.deployment
    }
}

impl<B, P, T> AwaitingNonce<B, P, T> {
    /// The deployment so far.
    pub fn deployment(&self) -> (r: &Deployment<B, P, T>)
        ensures
            *r == self@,
    {
        &self.deployment
    }

    /// The account whose nonce the node has to be asked for, unless a nonce is given.
    pub fn query(&self) -> (r: Option<Address>)
        ensures
            r == if self@.args.tx.nonce is None {
                Some(self@.deployer_address)
            } else {
                None
            },
    {
        match self.deployment.args.tx.nonce {
            None => Some(self.deployment.deployer_address),
            Some(_) => None,
        }
    }

    /// Sets the nonce, and the value if one is given.
    pub fn set_nonce(self, fetched: Option<u64>) -> (r: AwaitingGasLimit<B, P, T>)
        requires
            fits_u64(self@.args.tx.nonce),
            self@.args.tx.nonce is None ==> fetched is Some,
        ensures
            self@.differs_by_tx(r@),
            r@.deployer.tx@ == numbered_tx(
                self@.deployer.tx@,
                self@.args.tx,
                fetched,
            ),
            self@.args.tx.nonce matches Some(nonce) ==> r@.deployer.tx.nonce is Some
                && r@.deployer.tx.nonce->Some_0 == nonce@,
            self@.args.tx.nonce is None ==> r@.deployer.tx.nonce == fetched,
    {
        let mut deployment = self.deployment;
        deployment.deployer.tx.nonce = match deployment.args.tx.nonce {
            Some(nonce) => nonce.to_u64(),
            None => fetched,
        };
        if let Some(value) = deployment.args.tx.value {
            deployment.deployer.tx.value = Some(value);
        }
        AwaitingGasLimit { deployment }
    }
}

impl<B, P, T> AwaitingGasLimit<B, P, T> {
    /// The deployment so far.
    pub fn deployment(&self) -> (r: &Deployment<B, P, T>)
        ensures
            *r == self@,
    {
        &self.deployment
    }

    /// The transaction whose gas the node has to be asked to estimate, unless a limit is given.
    pub fn query(&self) -> (r: Option<&TransactionRequest>)
        ensures
            r == if self@.args.tx.gas_limit is None {
                Some(&self@.deployer.tx)
            } else {
                None
            },
    {
        match self.deployment.args.tx.gas_limit {
            None => Some(&self.deployment.deployer.tx),
            Some(_) => None,
        }
    }

    /// Sets the gas limit.
    pub fn set_gas_limit(self, estimated: Option<u64>) -> (r: AwaitingFees<B, P, T>)
        requires
            fits_u64(self@.args.tx.gas_limit),
            self@.args.tx.gas_limit is None ==> estimated is Some,
        ensures
            self@.differs_by_tx(r@),
            r@.deployer.tx@ == limited_tx(
                self@.deployer.tx@,
                self@.args.tx,
                estimated,
            ),
            self@.args.tx.gas_limit matches Some(limit) ==> r@.deployer.tx.gas is Some
                && r@.deployer.tx.gas->Some_0 == limit@,
            self@.args.tx.gas_limit is None ==> r@.deployer.tx.gas == estimated,
    {
        let mut deployment = self.deployment;
        deployment.deployer.tx.gas = match deployment.args.tx.gas_limit {
            Some(gas_limit) => gas_limit.to_u64(),
            None => estimated,
        };
        AwaitingFees { deployment }
    }
}

impl<B, P, T> AwaitingFees<B, P, T> {
    /// The deployment so far.
    pub fn deployment(&self) -> (r: &Deployment<B, P, T>)
        ensures
            *r == self@,
    {
        &self.deployment
    }

    /// What the node has to be asked about fees.
    pub fn query(&self) -> (r: FeeQuery)
        ensures
            r == fees_to_ask(self@.args.tx, self@.legacy),
    {
        if !self.deployment.legacy {
            FeeQuery::Eip1559
        } else if self.deployment.args.tx.gas_price.is_none() {
            FeeQuery::GasPrice
        } else {
            FeeQuery::Nothing
        }
    }

    /// Sets the fees.
    pub fn set_fees(self, reply: FeeReply) -> (r: AwaitingCheck<B, P, T>)
        requires
            fits_u128(self@.args.tx.gas_price),
            !self@.legacy ==> fits_u128(self@.args.tx.priority_gas_price),
            reply.answers(fees_to_ask(self@.args.tx, self@.legacy)),
        ensures
            self@.differs_by_tx(r@),
            r@.deployer.tx@ == priced_tx(
                self@.deployer.tx@,
                self@.args.tx,
                self@.legacy,
                reply,
            ),
            self@.args.tx.gas_price matches Some(price) ==> if self@.legacy {
                r@.deployer.tx.gas_price is Some && r@.deployer.tx.gas_price->Some_0 == price@
            } else {
                r@.deployer.tx.max_fee_per_gas is Some && r@.deployer.tx.max_fee_per_gas->Some_0
                    == price@
            },
            self@.args.tx.priority_gas_price matches Some(fee) ==> !self@.legacy
                ==> r@.deployer.tx.max_priority_fee_per_gas is Some
                && r@.deployer.tx.max_priority_fee_per_gas->Some_0 == fee@,
    {
        let mut deployment = self.deployment;
        let opts = deployment.args.tx;
        if deployment.legacy {
            deployment.deployer.tx.gas_price = match opts.gas_price {
                Some(gas_price) => gas_price.to_u128(),
                None => match reply {
                    FeeReply::GasPrice(gas_price) => Some(gas_price),
                    _ => None,
                },
            };
        } else if let FeeReply::Eip1559(estimate) = reply {
            deployment.deployer.tx.max_fee_per_gas = match opts.gas_price {
                Some(max_fee) => max_fee.to_u128(),
                None => Some(estimate.max_fee_per_gas),
            };
            deployment.deployer.tx.max_priority_fee_per_gas = match opts.priority_gas_price {
                Some(priority_fee) => priority_fee.to_u128(),
                None => Some(estimate.max_priority_fee_per_gas),
            };
        }
        AwaitingCheck { deployment }
    }
}

/// Whether a request is the one that is checked before a deployment with these arguments.
pub open spec fn is_preflight(
    verify: Option<VerifyArgs>,
    args: CreateArgs,
    constructor_args: Option<String>,
    chain: u64,
    id: ArtifactId,
) -> bool {
    if args.verify {
        verify matches Some(v) && {
            &&& v.is_made_from(args, chain, constructor_args)
            &&& v.names_compilation(Some(id))
            &&& v.address.bytes@ == Seq::new(20, |i: int| 0u8)
            &&& v.num_of_optimizations is None
            &&& v.etherscan.key == args.eth.etherscan.key
        }
    } else {
        verify is None
    }
}

/// Whether a request is the one that is made after a deployment with these arguments.
pub open spec fn is_final(
    verify: Option<VerifyArgs>,
    args: CreateArgs,
    address: Address,
    constructor_args: Option<String>,
    chain: u64,
    id: Option<ArtifactId>,
) -> bool {
    if args.verify {
        verify matches Some(v) && {
            &&& v.is_made_from(args, chain, constructor_args)
            &&& v.names_compilation(id)
            &&& v.address == address
            &&& v.num_of_optimizations == args.optimizations()
            &&& v.etherscan.key == args.eth.etherscan_key
        }
    } else {
        verify is None
    }
}

impl<B, P, T> AwaitingCheck<B, P, T> {
    /// The deployment so far.
    pub fn deployment(&self) -> (r: &Deployment<B, P, T>)
        ensures
            *r == self@,
    {
        &self.deployment
    }

    /// Before the contract is deployed, makes the request with which the verify settings are
    /// checked, if the contract is to be verified.
    pub fn check(self) -> (r: Result<
        (AwaitingVerdict<B, P, T>, Option<VerifyArgs>),
        DeployError,
    >)
        ensures
            match args_to_verify(self@.args.verify, self@.deployer.abi@, self@.params@) {
                Ok(expected) => r matches Ok((next, verify)) && {
                    &&& next@ == self@
                    &&& reads(next.args_to_verify(), expected)
                    &&& is_preflight(
                        verify,
                        self@.args,
                        next.args_to_verify(),
                        self@.chain,
                        self@.id,
                    )
                },
                Err(error) => r matches Err(e) && e == error,
            },
    {
        let deployment = self.deployment;
        match deployment.args.constructor_args_to_verify(
            &deployment.deployer.abi,
            &deployment.params,
        ) {
            Ok(constructor_args) => {
                let verify = if deployment.args.verify {
                    Some(
                        deployment.args.verify_preflight_check(
                            copy_text(&constructor_args),
                            deployment.chain,
                            &deployment.id,
                        ),
                    )
                } else {
                    None
                };
                Ok((AwaitingVerdict { deployment, constructor_args }, verify))
            },
            Err(error) => Err(error),
        }
    }
}

impl<B, P, T> AwaitingVerdict<B, P, T> {
    /// The constructor arguments to verify with, in hexadecimal.
    pub closed spec fn args_to_verify(self) -> Option<String> {
        self.constructor_args
    }

    /// Takes what came of the check. Only a deployment whose check did not fail can be sent; the
    /// check of one that is not to be verified does not fail.
    pub fn checked<E>(self, outcome: Result<(), E>) -> (r: Result<Ready<B, P, T>, E>)
        ensures
            match outcome {
                Ok(()) => r matches Ok(ready) && ready@ == self@ && ready.args_to_verify()
                    == self.args_to_verify(),
                Err(error) => r matches Err(e) && e == error,
            },
    {
        match outcome {
            Ok(()) => Ok(
                Ready {
                    deployment: self.deployment,
                    constructor_args: self.constructor_args,
                },
            ),
            Err(error) => Err(error),
        }
    }
}

/// What is done with a transaction that is ready.
#[derive(Debug, Clone, Copy, PartialEq, Eq)]
pub enum Outcome {
    Show,
    Broadcast,
}

/// What is shown in place of a deployment.
#[derive(Debug)]
pub struct DryRun {
    pub warning: String,
    pub lines: Vec<String>,
    pub hint: String,
}

impl DryRun {
    /// Whether this shows a contract, its transaction and its ABI.
    pub open spec fn shows(
        self,
        contract: Seq<char>,
        transaction: Seq<char>,
        abi: Seq<char>,
    ) -> bool {
        &&& self.warning@ == "Dry run enabled, not broadcasting transaction\n"@
        &&& texts(self.lines@) == seq![
            "Contract: "@ + contract,
            "Transaction: "@ + transaction,
            "ABI: "@ + abi + "\n"@,
        ]
        &&& self.hint@
            == "To broadcast this transaction, add --broadcast to the previous command. See forge create --help for more."@
    }

    /// Shows a contract, its transaction and its ABI, the latter two as JSON.
    pub fn new(contract: &str, transaction: &str, abi: &str) -> (r: DryRun)
        ensures
            r.shows(contract@, transaction@, abi@),
    {
        let mut lines: Vec<String> = Vec::new();
        lines.push(labelled("Contract: ", contract));
        lines.push(labelled("Transaction: ", transaction));
        let mut last = labelled("ABI: ", abi);
        last.append("\n");
        lines.push(last);
        assert(texts(lines@) =~= seq![
            "Contract: "@ + contract@,
            "Transaction: "@ + transaction@,
            "ABI: "@ + abi@ + "\n"@,
        ]);
        DryRun {
            warning: "Dry run enabled, not broadcasting transaction\n".to_string(),
            lines,
            hint:
                "To broadcast this transaction, add --broadcast to the previous command. See forge create --help for more.".to_string(),
        }
    }
}

/// A contract that was deployed.
#[derive(Debug)]
pub struct Deployed {
    pub deployer: Address,
    pub deployed_to: Address,
    pub transaction_hash: TxHash,
    /// The request to verify it, if it is to be verified.
    pub verify: Option<VerifyArgs>,
}

impl<B, P, T> Ready<B, P, T> {
    /// The deployment so far.
    pub fn deployment(&self) -> (r: &Deployment<B, P, T>)
        ensures
            *r == self@,
    {
        &self.deployment
    }

    /// The constructor arguments to verify with, in hexadecimal.
    pub closed spec fn args_to_verify(self) -> Option<String> {
        self.constructor_args
    }

    /// The constructor arguments to verify with, in hexadecimal.
    pub fn constructor_args(&self) -> (r: &Option<String>)
        ensures
            *r == self.args_to_verify(),
    {
        &self.constructor_args
    }

    /// What is done with the transaction: it is broadcast unless this is a dry run.
    pub fn outcome(&self) -> (r: Outcome)
        ensures
            r == if self@.dry_run {
                Outcome::Show
            } else {
                Outcome::Broadcast
            },
    {
        if self.deployment.dry_run {
            Outcome::Show
        } else {
            Outcome::Broadcast
        }
    }

    /// What is shown in place of the deployment, with the ABI as JSON, if the transaction can be
    /// written as JSON.
    pub fn dry_run(&self, abi: &str) -> (r: Option<DryRun>)
        ensures
            match transaction_json(self@.deployer.tx@) {
                Some(transaction) => r matches Some(shown) && shown.shows(
                    self@.args.contract.name@,
                    transaction,
                    abi@,
                ),
                None => r is None,
            },
    {
        match self.deployment.deployer.tx.to_json() {
            Some(transaction) => Some(
                DryRun::new(
                    self.deployment.args.contract.name.as_str(),
                    transaction.as_str(),
                    abi,
                ),
            ),
            None => None,
        }
    }

    /// Takes what came of sending the transaction: where the contract was deployed, and the
    /// request to verify it.
    pub fn sent(self, sent: Result<Receipt, SendError>) -> (r: Result<
        Deployed,
        ContractDeploymentError,
    >)
        requires
            !self@.dry_run,
        ensures
            match deployed(sent) {
                Ok((address, receipt)) => r matches Ok(d) && {
                    &&& d.deployer == self@.deployer_address
                    &&& d.deployed_to == address
                    &&& d.transaction_hash == receipt.transaction_hash
                    &&& is_final(
                        d.verify,
                        self@.args,
                        address,
                        self.args_to_verify(),
                        self@.chain,
                        Some(self@.id),
                    )
                },
                Err(error) => r matches Err(e) && e == error,
            },
    {
        let deployment = self.deployment;
        match deployment.deployer.send_with_receipt(sent) {
            Ok((address, receipt)) => {
                let verify = if deployment.args.verify {
                    Some(
                        deployment.args.verify_deployed(
                            address,
                            self.constructor_args,
                            deployment.chain,
                            Some(deployment.id),
                        ),
                    )
                } else {
                    None
                };
                Ok(
                    Deployed {
                        deployer: deployment.deployer_address,
                        deployed_to: address,
                        transaction_hash: receipt.transaction_hash,
                        verify,
                    },
                )
            },
            Err(error) => Err(error),
        }
    }
}

/// Writes a label and a text behind it.
fn labelled(label: &str, text: &str) -> (r: String)
    ensures
        r@ == label@ + text@,
{
    let mut line = label.to_string();
    line.append(text);
    line
}

/// The texts in which a deployment is reported.
#[derive(Debug)]
pub struct Report {
    pub deployer: String,
    pub deployed_to: String,
    pub transaction_hash: String,
}

impl Deployed {
    /// The texts in which the deployment is reported: the addresses with their checksums, the
    /// hash in hexadecimal.
    pub fn report(&self) -> (r: Report)
        ensures
            r.deployer@ == checksummed(self.deployer.bytes@),
            r.deployed_to@ == checksummed(self.deployed_to.bytes@),
            r.transaction_hash@ == prefixed_hex(self.transaction_hash.bytes@),
    {
        Report {
            deployer: display_address(&self.deployer),
            deployed_to: display_address(&self.deployed_to),
            transaction_hash: debug_hash(&self.transaction_hash),
        }
    }
}

impl Report {
    /// The report in lines.
    pub fn lines(&self) -> (r: Vec<String>)
        ensures
            texts(r@) == seq![
                "Deployer: "@ + self.deployer@,
                "Deployed to: "@ + self.deployed_to@,
                "Transaction hash: "@ + self.transaction_hash@,
            ],
    {
        let mut lines: Vec<String> = Vec::new();
        lines.push(labelled("Deployer: ", self.deployer.as_str()));
        lines.push(labelled("Deployed to: ", self.deployed_to.as_str()));
        lines.push(labelled("Transaction hash: ", self.transaction_hash.as_str()));
        assert(texts(lines@) =~= seq![
            "Deployer: "@ + self.deployer@,
            "Deployed to: "@ + self.deployed_to@,
            "Transaction hash: "@ + self.transaction_hash@,
        ]);
        lines
    }
}

/// Once every step was taken, the transaction creates a contract with its data from the sender's
/// account on the chain. What was given stands in it, and what was not given is what the node
/// answered. A legacy transaction has a gas price and no other fee; another one has a maximum fee
/// and a priority fee and no gas price.
pub proof fn finished_tx_is_complete(
    data: Seq<u8>,
    from: Address,
    chain: u64,
    opts: TransactionOpts,
    legacy: bool,
    nonce: Option<u64>,
    gas: Option<u64>,
    fees: FeeReply,
)
    requires
        opts.nonce is None ==> nonce is Some,
        opts.gas_limit is None ==> gas is Some,
        fees.answers(fees_to_ask(opts, legacy)),
    ensures
        ({
            let tx = priced_tx(
                limited_tx(numbered_tx(started_tx(data, from, chain), opts, nonce), opts, gas),
                opts,
                legacy,
                fees,
            );
            &&& tx.from == Some(from)
            &&& tx.chain_id == Some(chain)
            &&& tx.to == Some(TxKind::Create)
            &&& tx.input == Some(data)
            &&& tx.value == opts.value
            &&& tx.nonce == if opts.nonce is Some {
                as_u64(opts.nonce)
            } else {
                nonce
            }
            &&& tx.gas == if opts.gas_limit is Some {
                as_u64(opts.gas_limit)
            } else {
                gas
            }
            &&& tx.nonce is Some
            &&& tx.gas is Some
            &&& tx.gas_price is Some <==> legacy
            &&& tx.max_fee_per_gas is Some <==> !legacy
            &&& tx.max_priority_fee_per_gas is Some <==> !legacy
            &&& opts.gas_price is Some ==> if legacy {
                tx.gas_price == as_u128(opts.gas_price)
            } else {
                tx.max_fee_per_gas == as_u128(opts.gas_price)
            }
            &&& !legacy && opts.priority_gas_price is Some ==> tx.max_priority_fee_per_gas
                == as_u128(opts.priority_gas_price)
            &&& opts.nonce is Some && fits_u64(opts.nonce) ==> tx.nonce->Some_0
                == opts.nonce->Some_0@
            &&& opts.gas_limit is Some && fits_u64(opts.gas_limit) ==> tx.gas->Some_0
                == opts.gas_limit->Some_0@
            &&& opts.gas_price is Some && fits_u128(opts.gas_price) ==> if legacy {
                tx.gas_price->Some_0 == opts.gas_price->Some_0@
            } else {
                tx.max_fee_per_gas->Some_0 == opts.gas_price->Some_0@
            }
            &&& !legacy && opts.priority_gas_price is Some && fits_u128(opts.priority_gas_price)
                ==> tx.max_priority_fee_per_gas->Some_0 == opts.priority_gas_price->Some_0@
        }),
{
}

/// Steps that change the transaction alone, taken one after the other, change the transaction
/// alone: a dry run stays a dry run, and the contract's data, chain and sender stay.
pub proof fn steps_change_the_transaction_alone<B, P, T>(
    a: Deployment<B, P, T>,
    b: Deployment<B, P, T>,
    c: Deployment<B, P, T>,
)
    requires
        a.differs_by_tx(b),
        b.differs_by_tx(c),
    ensures
        a.differs_by_tx(c),
        c.dry_run == a.dry_run,
        c.args == a.args,
        c.params == a.params,
        c.chain == a.chain,
        c.deployer_address == a.deployer_address,
        c.legacy == a.legacy,
{
}

/// Where the transaction could be built, the check before the deployment finds the constructor
/// arguments to verify with: they are the bytes behind the bytecode in the transaction's input.
pub proof fn args_to_verify_follow_the_bytecode(
    constructor: Option<Seq<Param>>,
    bytecode: Seq<u8>,
    params: Seq<DynSolValue>,
    data: Seq<u8>,
)
    requires
        creation_data(constructor, bytecode, params) == Ok::<Seq<u8>, ContractDeploymentError>(
            data,
        ),
    ensures
        args_to_verify(true, constructor, params) matches Ok(args) && args == if params.len() > 0 {
            Some(prefixed_hex(data.skip(bytecode.len() as int)))
        } else {
            None
        },
{
    if params.len() > 0 {
        let input = encoding_of(constructor->Some_0, params)->Ok_0;
        assert((bytecode + input).skip(bytecode.len() as int) =~= input);
    }
}

/// What is given stands in the transaction as the number that it is, and what is not given is what
/// the node answered: the nonce and the gas limit.
pub proof fn nonce_and_gas_limit_are_the_given_numbers(
    tx: TxModel,
    opts: TransactionOpts,
    nonce: Option<u64>,
    gas: Option<u64>,
)
    requires
        fits_u64(opts.nonce),
        fits_u64(opts.gas_limit),
    ensures
        opts.nonce matches Some(given) ==> {
            let set = numbered_tx(tx, opts, nonce).nonce;
            set is Some && set->Some_0 == given@
        },
        opts.nonce is None ==> numbered_tx(tx, opts, nonce).nonce == nonce,
        opts.value is Some ==> numbered_tx(tx, opts, nonce).value == opts.value,
        opts.value is None ==> numbered_tx(tx, opts, nonce).value == tx.value,
        opts.gas_limit matches Some(given) ==> {
            let set = limited_tx(tx, opts, gas).gas;
            set is Some && set->Some_0 == given@
        },
        opts.gas_limit is None ==> limited_tx(tx, opts, gas).gas == gas,
{
}

/// What is given stands in the transaction as the number that it is, and what is not given is what
/// the node answered: the gas price of a legacy transaction, the maximum fee and the priority fee
/// of another one.
pub proof fn fees_are_the_given_numbers(
    tx: TxModel,
    opts: TransactionOpts,
    price: u128,
    estimate: Eip1559Estimation,
    legacy_reply: FeeReply,
)
    requires
        fits_u128(opts.gas_price),
        fits_u128(opts.priority_gas_price),
    ensures
        opts.gas_price matches Some(given) ==> {
            let legacy = priced_tx(tx, opts, true, legacy_reply);
            let other = priced_tx(tx, opts, false, FeeReply::Eip1559(estimate));
            &&& legacy.gas_price is Some
            &&& legacy.gas_price->Some_0 == given@
            &&& other.max_fee_per_gas is Some
            &&& other.max_fee_per_gas->Some_0 == given@
        },
        opts.gas_price is None ==> {
            let legacy = priced_tx(tx, opts, true, FeeReply::GasPrice(price));
            let other = priced_tx(tx, opts, false, FeeReply::Eip1559(estimate));
            &&& legacy.gas_price == Some(price)
            &&& other.max_fee_per_gas == Some(estimate.max_fee_per_gas)
        },
        ({
            let set = priced_tx(
                tx,
                opts,
                false,
                FeeReply::Eip1559(estimate),
            ).max_priority_fee_per_gas;
            &&& set is Some
            &&& opts.priority_gas_price matches Some(given) ==> set->Some_0 == given@
            &&& opts.priority_gas_price is None ==> set == Some(estimate.max_priority_fee_per_gas)
        }),
{
}

/// Each step sets its own fields of the transaction and leaves the others as they were. The fees of
/// a legacy transaction are its gas price alone, and those of another one leave it alone.
pub proof fn steps_leave_other_fields_alone(
    tx: TxModel,
    opts: TransactionOpts,
    legacy: bool,
    nonce: Option<u64>,
    gas: Option<u64>,
    fees: FeeReply,
)
    ensures
        numbered_tx(tx, opts, nonce) == (TxModel {
            nonce: numbered_tx(tx, opts, nonce).nonce,
            value: numbered_tx(tx, opts, nonce).value,
            ..tx
        }),
        limited_tx(tx, opts, gas) == (TxModel { gas: limited_tx(tx, opts, gas).gas, ..tx }),
        legacy ==> priced_tx(tx, opts, legacy, fees) == (TxModel {
            gas_price: priced_tx(tx, opts, legacy, fees).gas_price,
            ..tx
        }),
        !legacy ==> priced_tx(tx, opts, legacy, fees) == (TxModel {
            max_fee_per_gas: priced_tx(tx, opts, legacy, fees).max_fee_per_gas,
            max_priority_fee_per_gas: priced_tx(tx, opts, legacy, fees).max_priority_fee_per_gas,
            ..tx
        }),
{
}

/// The node is asked for the gas price of a legacy transaction that is given none, for an estimate
/// of the fees of every other transaction, and else for nothing; an answer is of the kind that was
/// asked for.
pub proof fn fees_are_asked_for_where_they_are_needed(opts: TransactionOpts, reply: FeeReply)
    ensures
        fees_to_ask(opts, false) == FeeQuery::Eip1559,
        opts.gas_price is None ==> fees_to_ask(opts, true) == FeeQuery::GasPrice,
        opts.gas_price is Some ==> fees_to_ask(opts, true) == FeeQuery::Nothing,
        reply.answers(FeeQuery::Nothing) <==> reply is Nothing,
        reply.answers(FeeQuery::GasPrice) <==> reply is GasPrice,
        reply.answers(FeeQuery::Eip1559) <==> reply is Eip1559,
{
}

/// A number that is given and fits is set as the number that it is.
pub proof fn given_numbers_are_kept(n: U256)
    ensures
        fits_u64(Some(n)) ==> as_u64(Some(n)) is Some && as_u64(Some(n))->Some_0 == n@,
        fits_u128(Some(n)) ==> as_u128(Some(n)) is Some && as_u128(Some(n))->Some_0 == n@,
        as_u64(None) is None,
        as_u128(None) is None,
{
}

/// What is given wins over what was answered, whatever it is.
pub proof fn what_is_given_wins<A>(given: A, fetched: Option<A>)
    ensures
        given_or(Some(given), fetched) == Some(given),
        given_or(None, fetched) == fetched,
{
}

/// A transaction that creates a contract has its data, its sender, its chain and its kind before
/// the node was asked anything, and no more.
pub proof fn a_started_transaction_creates_a_contract(data: Seq<u8>, from: Address, chain: u64)
    ensures
        started_tx(data, from, chain) == (TxModel {
            from: Some(from),
            to: Some(TxKind::Create),
            gas_price: None,
            max_fee_per_gas: None,
            max_priority_fee_per_gas: None,
            gas: None,
            value: None,
            input: Some(data),
            nonce: None,
            chain_id: Some(chain),
        }),
{
}

/// The constructor arguments to verify with are what the arguments are encoded to, whole and in
/// hexadecimal, whatever the types of the inputs are: none where the contract is not to be verified
/// or there are no arguments.
pub proof fn args_to_verify_are_the_encoded_ones(
    constructor: Option<Seq<Param>>,
    params: Seq<DynSolValue>,
)
    ensures
        args_to_verify(false, constructor, params) == Ok::<Option<Seq<char>>, DeployError>(None),
        params.len() == 0 ==> args_to_verify(true, constructor, params) == Ok::<
            Option<Seq<char>>,
            DeployError,
        >(None),
        params.len() > 0 && constructor is None ==> args_to_verify(true, constructor, params)
            == Err::<Option<Seq<char>>, _>(DeployError::NoConstructor),
        constructor matches Some(inputs) ==> params.len() > 0 ==> match encoded_input(
            inputs,
            params,
            usize::BITS,
        ) {
            Ok(bytes) => args_to_verify(true, constructor, params) == Ok::<
                Option<Seq<char>>,
                DeployError,
            >(Some(prefixed_hex(bytes))),
            Err(error) => args_to_verify(true, constructor, params) == Err::<Option<Seq<char>>, _>(
                DeployError::Encoding(error),
            ),
        },
{
}

/// A text that may be missing reads as another exactly if both are missing or both are there and
/// the same.
pub proof fn texts_read_as_themselves(text: Option<String>, expected: Option<Seq<char>>)
    ensures
        reads(text, expected) <==> (text is None && expected is None) || (text is Some
            && expected is Some && text->Some_0@ == expected->Some_0),
{
}

/// A contract that is to be verified has its verification checked before the deployment, with the
/// address zero, the compilation, no optimizer runs and the key that is given; another one has not.
pub proof fn a_check_asks_for_what_is_known_before(
    verify: Option<VerifyArgs>,
    args: CreateArgs,
    constructor_args: Option<String>,
    chain: u64,
    id: ArtifactId,
)
    requires
        is_preflight(verify, args, constructor_args, chain, id),
    ensures
        verify is Some <==> args.verify,
        verify matches Some(v) ==> {
            &&& v.is_made_from(args, chain, constructor_args)
            &&& v.compiler_version == Some(id.version)
            &&& v.compilation_profile == Some(id.profile)
            &&& forall|i: int| 0 <= i < 20 ==> #[trigger] v.address.bytes@[i] == 0
            &&& v.num_of_optimizations is None
            &&& v.etherscan.key == args.eth.etherscan.key
        },
{
}

/// A contract that is to be verified is so after the deployment, at its address, with the
/// compilation if one is named, with the optimizer runs that are given if the optimizer was
/// switched on, and with the key that the options hold; another one is not.
pub proof fn a_request_asks_for_the_deployed_contract(
    verify: Option<VerifyArgs>,
    args: CreateArgs,
    address: Address,
    constructor_args: Option<String>,
    chain: u64,
    id: Option<ArtifactId>,
)
    requires
        is_final(verify, args, address, constructor_args, chain, id),
    ensures
        verify is Some <==> args.verify,
        verify matches Some(v) ==> {
            &&& v.is_made_from(args, chain, constructor_args)
            &&& id is Some ==> v.compiler_version == Some(id->Some_0.version)
                && v.compilation_profile == Some(id->Some_0.profile)
            &&& id is None ==> v.compiler_version is None && v.compilation_profile is None
            &&& v.address == address
            &&& args.opts.compiler.optimize == Some(true) ==> v.num_of_optimizations
                == args.opts.compiler.optimizer_runs
            &&& args.opts.compiler.optimize != Some(true) ==> v.num_of_optimizations is None
            &&& v.etherscan.key == args.eth.etherscan_key
        },
{
}

/// Deployments that differ by their transaction alone have everything else in common.
pub proof fn deployments_that_differ_by_transaction_share_the_rest<B, P, T>(
    a: Deployment<B, P, T>,
    b: Deployment<B, P, T>,
)
    requires
        a.differs_by_tx(b),
    ensures
        b.args == a.args,
        b.params == a.params,
        b.chain == a.chain,
        b.deployer_address == a.deployer_address,
        b.id == a.id,
        b.dry_run == a.dry_run,
        b.legacy == a.legacy,
        b.deployer.abi == a.deployer.abi,
        b.deployer.client == a.deployer.client,
        b.deployer.confs == a.deployer.confs,
        b.deployer.timeout == a.deployer.timeout,
        b.deployer.zk_factory_deps == a.deployer.zk_factory_deps,
        b.deployer.zk_paymaster_params == a.deployer.zk_paymaster_params,
{
}

/// What went wrong with a deployment is told in words, and behind each text its cause.
pub proof fn errors_of_deployments_are_told_in_words(
    error: ContractDeploymentError,
    encoding: alloy_dyn_abi::Error,
    chain: Seq<Seq<char>>,
)
    ensures
        (DeployError::Build { error, no_args: true }).is_told_as(chain) <==> {
            &&& chain.len() == 3
            &&& chain[0]
                == "no arguments provided for contract constructor; consider --constructor-args or --constructor-args-path"@
            &&& chain[1] == "failed to deploy contract"@
            &&& error.is_told_as(chain[2])
        },
        (DeployError::Build { error, no_args: false }).is_told_as(chain) <==> {
            &&& chain.len() == 2
            &&& chain[0] == "failed to deploy contract"@
            &&& error.is_told_as(chain[1])
        },
        DeployError::NoConstructor.is_told_as(chain) <==> chain == seq![
            "could not find constructor"@,
        ],
        DeployError::Encoding(encoding).is_told_as(chain) <==> chain == seq![
            abi_error_text(encoding),
        ],
{
    if chain.len() == 3 && chain[0]
        == "no arguments provided for contract constructor; consider --constructor-args or --constructor-args-path"@
        && chain[1] == "failed to deploy contract"@ {
        assert(chain.drop_last() =~= seq![
            "no arguments provided for contract constructor; consider --constructor-args or --constructor-args-path"@,
            "failed to deploy contract"@,
        ]);
    }
    if chain.len() == 2 && chain[0] == "failed to deploy contract"@ {
        assert(chain.drop_last() =~= seq!["failed to deploy contract"@]);
    }
    if (DeployError::Build { error, no_args: true }).is_told_as(chain) {
        assert(chain[0] == chain.drop_last()[0] && chain[1] == chain.drop_last()[1]);
    }
    if (DeployError::Build { error, no_args: false }).is_told_as(chain) {
        assert(chain[0] == chain.drop_last()[0]);
    }
}

/// A dry run shows the contract, its transaction and its ABI, and says how to broadcast.
pub proof fn a_dry_run_shows_three_lines(
    shown: DryRun,
    contract: Seq<char>,
    transaction: Seq<char>,
    abi: Seq<char>,
)
    requires
        shown.shows(contract, transaction, abi),
    ensures
        shown.warning@ == "Dry run enabled, not broadcasting transaction\n"@,
        shown.lines@.len() == 3,
        shown.lines@[0]@ == "Contract: "@ + contract,
        shown.lines@[1]@ == "Transaction: "@ + transaction,
        shown.lines@[2]@ == "ABI: "@ + abi + "\n"@,
        shown.hint@
            == "To broadcast this transaction, add --broadcast to the previous command. See forge create --help for more."@,
{
    assert(texts(shown.lines@).len() == shown.lines@.len());
    assert(texts(shown.lines@)[0] == shown.lines@[0]@);
    assert(texts(shown.lines@)[1] == shown.lines@[1]@);
    assert(texts(shown.lines@)[2] == shown.lines@[2]@);
}

} // verus!
