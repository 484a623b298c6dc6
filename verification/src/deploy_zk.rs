//! A deployment on ZKsync, step by step. Each step takes what the node answered, if it had to be
//! asked, and leads to the next.

use crate::abi::JsonAbi;
use crate::args::{copy_text, ArtifactId, CreateArgs};
use crate::deploy::{
    args_to_verify, as_u128, as_u64, given_or, is_final, is_preflight, numbered_tx, reads,
    DeployError, Deployed, DryRun, Outcome,
};
use crate::distinct::contents;
use crate::factory::{
    deployed, zk_constructor_args, ContractDeploymentError, DeploymentTxFactory, Receipt,
    SendError, ZkDeployer, ZkSyncData,
};
use crate::factory_deps::{code_of, is_collection, reachable, FactoryDep};
use crate::linking::BytecodeObject;
use crate::primitives::{fits_u128, fits_u64, prefixed_hex, Address, U256};
use crate::tx::{
    calls_contract_deployer, empty_meta, is_zk_bytecode, only_input, paymaster_view,
    zk_create_calldata, zk_transaction_json, MetaModel, PaymasterModel, PaymasterParams, TxKind,
    TxModel, ZkTransactionRequest, ZkTxModel,
};
use crate::verify::VerifyArgs;
use alloy_dyn_abi::DynSolValue;
use alloy_json_abi::Param;
use vstd::pervasive::unreached;
use vstd::prelude::*;
use vstd::string::*;

verus! {

/// A ZKsync transaction with its sender, its chain, the bytecodes that it makes known and the
/// paymaster if one is given, before the node was asked anything.
pub open spec fn zk_started_tx(
    tx: ZkTxModel,
    factory_deps: Seq<Seq<u8>>,
    paymaster: Option<PaymasterModel>,
    from: Address,
    chain: u64,
) -> ZkTxModel {
    ZkTxModel {
        base: TxModel {
            from: Some(from),
            chain_id: Some(chain),
            to: given_or(tx.base.to, Some(TxKind::Create)),
            ..tx.base
        },
        eip712_meta: Some(
            MetaModel {
                factory_deps,
                paymaster_params: given_or(paymaster, tx.meta().paymaster_params),
                ..tx.meta()
            },
        ),
    }
}

/// Whether a transaction creates a contract on ZKsync from this data, before the node was asked
/// anything.
pub open spec fn starts_zk_creation(
    tx: ZkTxModel,
    zk_data: ZkSyncData,
    constructor_args: Seq<u8>,
    from: Address,
    chain: u64,
) -> bool {
    &&& calls_contract_deployer(tx.base.to)
    &&& tx == (ZkTxModel {
        base: TxModel {
            from: Some(from),
            chain_id: Some(chain),
            to: tx.base.to,
            ..only_input(zk_create_calldata(zk_data.bytecode@, constructor_args))
        },
        eip712_meta: Some(
            MetaModel {
                factory_deps: contents(zk_data.factory_deps@),
                paymaster_params: paymaster_view(zk_data.paymaster_params),
                ..empty_meta()
            },
        ),
    })
}

impl CreateArgs {
    /// Deploys the contract on ZKsync: builds the transaction, as far as that goes without the
    /// node. It is a dry run unless the transaction is to be broadcast.
    pub fn deploy_zk<B: Clone, P, T>(
        self,
        abi: JsonAbi,
        bin: BytecodeObject,
        params: Vec<DynSolValue>,
        client: B,
        chain: u64,
        deployer_address: Address,
        timeout: u64,
        id: ArtifactId,
        zk_data: ZkSyncData,
    ) -> (r: Result<ZkAwaitingNonce<B, P, T>, DeployError>)
        requires
            bin is Bytecode,
        ensures
            match zk_constructor_args(abi@, params@) {
                Err(error) => r matches Err(e) && e == (DeployError::Build {
                    error,
                    no_args: params@.len() == 0,
                }),
                Ok(args) => if is_zk_bytecode(zk_data.bytecode@) {
                    r matches Ok(next) && {
                        let d = next@;
                        &&& d.args == self
                        &&& d.params == params
                        &&& d.chain == chain
                        &&& d.deployer_address == deployer_address
                        &&& d.id == id
                        &&& d.dry_run == !self.broadcast
                        &&& starts_zk_creation(
                            d.deployer.tx@,
                            zk_data,
                            args,
                            deployer_address,
                            chain,
                        )
                        &&& d.deployer.abi == abi
                        &&& cloned(client, d.deployer.client)
                        &&& d.deployer.confs == 1
                        &&& d.deployer.timeout == timeout
                        &&& d.deployer.zk_factory_deps is None
                    }
                } else {
                    r matches Err(e) && e == (DeployError::Build {
                        error: ContractDeploymentError::TransactionBuildError,
                        no_args: params@.len() == 0,
                    })
                },
            },
    {
        let bytecode = match bin {
            BytecodeObject::Bytecode(bytecode) => bytecode,
            BytecodeObject::Unlinked(_) => unreached(),
        };
        let factory: DeploymentTxFactory<B, P, T> = DeploymentTxFactory::new_zk(
            abi,
            bytecode,
            client,
            timeout,
        );
        let no_args = params.len() == 0;
        let copy = params.clone();
        assert(copy@ =~= params@);
        match factory.deploy_tokens_zk(copy, &zk_data) {
            Ok(deployer) => Ok(
                self.start_zk_deployment(
                    deployer,
                    params,
                    chain,
                    deployer_address,
                    id,
                    zk_data.factory_deps,
                    zk_data.paymaster_params,
                ),
            ),
            Err(error) => Err(DeployError::Build { error, no_args }),
        }
    }

    /// Starts the deployment of a transaction that makes these bytecodes known, in place of
    /// those it made known before, and whose fees the paymaster pays if there is one. It is a dry
    /// run unless the transaction is to be broadcast.
    pub fn start_zk_deployment<B, P, T>(
        self,
        deployer: ZkDeployer<B, P, T>,
        params: Vec<DynSolValue>,
        chain: u64,
        deployer_address: Address,
        id: ArtifactId,
        factory_deps: Vec<Vec<u8>>,
        paymaster_params: Option<PaymasterParams>,
    ) -> (r: ZkAwaitingNonce<B, P, T>)
        ensures
            r@.deployer.tx@ == zk_started_tx(
                deployer.tx@,
                contents(factory_deps@),
                paymaster_view(paymaster_params),
                deployer_address,
                chain,
            ),
            r@ == (ZkDeployment {
                args: self,
                params,
                deployer: ZkDeployer { tx: r@.deployer.tx, ..deployer },
                chain,
                deployer_address,
                id,
                dry_run: !self.broadcast,
            }),
    {
        let dry_run = !self.broadcast;
        let mut deployer = deployer;
        let mut tx = deployer.tx.with_factory_deps(factory_deps);
        if let Some(params) = paymaster_params {
            tx = tx.with_paymaster_params(params);
        }
        tx.base.from = Some(deployer_address);
        tx.base.chain_id = Some(chain);
        // The recipient must be set explicitly.
        if tx.base.to.is_none() {
            tx.base.to = Some(TxKind::Create);
        }
        deployer.tx = tx;
        ZkAwaitingNonce {
            deployment: ZkDeployment {
                args: self,
                params,
                deployer,
                chain,
                deployer_address,
                id,
                dry_run,
            },
        }
    }
}

/// A deployment on ZKsync that is under way.
#[derive(Debug)]
pub struct ZkDeployment<B, P, T> {
    pub args: CreateArgs,
    /// The values for the constructor.
    pub params: Vec<DynSolValue>,
    pub deployer: ZkDeployer<B, P, T>,
    pub chain: u64,
    pub deployer_address: Address,
    pub id: ArtifactId,
    /// Whether the transaction is only shown.
    pub dry_run: bool,
}

impl<B, P, T> ZkDeployment<B, P, T> {
    /// The same deployment with another transaction.
    pub open spec fn with_tx(self, tx: ZkTransactionRequest) -> Self {
        ZkDeployment { deployer: ZkDeployer { tx, ..self.deployer }, ..self }
    }

    /// Whether another deployment differs from this one by its transaction alone.
    pub open spec fn differs_by_tx(self, other: Self) -> bool {
        other == self.with_tx(other.deployer.tx)
    }
}

/// A deployment whose transaction needs a nonce.
#[derive(Debug)]
pub struct ZkAwaitingNonce<B, P, T> {
    deployment: ZkDeployment<B, P, T>,
}

impl<B, P, T> View for ZkAwaitingNonce<B, P, T> {
    type V = ZkDeployment<B, P, T>;

    closed spec fn view(&self) -> ZkDeployment<B, P, T> {
        self.deployment
    }
}

/// A deployment whose transaction needs a gas price.
#[derive(Debug)]
pub struct ZkAwaitingGasPrice<B, P, T> {
    deployment: ZkDeployment<B, P, T>,
}

impl<B, P, T> View for ZkAwaitingGasPrice<B, P, T> {
    type V = ZkDeployment<B, P, T>;

    closed spec fn view(&self) -> ZkDeployment<B, P, T> {
        self.deployment
    }
}

/// A deployment whose transaction needs its fees estimated.
#[derive(Debug)]
pub struct ZkAwaitingEstimate<B, P, T> {
    deployment: ZkDeployment<B, P, T>,
}

impl<B, P, T> View for ZkAwaitingEstimate<B, P, T> {
    type V = ZkDeployment<B, P, T>;

    closed spec fn view(&self) -> ZkDeployment<B, P, T> {
        self.deployment
    }
}

/// A deployment whose transaction is complete, and whose verification is to be checked.
#[derive(Debug)]
pub struct ZkAwaitingCheck<B, P, T> {
    deployment: ZkDeployment<B, P, T>,
}

impl<B, P, T> View for ZkAwaitingCheck<B, P, T> {
    type V = ZkDeployment<B, P, T>;

    closed spec fn view(&self) -> ZkDeployment<B, P, T> {
        self.deployment
    }
}

/// A deployment that waits for what comes of the check of its verification.
#[derive(Debug)]
pub struct ZkAwaitingVerdict<B, P, T> {
    deployment: ZkDeployment<B, P, T>,
    /// The constructor arguments to verify with, in hexadecimal.
    constructor_args: Option<String>,
}

impl<B, P, T> View for ZkAwaitingVerdict<B, P, T> {
    type V = ZkDeployment<B, P, T>;

    closed spec fn view(&self) -> ZkDeployment<B, P, T> {
        self.deployment
    }
}

/// A deployment that is ready to be sent, or to be shown.
#[derive(Debug)]
pub struct ZkReady<B, P, T> {
    deployment: ZkDeployment<B, P, T>,
    /// The constructor arguments to verify with, in hexadecimal.
    constructor_args: Option<String>,
}

impl<B, P, T> View for ZkReady<B, P, T> {
    type V = ZkDeployment<B, P, T>;

    closed spec fn view(&self) -> ZkDeployment<B, P, T> {
        self.deployment
    }
}

impl<B, P, T> ZkAwaitingNonce<B, P, T> {
    /// The deployment so far.
    pub fn deployment(&self) -> (r: &ZkDeployment<B, P, T>)
        ensures
            *r == self@,
    {
        &self.deployment
    }

    /// The account whose nonce the node has to be asked for, unless a nonce is given.
    pub fn query(&self) -> (r: Option<Address>)
        ensures
            r == if self@.args.tx.nonce is None {
                Some(self@.deployer_address)
            } else {
                None
            },
    {
        match self.deployment.args.tx.nonce {
            None => Some(self.deployment.deployer_address),
            Some(_) => None,
        }
    }

    /// Sets the nonce, and the value if one is given.
    pub fn set_nonce(self, fetched: Option<u64>) -> (r: ZkAwaitingGasPrice<B, P, T>)
        requires
            fits_u64(self@.args.tx.nonce),
            self@.args.tx.nonce is None ==> fetched is Some,
        ensures
            self@.differs_by_tx(r@),
            r@.deployer.tx@ == (ZkTxModel {
                base: numbered_tx(
                    self@.deployer.tx@.base,
                    self@.args.tx,
                    fetched,
                ),
                ..self@.deployer.tx@
            }),
            self@.args.tx.nonce matches Some(nonce) ==> r@.deployer.tx.base.nonce is Some
                && r@.deployer.tx.base.nonce->Some_0 == nonce@,
            self@.args.tx.nonce is None ==> r@.deployer.tx.base.nonce == fetched,
    {
        let mut deployment = self.deployment;
        deployment.deployer.tx.base.nonce = match deployment.args.tx.nonce {
            Some(nonce) => nonce.to_u64(),
            None => fetched,
        };
        if let Some(value) = deployment.args.tx.value {
            deployment.deployer.tx.base.value = Some(value);
        }
        ZkAwaitingGasPrice { deployment }
    }
}

impl<B, P, T> ZkAwaitingGasPrice<B, P, T> {
    /// The deployment so far.
    pub fn deployment(&self) -> (r: &ZkDeployment<B, P, T>)
        ensures
            *r == self@,
    {
        &self.deployment
    }

    /// Whether the node has to be asked for the gas price.
    pub fn query(&self) -> (r: bool)
        ensures
            r == (self@.args.tx.gas_price is None),
    {
        self.deployment.args.tx.gas_price.is_none()
    }

    /// Sets the gas price.
    pub fn set_gas_price(self, fetched: Option<u128>) -> (r: ZkAwaitingEstimate<B, P, T>)
        requires
            fits_u128(self@.args.tx.gas_price),
            self@.args.tx.gas_price is None ==> fetched is Some,
        ensures
            self@.differs_by_tx(r@),
            r@.deployer.tx@ == (ZkTxModel {
                base: TxModel {
                    gas_price: given_or(as_u128(self@.args.tx.gas_price), fetched),
                    ..self@.deployer.tx@.base
                },
                ..self@.deployer.tx@
            }),
            self@.args.tx.gas_price matches Some(price) ==> r@.deployer.tx.base.gas_price is Some
                && r@.deployer.tx.base.gas_price->Some_0 == price@,
            self@.args.tx.gas_price is None ==> r@.deployer.tx.base.gas_price == fetched,
    {
        let mut deployment = self.deployment;
        deployment.deployer.tx.base.gas_price = match deployment.args.tx.gas_price {
            Some(gas_price) => gas_price.to_u128(),
            None => fetched,
        };
        ZkAwaitingEstimate { deployment }
    }
}

/// How the fees of a ZKsync transaction are estimated.
#[derive(Debug, Clone, Copy, PartialEq, Eq)]
pub struct FeeEstimation {
    /// The multiplier that the estimation is made with.
    pub multiplier: u64,
    pub gas_per_pubdata: Option<u64>,
}

impl<B, P, T> ZkAwaitingEstimate<B, P, T> {
    /// The deployment so far.
    pub fn deployment(&self) -> (r: &ZkDeployment<B, P, T>)
        ensures
            *r == self@,
    {
        &self.deployment
    }

    /// How the transaction's fees have to be estimated.
    pub fn query(&self) -> (r: FeeEstimation)
        ensures
            r.multiplier == 130,
            r.gas_per_pubdata == self@.args.zk_gas_per_pubdata,
    {
        FeeEstimation {
            multiplier: 130,
            gas_per_pubdata: self.deployment.args.zk_gas_per_pubdata,
        }
    }

    /// Takes the transaction as the estimation left it, and sets the gas limit if one is given.
    pub fn set_estimated(self, estimated: ZkTransactionRequest) -> (r: ZkAwaitingCheck<B, P, T>)
        requires
            fits_u64(self@.args.tx.gas_limit),
        ensures
            self@.differs_by_tx(r@),
            r@.deployer.tx@ == (ZkTxModel {
                base: TxModel {
                    gas: given_or(as_u64(self@.args.tx.gas_limit), estimated@.base.gas),
                    ..estimated@.base
                },
                ..estimated@
            }),
            self@.args.tx.gas_limit matches Some(limit) ==> r@.deployer.tx.base.gas is Some
                && r@.deployer.tx.base.gas->Some_0 == limit@,
            self@.args.tx.gas_limit is None ==> r@.deployer.tx.base.gas == estimated.base.gas,
    {
        let mut deployment = self.deployment;
        deployment.deployer.tx = estimated;
        if let Some(gas_limit) = deployment.args.tx.gas_limit {
            deployment.deployer.tx.base.gas = gas_limit.to_u64();
        }
        ZkAwaitingCheck { deployment }
    }
}

impl<B, P, T> ZkAwaitingCheck<B, P, T> {
    /// The deployment so far.
    pub fn deployment(&self) -> (r: &ZkDeployment<B, P, T>)
        ensures
            *r == self@,
    {
        &self.deployment
    }

    /// Before the contract is deployed, makes the request with which the verify settings are
    /// checked, if the contract is to be verified.
    pub fn check(self) -> (r: Result<
        (ZkAwaitingVerdict<B, P, T>, Option<VerifyArgs>),
        DeployError,
    >)
        ensures
            match args_to_verify(self@.args.verify, self@.deployer.abi@, self@.params@) {
                Ok(expected) => r matches Ok((next, verify)) && {
                    &&& next@ == self@
                    &&& reads(next.args_to_verify(), expected)
                    &&& is_preflight(
                        verify,
                        self@.args,
                        next.args_to_verify(),
                        self@.chain,
                        self@.id,
                    )
                },
                Err(error) => r matches Err(e) && e == error,
            },
    {
        let deployment = self.deployment;
        match deployment.args.constructor_args_to_verify(
            &deployment.deployer.abi,
            &deployment.params,
        ) {
            Ok(constructor_args) => {
                let verify = if deployment.args.verify {
                    Some(
                        deployment.args.verify_preflight_check(
                            copy_text(&constructor_args),
                            deployment.chain,
                            &deployment.id,
                        ),
                    )
                } else {
                    None
                };
                Ok((ZkAwaitingVerdict { deployment, constructor_args }, verify))
            },
            Err(error) => Err(error),
        }
    }
}

impl<B, P, T> ZkAwaitingVerdict<B, P, T> {
    /// The constructor arguments to verify with, in hexadecimal.
    pub closed spec fn args_to_verify(self) -> Option<String> {
        self.constructor_args
    }

    /// Takes what came of the check. Only a deployment whose check did not fail can be sent; the
    /// check of one that is not to be verified does not fail.
    pub fn checked<E>(self, outcome: Result<(), E>) -> (r: Result<ZkReady<B, P, T>, E>)
        ensures
            match outcome {
                Ok(()) => r matches Ok(ready) && ready@ == self@ && ready.args_to_verify()
                    == self.args_to_verify(),
                Err(error) => r matches Err(e) && e == error,
            },
    {
        match outcome {
            Ok(()) => Ok(
                ZkReady {
                    deployment: self.deployment,
                    constructor_args: self.constructor_args,
                },
            ),
            Err(error) => Err(error),
        }
    }
}

impl<B, P, T> ZkReady<B, P, T> {
    /// The deployment so far.
    pub fn deployment(&self) -> (r: &ZkDeployment<B, P, T>)
        ensures
            *r == self@,
    {
        &self.deployment
    }

    /// The constructor arguments to verify with, in hexadecimal.
    pub closed spec fn args_to_verify(self) -> Option<String> {
        self.constructor_args
    }

    /// The constructor arguments to verify with, in hexadecimal.
    pub fn constructor_args(&self) -> (r: &Option<String>)
        ensures
            *r == self.args_to_verify(),
    {
        &self.constructor_args
    }

    /// What is done with the transaction: it is broadcast unless this is a dry run.
    pub fn outcome(&self) -> (r: Outcome)
        ensures
            r == if self@.dry_run {
                Outcome::Show
            } else {
                Outcome::Broadcast
            },
    {
        if self.deployment.dry_run {
            Outcome::Show
        } else {
            Outcome::Broadcast
        }
    }

    /// What is shown in place of the deployment, with the ABI as JSON, if the transaction can be
    /// written as JSON.
    pub fn dry_run(&self, abi: &str) -> (r: Option<DryRun>)
        ensures
            match zk_transaction_json(self@.deployer.tx@) {
                Some(transaction) => r matches Some(shown) && shown.shows(
                    self@.args.contract.name@,
                    transaction,
                    abi@,
                ),
                None => r is None,
            },
    {
        match self.deployment.deployer.tx.to_json() {
            Some(transaction) => Some(
                DryRun::new(
                    self.deployment.args.contract.name.as_str(),
                    transaction.as_str(),
                    abi,
                ),
            ),
            None => None,
        }
    }

    /// Takes what came of sending the transaction: where the contract was deployed, and the
    /// request to verify it. That request names no compilation.
    pub fn sent(self, sent: Result<Receipt, SendError>) -> (r: Result<
        Deployed,
        ContractDeploymentError,
    >)
        requires
            !self@.dry_run,
        ensures
            match deployed(sent) {
                Ok((address, receipt)) => r matches Ok(d) && {
                    &&& d.deployer == self@.deployer_address
                    &&& d.deployed_to == address
                    &&& d.transaction_hash == receipt.transaction_hash
                    &&& is_final(
                        d.verify,
                        self@.args,
                        address,
                        self.args_to_verify(),
                        self@.chain,
                        None,
                    )
                },
                Err(error) => r matches Err(e) && e == error,
            },
    {
        let deployment = self.deployment;
        match deployment.deployer.send_with_receipt(sent) {
            Ok((address, receipt)) => {
                let verify = if deployment.args.verify {
                    Some(
                        deployment.args.verify_deployed(
                            address,
                            self.constructor_args,
                            deployment.chain,
                            None,
                        ),
                    )
                } else {
                    None
                };
                Ok(
                    Deployed {
                        deployer: deployment.deployer_address,
                        deployed_to: address,
                        transaction_hash: receipt.transaction_hash,
                        verify,
                    },
                )
            },
            Err(error) => Err(error),
        }
    }
}

/// A deployment on ZKsync makes known the contract's own bytecode and those of all contracts that
/// it can come to create, each once, and no others.
pub proof fn zk_tx_makes_every_reachable_code_known_once(
    tx: ZkTxModel,
    zk_data: ZkSyncData,
    constructor_args: Seq<u8>,
    from: Address,
    chain: u64,
    roots: Seq<Seq<char>>,
    deps: Seq<FactoryDep>,
)
    requires
        starts_zk_creation(tx, zk_data, constructor_args, from, chain),
        is_collection(roots, deps, zk_data.bytecode@, contents(zk_data.factory_deps@)),
    ensures
        tx.eip712_meta is Some,
        tx.meta().factory_deps.no_duplicates(),
        forall|code: Seq<u8>| #[trigger]
            tx.meta().factory_deps.contains(code) <==> code == zk_data.bytecode@ || exists|
                id: Seq<char>,
            | #[trigger]
                reachable(roots, deps, id) && code_of(deps, id) == code,
{
}

/// Steps that change the transaction alone, taken one after the other, change the transaction
/// alone: a dry run stays a dry run.
pub proof fn zk_steps_change_the_transaction_alone<B, P, T>(
    a: ZkDeployment<B, P, T>,
    b: ZkDeployment<B, P, T>,
    c: ZkDeployment<B, P, T>,
)
    requires
        a.differs_by_tx(b),
        b.differs_by_tx(c),
    ensures
        a.differs_by_tx(c),
        c.args == a.args,
        c.params == a.params,
        c.chain == a.chain,
        c.deployer_address == a.deployer_address,
        c.dry_run == a.dry_run,
{
}

/// Where a deployment on ZKsync could be built with arguments, the check before it finds the same
/// arguments to verify with.
pub proof fn zk_args_to_verify_are_those_deployed(
    constructor: Option<Seq<Param>>,
    params: Seq<DynSolValue>,
    args: Seq<u8>,
)
    requires
        params.len() > 0,
        zk_constructor_args(constructor, params) == Ok::<Seq<u8>, ContractDeploymentError>(args),
    ensures
        args_to_verify(true, constructor, params) == Ok::<Option<Seq<char>>, DeployError>(
            Some(prefixed_hex(args)),
        ),
{
}

/// Before the node was asked anything, a ZKsync transaction has its sender and its chain, keeps
/// what it is addressed to or creates a contract, makes exactly the given bytecodes known, and has
/// the given paymaster or keeps its own. Nothing else of it changes.
pub proof fn a_started_zk_transaction_keeps_the_rest(
    tx: ZkTxModel,
    factory_deps: Seq<Seq<u8>>,
    paymaster: Option<PaymasterModel>,
    from: Address,
    chain: u64,
)
    ensures
        ({
            let started = zk_started_tx(tx, factory_deps, paymaster, from, chain);
            &&& started.base == (TxModel {
                from: Some(from),
                chain_id: Some(chain),
                to: started.base.to,
                ..tx.base
            })
            &&& tx.base.to is Some ==> started.base.to == tx.base.to
            &&& tx.base.to is None ==> started.base.to == Some(TxKind::Create)
            &&& started.eip712_meta is Some
            &&& started.eip712_meta->Some_0.factory_deps == factory_deps
            &&& paymaster is Some ==> started.eip712_meta->Some_0.paymaster_params == paymaster
            &&& tx.eip712_meta is Some ==> started.eip712_meta->Some_0.gas_per_pubdata
                == tx.eip712_meta->Some_0.gas_per_pubdata
            &&& tx.eip712_meta is None ==> started.eip712_meta->Some_0.gas_per_pubdata == 0
            &&& paymaster is None && tx.eip712_meta is Some
                ==> started.eip712_meta->Some_0.paymaster_params
                == tx.eip712_meta->Some_0.paymaster_params
            &&& paymaster is None && tx.eip712_meta is None
                ==> started.eip712_meta->Some_0.paymaster_params is None
        }),
{
}

/// A transaction that starts to create a contract on ZKsync calls the contract deployer with the
/// contract's bytecode and its arguments, from its sender on its chain. It makes exactly the given
/// bytecodes known, in their order, and has the given paymaster, if there is one.
pub proof fn a_zk_creation_starts_with_its_data(
    tx: ZkTxModel,
    zk_data: ZkSyncData,
    constructor_args: Seq<u8>,
    from: Address,
    chain: u64,
)
    requires
        starts_zk_creation(tx, zk_data, constructor_args, from, chain),
    ensures
        calls_contract_deployer(tx.base.to),
        tx.base == (TxModel {
            from: Some(from),
            to: tx.base.to,
            gas_price: None,
            max_fee_per_gas: None,
            max_priority_fee_per_gas: None,
            gas: None,
            value: None,
            input: Some(zk_create_calldata(zk_data.bytecode@, constructor_args)),
            nonce: None,
            chain_id: Some(chain),
        }),
        tx.eip712_meta is Some,
        tx.eip712_meta->Some_0.gas_per_pubdata == 0,
        tx.eip712_meta->Some_0.factory_deps.len() == zk_data.factory_deps@.len(),
        forall|i: int|
            0 <= i < zk_data.factory_deps@.len() ==> #[trigger]
            tx.eip712_meta->Some_0.factory_deps[i] == zk_data.factory_deps@[i]@,
        zk_data.paymaster_params is None ==> tx.eip712_meta->Some_0.paymaster_params is None,
        zk_data.paymaster_params is Some ==> {
            let paymaster = tx.eip712_meta->Some_0.paymaster_params;
            &&& paymaster is Some
            &&& paymaster->Some_0.paymaster == zk_data.paymaster_params->Some_0.paymaster
            &&& paymaster->Some_0.paymaster_input
                == zk_data.paymaster_params->Some_0.paymaster_input@
        },
{
}

/// Deployments on ZKsync that differ by their transaction alone have everything else in common.
pub proof fn zk_deployments_that_differ_by_transaction_share_the_rest<B, P, T>(
    a: ZkDeployment<B, P, T>,
    b: ZkDeployment<B, P, T>,
)
    requires
        a.differs_by_tx(b),
    ensures
        b.args == a.args,
        b.params == a.params,
        b.chain == a.chain,
        b.deployer_address == a.deployer_address,
        b.id == a.id,
        b.dry_run == a.dry_run,
        b.deployer.abi == a.deployer.abi,
        b.deployer.client == a.deployer.client,
        b.deployer.confs == a.deployer.confs,
        b.deployer.timeout == a.deployer.timeout,
        b.deployer.zk_factory_deps == a.deployer.zk_factory_deps,
{
}

/// The number that is given stands in a ZKsync transaction: a gas price or a gas limit that fits is
/// set as the number that it is, and one that is not given is what the node answered.
pub proof fn zk_gas_is_the_given_number(
    price: Option<U256>,
    fetched: Option<u128>,
    limit: Option<U256>,
    estimated: Option<u64>,
)
    requires
        fits_u128(price),
        fits_u64(limit),
    ensures
        price is Some ==> given_or(as_u128(price), fetched) is Some && given_or(
            as_u128(price),
            fetched,
        )->Some_0 == price->Some_0@,
        price is None ==> given_or(as_u128(price), fetched) == fetched,
        limit is Some ==> given_or(as_u64(limit), estimated) is Some && given_or(
            as_u64(limit),
            estimated,
        )->Some_0 == limit->Some_0@,
        limit is None ==> given_or(as_u64(limit), estimated) == estimated,
{
}

} // verus!
