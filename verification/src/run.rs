//! The command from its arguments up to a deployment, step by step. Each step takes what the
//! compiler, a file, the node or the signer gave, and leads to the next.

use crate::abi::{come_from_texts, JsonAbi};
use crate::args::{ArgsSource, ArtifactId, ConstructorArgsError, CreateArgs, Target};
use crate::deploy::{started_tx, AwaitingNonce, DeployError};
use crate::deploy_zk::{starts_zk_creation, ZkAwaitingNonce};
use crate::distinct::contents;
use crate::factory::{creation_data, zk_constructor_args, ContractDeploymentError, ZkSyncData};
use crate::factory_deps::{
    all_can_be_followed, collect_factory_deps, is_collection, is_first_fault, FactoryDep,
    FactoryDepsError,
};
use crate::linking::{
    link_lines, linking_refusal, missing_library_lines, BytecodeObject, EvmBytecode, ZkBytecode,
};
use crate::primitives::{chain_is_legacy, Address};
use crate::text::{has_colon, texts};
use crate::tx::{copy_bytes, is_zk_bytecode, paymaster_view, PaymasterParams};
use alloy_dyn_abi::DynSolValue;
use vstd::prelude::*;
use vstd::string::*;

verus! {

/// A command that is under way, at the step that this is the state of.
#[derive(Debug)]
pub struct Step<S> {
    state: S,
}

impl<S> View for Step<S> {
    type V = S;

    closed spec fn view(&self) -> S {
        self.state
    }
}

impl<S> Step<S> {
    /// What is known at this step.
    pub fn state(&self) -> (r: &S)
        ensures
            *r == self@,
    {
        &self.state
    }
}

/// The command at its start: which compiler the contract needs.
#[derive(Debug)]
pub enum Run {
    Evm(Step<EvmRun>),
    Zk(Step<ZkRun>),
}

/// A command whose contract needs the EVM compiler.
#[derive(Debug)]
pub struct EvmRun {
    pub args: CreateArgs,
}

/// A command whose contract needs the ZKsync compiler.
#[derive(Debug)]
pub struct ZkRun {
    pub args: CreateArgs,
    pub paymaster_params: Option<PaymasterParams>,
}

/// Why the command ends before there is a deployment.
#[derive(Debug)]
pub enum RunError {
    /// The bytecode lacks library addresses: the refusal that names the libraries.
    Unlinked(String),
    /// The constructor arguments could not be parsed.
    ConstructorArgs(ConstructorArgsError),
}

impl RunError {
    /// What went wrong, in words, and behind it the cause.
    pub open spec fn chain(self) -> Seq<Seq<char>> {
        match self {
            Self::Unlinked(refusal) => seq![refusal@],
            Self::ConstructorArgs(error) => error.chain(),
        }
    }

    /// What went wrong, in words, and behind it the cause.
    pub fn messages(&self) -> (r: Vec<String>)
        ensures
            texts(r@) == self.chain(),
    {
        match self {
            Self::Unlinked(refusal) => {
                let mut out: Vec<String> = Vec::new();
                out.push(refusal.clone());
                assert(texts(out@) =~= self.chain());
                out
            },
            Self::ConstructorArgs(error) => error.messages(),
        }
    }
}

impl CreateArgs {
    /// Executes the command to create a contract, up to what has to be compiled.
    pub fn run(self) -> (r: Run)
        ensures
            if self.opts.compiler.zk.enabled {
                r matches Run::Zk(run) && run@.args == self && paymaster_view(
                    run@.paymaster_params,
                ) == self.opts.compiler.zk.paymaster()
            } else {
                r matches Run::Evm(run) && run@ == (EvmRun { args: self })
            },
    {
        if self.opts.compiler.zk.enabled {
            let paymaster_params = self.paymaster_params();
            Run::Zk(Step { state: ZkRun { args: self, paymaster_params } })
        } else {
            Run::Evm(Step { state: EvmRun { args: self } })
        }
    }
}

/// What the EVM compiler made of the contract.
#[derive(Debug)]
pub struct EvmOutput {
    pub abi: JsonAbi,
    pub bytecode: EvmBytecode,
    pub id: ArtifactId,
}

/// A command whose contract was compiled to complete bytecode.
#[derive(Debug)]
pub struct EvmLinked {
    pub args: CreateArgs,
    pub abi: JsonAbi,
    pub bytecode: Vec<u8>,
    pub id: ArtifactId,
}

/// A command whose constructor arguments were parsed.
#[derive(Debug)]
pub struct EvmParsed {
    pub args: CreateArgs,
    pub abi: JsonAbi,
    pub bytecode: Vec<u8>,
    pub id: ArtifactId,
    /// The values for the constructor.
    pub params: Vec<DynSolValue>,
}

impl Step<EvmRun> {
    /// What the contract to compile is found by.
    pub fn target(&self) -> (r: Target<'_>)
        ensures
            r == self@.args.target_to_find(),
    {
        self.state.args.target()
    }

    /// Takes the compiler's output. Bytecode that lacks library addresses is refused.
    pub fn compiled(self, output: EvmOutput) -> (r: Result<Step<EvmLinked>, RunError>)
        ensures
            match output.bytecode.object {
                BytecodeObject::Bytecode(bytecode) => r matches Ok(next) && next@ == (EvmLinked {
                    args: self@.args,
                    abi: output.abi,
                    bytecode,
                    id: output.id,
                }),
                BytecodeObject::Unlinked(_) => r matches Err(RunError::Unlinked(refusal))
                    && refusal@ == linking_refusal(link_lines(output.bytecode.link_references@)),
            },
    {
        match output.bytecode.linked() {
            Ok(bytecode) => Ok(
                Step {
                    state: EvmLinked {
                        args: self.state.args,
                        abi: output.abi,
                        bytecode,
                        id: output.id,
                    },
                },
            ),
            Err(refusal) => Err(RunError::Unlinked(refusal)),
        }
    }
}

impl Step<EvmLinked> {
    /// Where the constructor arguments are taken from.
    pub fn args_source(&self) -> (r: ArgsSource<'_>)
        ensures
            r == self@.args.args_source(self@.abi@),
    {
        self.state.args.constructor_args_source(&self.state.abi)
    }

    /// Parses the constructor arguments: those of the file, if they are taken from one.
    pub fn parse(self, file: Option<Vec<String>>) -> (r: Result<Step<EvmParsed>, RunError>)
        requires
            file is Some <==> self@.args.args_source(self@.abi@) is File,
        ensures
            match r {
                Ok(next) => {
                    &&& next@ == (EvmParsed {
                        args: self@.args,
                        abi: self@.abi,
                        bytecode: self@.bytecode,
                        id: self@.id,
                        params: next@.params,
                    })
                    &&& self@.args.are_params(self@.abi, file, Ok(next@.params))
                },
                Err(RunError::ConstructorArgs(error)) => self@.args.are_params(
                    self@.abi,
                    file,
                    Err(error),
                ),
                Err(RunError::Unlinked(_)) => false,
            },
    {
        match self.state.args.constructor_params(&self.state.abi, file) {
            Ok(params) => Ok(
                Step {
                    state: EvmParsed {
                        args: self.state.args,
                        abi: self.state.abi,
                        bytecode: self.state.bytecode,
                        id: self.state.id,
                        params,
                    },
                },
            ),
            Err(error) => Err(RunError::ConstructorArgs(error)),
        }
    }
}

impl Step<EvmParsed> {
    /// Whether the node has to be asked which chain it is on.
    pub fn needs_chain_id(&self) -> (r: bool)
        ensures
            r == (self@.args.eth.etherscan.chain is None),
    {
        self.state.args.chain_id().is_none()
    }

    /// Whether a signer has to be opened.
    pub fn needs_signer(&self) -> (r: bool)
        ensures
            r == !self@.args.unlocked,
    {
        !self.state.args.unlocked
    }

    /// Starts the deployment: on the provided chain or the node's, from the given sender's
    /// account or the signer's, and as a dry run unless the transaction is to be broadcast.
    pub fn deploy<B: Clone, P, T>(
        self,
        client: B,
        fetched_chain: Option<u64>,
        signer: Option<Address>,
        timeout: u64,
    ) -> (r: Result<AwaitingNonce<B, P, T>, DeployError>)
        requires
            self@.args.eth.etherscan.chain is None ==> fetched_chain is Some,
            self@.args.unlocked ==> self@.args.eth.from is Some,
            !self@.args.unlocked ==> signer is Some,
        ensures
            match creation_data(self@.abi@, self@.bytecode@, self@.params@) {
                Ok(data) => r matches Ok(next) && {
                    let d = next@;
                    &&& d.args == self@.args
                    &&& d.params == self@.params
                    &&& self@.args.deploys_on(d.chain, fetched_chain)
                    &&& self@.args.deploys_from(d.deployer_address, signer)
                    &&& d.id == self@.id
                    &&& d.dry_run == !self@.args.broadcast
                    &&& d.legacy == (self@.args.tx.legacy || chain_is_legacy(d.chain))
                    &&& d.deployer.tx@ == started_tx(data, d.deployer_address, d.chain)
                    &&& d.deployer.abi == self@.abi
                    &&& cloned(client, d.deployer.client)
                    &&& d.deployer.confs == 1
                    &&& d.deployer.timeout == timeout
                    &&& d.deployer.zk_factory_deps is None
                    &&& d.deployer.zk_paymaster_params is None
                },
                Err(error) => r matches Err(e) && e == (DeployError::Build {
                    error,
                    no_args: self@.params@.len() == 0,
                }),
            },
            self@.abi@ matches Some(inputs) ==> come_from_texts(inputs, self@.params@) ==> r is Ok,
    {
        let chain: u64 = self.state.args.chain(fetched_chain);
        let sender = self.state.args.sender(signer);
        let dry_run = !self.state.args.broadcast;
        self.state.args.deploy(
            self.state.abi,
            BytecodeObject::Bytecode(self.state.bytecode),
            self.state.params,
            client,
            chain,
            sender,
            timeout,
            self.state.id,
            dry_run,
        )
    }
}

/// What the ZKsync compiler made of the contract, and of all others.
#[derive(Debug)]
pub struct ZkOutput {
    pub abi: JsonAbi,
    pub bytecode: ZkBytecode,
    /// The ids of the contracts that this one can create.
    pub factory_dependencies: Option<Vec<String>>,
    /// The contracts that the compilation output holds.
    pub deps: Vec<FactoryDep>,
    pub id: ArtifactId,
}

/// A command whose contract was compiled to complete bytecode.
#[derive(Debug)]
pub struct ZkLinked {
    pub args: CreateArgs,
    pub paymaster_params: Option<PaymasterParams>,
    pub abi: JsonAbi,
    pub bytecode: Vec<u8>,
    pub factory_dependencies: Option<Vec<String>>,
    pub deps: Vec<FactoryDep>,
    pub id: ArtifactId,
}

/// A command whose constructor arguments were parsed.
#[derive(Debug)]
pub struct ZkParsed {
    pub linked: ZkLinked,
    /// The values for the constructor.
    pub params: Vec<DynSolValue>,
}

/// A command whose factory dependencies were collected.
#[derive(Debug)]
pub struct ZkGathered {
    pub args: CreateArgs,
    pub abi: JsonAbi,
    pub id: ArtifactId,
    /// The values for the constructor.
    pub params: Vec<DynSolValue>,
    pub chain: u64,
    pub zk_data: ZkSyncData,
}

impl Step<ZkRun> {
    /// What the contract to compile is found by.
    pub fn target(&self) -> (r: Target<'_>)
        ensures
            r == self@.args.target_to_find(),
    {
        self.state.args.target()
    }

    /// Takes the compiler's output. Bytecode that lacks library addresses is refused.
    pub fn compiled(self, output: ZkOutput) -> (r: Result<Step<ZkLinked>, RunError>)
        requires
            output.bytecode.object is Unlinked ==> forall|i: int|
                0 <= i < output.bytecode.missing_libraries@.len() ==> has_colon(
                    #[trigger] output.bytecode.missing_libraries@[i]@,
                ),
        ensures
            match output.bytecode.object {
                BytecodeObject::Bytecode(bytecode) => r matches Ok(next) && {
                    &&& next@.bytecode@ == bytecode@
                    &&& next@ == (ZkLinked {
                        args: self@.args,
                        paymaster_params: self@.paymaster_params,
                        abi: output.abi,
                        bytecode: next@.bytecode,
                        factory_dependencies: output.factory_dependencies,
                        deps: output.deps,
                        id: output.id,
                    })
                },
                BytecodeObject::Unlinked(_) => r matches Err(RunError::Unlinked(refusal))
                    && refusal@ == linking_refusal(
                    missing_library_lines(output.bytecode.missing_libraries@),
                ),
            },
    {
        match output.bytecode.linked() {
            Ok(bytecode) => Ok(
                Step {
                    state: ZkLinked {
                        args: self.state.args,
                        paymaster_params: self.state.paymaster_params,
                        abi: output.abi,
                        bytecode,
                        factory_dependencies: output.factory_dependencies,
                        deps: output.deps,
                        id: output.id,
                    },
                },
            ),
            Err(refusal) => Err(RunError::Unlinked(refusal)),
        }
    }
}

impl Step<ZkLinked> {
    /// Where the constructor arguments are taken from.
    pub fn args_source(&self) -> (r: ArgsSource<'_>)
        ensures
            r == self@.args.args_source(self@.abi@),
    {
        self.state.args.constructor_args_source(&self.state.abi)
    }

    /// Parses the constructor arguments: those of the file, if they are taken from one.
    pub fn parse(self, file: Option<Vec<String>>) -> (r: Result<Step<ZkParsed>, RunError>)
        requires
            file is Some <==> self@.args.args_source(self@.abi@) is File,
        ensures
            match r {
                Ok(next) => next@.linked == self@ && self@.args.are_params(
                    self@.abi,
                    file,
                    Ok(next@.params),
                ),
                Err(RunError::ConstructorArgs(error)) => self@.args.are_params(
                    self@.abi,
                    file,
                    Err(error),
                ),
                Err(RunError::Unlinked(_)) => false,
            },
    {
        match self.state.args.constructor_params(&self.state.abi, file) {
            Ok(params) => Ok(Step { state: ZkParsed { linked: self.state, params } }),
            Err(error) => Err(RunError::ConstructorArgs(error)),
        }
    }
}

impl Step<ZkParsed> {
    /// Whether the node has to be asked which chain it is on.
    pub fn needs_chain_id(&self) -> (r: bool)
        ensures
            r == (self@.linked.args.eth.etherscan.chain is None),
    {
        self.state.linked.args.chain_id().is_none()
    }

    /// Takes the chain that the node is on, if it was asked, and collects the bytecodes of all
    /// contracts that the deployed one can come to create.
    pub fn gather(self, fetched_chain: Option<u64>) -> (r: Result<
        Step<ZkGathered>,
        FactoryDepsError,
    >)
        requires
            self@.linked.factory_dependencies is Some,
            self@.linked.args.eth.etherscan.chain is None ==> fetched_chain is Some,
        ensures
            r is Ok <==> all_can_be_followed(
                texts(self@.linked.factory_dependencies->Some_0@),
                self@.linked.deps@,
            ),
            match r {
                Ok(next) => {
                    &&& next@.args == self@.linked.args
                    &&& next@.abi == self@.linked.abi
                    &&& next@.id == self@.linked.id
                    &&& next@.params == self@.params
                    &&& self@.linked.args.deploys_on(next@.chain, fetched_chain)
                    &&& next@.zk_data.bytecode == self@.linked.bytecode
                    &&& next@.zk_data.paymaster_params == self@.linked.paymaster_params
                    &&& is_collection(
                        texts(self@.linked.factory_dependencies->Some_0@),
                        self@.linked.deps@,
                        self@.linked.bytecode@,
                        contents(next@.zk_data.factory_deps@),
                    )
                },
                Err(e) => is_first_fault(
                    texts(self@.linked.factory_dependencies->Some_0@),
                    self@.linked.deps@,
                    e,
                ),
            },
    {
        let linked = self.state.linked;
        let chain: u64 = linked.args.chain(fetched_chain);
        let roots = linked.factory_dependencies.unwrap();
        match collect_factory_deps(&roots, &linked.deps, &linked.bytecode) {
            Ok(factory_deps) => Ok(
                Step {
                    state: ZkGathered {
                        args: linked.args,
                        abi: linked.abi,
                        id: linked.id,
                        params: self.state.params,
                        chain,
                        zk_data: ZkSyncData {
                            bytecode: linked.bytecode,
                            factory_deps,
                            paymaster_params: linked.paymaster_params,
                        },
                    },
                },
            ),
            Err(error) => Err(error),
        }
    }
}

impl Step<ZkGathered> {
    /// Whether a signer has to be opened.
    pub fn needs_signer(&self) -> (r: bool)
        ensures
            r == !self@.args.unlocked,
    {
        !self.state.args.unlocked
    }

    /// Starts the deployment, from the given sender's account or the signer's, and as a dry run
    /// unless the transaction is to be broadcast.
    pub fn deploy<B: Clone, P, T>(self, client: B, signer: Option<Address>, timeout: u64) -> (r:
        Result<ZkAwaitingNonce<B, P, T>, DeployError>)
        requires
            self@.args.unlocked ==> self@.args.eth.from is Some,
            !self@.args.unlocked ==> signer is Some,
        ensures
            match zk_constructor_args(self@.abi@, self@.params@) {
                Err(error) => r matches Err(e) && e == (DeployError::Build {
                    error,
                    no_args: self@.params@.len() == 0,
                }),
                Ok(args) => if is_zk_bytecode(self@.zk_data.bytecode@) {
                    r matches Ok(next) && {
                        let d = next@;
                        &&& d.args == self@.args
                        &&& d.params == self@.params
                        &&& d.chain == self@.chain
                        &&& self@.args.deploys_from(d.deployer_address, signer)
                        &&& d.id == self@.id
                        &&& d.dry_run == !self@.args.broadcast
                        &&& starts_zk_creation(
                            d.deployer.tx@,
                            self@.zk_data,
                            args,
                            d.deployer_address,
                            d.chain,
                        )
                        &&& d.deployer.abi == self@.abi
                        &&& cloned(client, d.deployer.client)
                        &&& d.deployer.confs == 1
                        &&& d.deployer.timeout == timeout
                        &&& d.deployer.zk_factory_deps is None
                    }
                } else {
                    r matches Err(e) && e == (DeployError::Build {
                        error: ContractDeploymentError::TransactionBuildError,
                        no_args: self@.params@.len() == 0,
                    })
                },
            },
    {
        let state = self.state;
        let sender = state.args.sender(signer);
        let bin = BytecodeObject::Bytecode(copy_bytes(&state.zk_data.bytecode));
        state.args.deploy_zk(
            state.abi,
            bin,
            state.params,
            client,
            state.chain,
            sender,
            timeout,
            state.id,
            state.zk_data,
        )
    }
}

/// What ends a command early is told in words: the refusal of bytecode as it is, and what is wrong
/// with constructor arguments as it is told of them.
pub proof fn errors_of_runs_are_told_in_words(refusal: String, error: ConstructorArgsError)
    ensures
        RunError::Unlinked(refusal).chain() == seq![refusal@],
        RunError::ConstructorArgs(error).chain() == error.chain(),
{
}

} // verus!
