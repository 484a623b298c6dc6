//! Requests to verify a contract's source: the one that is checked before the deployment, and
//! the one that is made after it.

use crate::args::{
    copy_text, copy_texts, ArtifactId, ContractInfo, CreateArgs, EtherscanOpts, RetryArgs,
    VerifierArgs,
};
use crate::primitives::Address;
use std::path::PathBuf;
use vstd::prelude::*;
use vstd::string::*;

verus! {

/// A request to verify a contract's source.
#[derive(Debug)]
pub struct VerifyArgs {
    pub address: Address,
    pub contract: Option<ContractInfo>,
    pub compiler_version: Option<String>,
    pub constructor_args: Option<String>,
    pub constructor_args_path: Option<PathBuf>,
    pub num_of_optimizations: Option<usize>,
    pub etherscan: EtherscanOpts,
    pub flatten: bool,
    pub force: bool,
    pub skip_is_verified_check: bool,
    pub watch: bool,
    pub retry: RetryArgs,
    pub libraries: Vec<String>,
    pub root: Option<PathBuf>,
    pub verifier: VerifierArgs,
    pub via_ir: bool,
    pub evm_version: Option<String>,
    pub show_standard_json_input: bool,
    pub guess_constructor_args: bool,
    pub compilation_profile: Option<String>,
    pub zksync: bool,
}

/// The compiler whose output a verification is prepared with.
#[derive(Debug, Clone, Copy, PartialEq, Eq)]
pub enum VerificationCompiler {
    Solc,
    ZkSolc,
}

impl VerifyArgs {
    /// What a request has from the command's arguments, whenever it is made.
    pub open spec fn is_made_from(
        self,
        args: CreateArgs,
        chain: u64,
        constructor_args: Option<String>,
    ) -> bool {
        &&& self.contract == Some(args.contract)
        &&& self.constructor_args == constructor_args
        &&& self.constructor_args_path is None
        &&& self.etherscan.chain == Some(chain)
        &&& !self.flatten
        &&& !self.force
        &&& self.skip_is_verified_check
        &&& self.watch
        &&& self.retry == args.retry
        &&& self.libraries@ == args.opts.libraries@
        &&& self.root is None
        &&& self.verifier == args.verifier
        &&& self.via_ir == args.opts.via_ir
        &&& self.evm_version == args.opts.compiler.evm_version
        &&& self.show_standard_json_input == args.show_standard_json_input
        &&& !self.guess_constructor_args
        &&& self.zksync == args.opts.compiler.zk.enabled
    }

    /// Whether a request names this compilation, or none.
    pub open spec fn names_compilation(self, id: Option<ArtifactId>) -> bool {
        match id {
            Some(id) => self.compiler_version == Some(id.version) && self.compilation_profile
                == Some(id.profile),
            None => self.compiler_version is None && self.compilation_profile is None,
        }
    }

    /// The request with the API key that the configuration holds for the chain.
    pub fn with_configured_key(self, key: Option<String>) -> (r: Self)
        ensures
            r == (VerifyArgs { etherscan: EtherscanOpts { key, ..self.etherscan }, ..self }),
    {
        let mut verify = self;
        verify.etherscan.key = key;
        verify
    }

    /// The compiler whose output the verification is prepared with.
    pub fn compiler(&self) -> (r: VerificationCompiler)
        ensures
            r == if self.zksync {
                VerificationCompiler::ZkSolc
            } else {
                VerificationCompiler::Solc
            },
    {
        if self.zksync {
            VerificationCompiler::ZkSolc
        } else {
            VerificationCompiler::Solc
        }
    }

    /// What is said while the service is waited for.
    pub fn waiting_line(&self) -> (r: String)
        ensures
            r@ == "Waiting for "@ + self.verifier.verifier@ + " to detect contract deployment..."@,
    {
        let mut line = "Waiting for ".to_string();
        line.append(self.verifier.verifier.as_str());
        line.append(" to detect contract deployment...");
        line
    }
}

impl CreateArgs {
    /// The optimizer runs to verify with: none unless the optimizer was switched on.
    pub open spec fn optimizations(self) -> Option<usize> {
        if self.opts.compiler.optimize == Some(true) {
            self.opts.compiler.optimizer_runs
        } else {
            None
        }
    }

    /// The request that is checked before the contract is deployed, to find out then what might
    /// go wrong when the contract is verified. It is not the request that is made after the
    /// deployment, since the address is not known yet.
    pub fn verify_preflight_check(
        &self,
        constructor_args: Option<String>,
        chain: u64,
        id: &ArtifactId,
    ) -> (r: VerifyArgs)
        ensures
            r.is_made_from(*self, chain, constructor_args),
            r.names_compilation(Some(*id)),
            r.address.bytes@ == Seq::new(20, |i: int| 0u8),
            r.num_of_optimizations is None,
            r.etherscan.key == self.eth.etherscan.key,
    {
        VerifyArgs {
            address: Address::zero(),
            contract: Some(self.contract.clone()),
            compiler_version: Some(id.version.clone()),
            constructor_args,
            constructor_args_path: None,
            num_of_optimizations: None,
            etherscan: EtherscanOpts {
                key: copy_text(&self.eth.etherscan.key),
                chain: Some(chain),
            },
            flatten: false,
            force: false,
            skip_is_verified_check: true,
            watch: true,
            retry: self.retry,
            libraries: copy_texts(&self.opts.libraries),
            root: None,
            verifier: self.verifier.clone(),
            via_ir: self.opts.via_ir,
            evm_version: copy_text(&self.opts.compiler.evm_version),
            show_standard_json_input: self.show_standard_json_input,
            guess_constructor_args: false,
            compilation_profile: Some(id.profile.clone()),
            zksync: self.opts.compiler.zk.enabled,
        }
    }

    /// The request that is made once the contract is deployed.
    pub fn verify_deployed(
        self,
        address: Address,
        constructor_args: Option<String>,
        chain: u64,
        id: Option<ArtifactId>,
    ) -> (r: VerifyArgs)
        ensures
            r.is_made_from(self, chain, constructor_args),
            r.names_compilation(id),
            r.address == address,
            r.num_of_optimizations == self.optimizations(),
            self.opts.compiler.optimize == Some(true) ==> r.num_of_optimizations
                == self.opts.compiler.optimizer_runs,
            self.opts.compiler.optimize != Some(true) ==> r.num_of_optimizations is None,
            r.etherscan.key == self.eth.etherscan_key,
    {
        let num_of_optimizations = match self.opts.compiler.optimize {
            Some(true) => self.opts.compiler.optimizer_runs,
            _ => None,
        };
        let (compiler_version, compilation_profile) = match id {
            Some(id) => (Some(id.version), Some(id.profile)),
            None => (None, None),
        };
        VerifyArgs {
            address,
            contract: Some(self.contract),
            compiler_version,
            constructor_args,
            constructor_args_path: None,
            num_of_optimizations,
            etherscan: EtherscanOpts { key: self.eth.etherscan_key, chain: Some(chain) },
            flatten: false,
            force: false,
            skip_is_verified_check: true,
            watch: true,
            retry: self.retry,
            libraries: self.opts.libraries,
            root: None,
            verifier: self.verifier,
            via_ir: self.opts.via_ir,
            evm_version: self.opts.compiler.evm_version,
            show_standard_json_input: self.show_standard_json_input,
            guess_constructor_args: false,
            compilation_profile,
            zksync: self.opts.compiler.zk.enabled,
        }
    }
}

/// The request that is checked before the deployment asks for what the request after it asks
/// for: they differ at most in the address, the API key, the optimizer runs and the compilation
/// that they name.
pub proof fn checked_request_is_the_one_made(
    checked: VerifyArgs,
    made: VerifyArgs,
    args: CreateArgs,
    chain: u64,
    constructor_args: Option<String>,
)
    requires
        checked.is_made_from(args, chain, constructor_args),
        made.is_made_from(args, chain, constructor_args),
    ensures
        made == (VerifyArgs {
            address: made.address,
            compiler_version: made.compiler_version,
            num_of_optimizations: made.num_of_optimizations,
            etherscan: EtherscanOpts { key: made.etherscan.key, ..checked.etherscan },
            compilation_profile: made.compilation_profile,
            libraries: made.libraries,
            ..checked
        }),
        made.libraries@ == checked.libraries@,
{
}

/// The optimizer runs to verify with are those that are given where the optimizer was switched on,
/// whatever else is given, and none where it was switched off or nothing was said of it.
pub proof fn optimizer_runs_are_those_given(args: CreateArgs)
    ensures
        args.opts.compiler.optimize == Some(true) ==> args.optimizations()
            == args.opts.compiler.optimizer_runs,
        args.opts.compiler.optimize == Some(false) ==> args.optimizations() is None,
        args.opts.compiler.optimize is None ==> args.optimizations() is None,
{
}

/// The optimizer runs to verify with depend on nothing but whether the optimizer was switched on
/// and how many runs are given.
pub proof fn optimizer_runs_depend_on_the_optimizer_alone(a: CreateArgs, b: CreateArgs)
    requires
        a.opts.compiler.optimize == b.opts.compiler.optimize,
        a.opts.compiler.optimizer_runs == b.opts.compiler.optimizer_runs,
    ensures
        a.optimizations() == b.optimizations(),
{
}

/// A request asks for the contract, the compiler settings, the libraries, the verifier and the
/// retries that the command was given, on the chain and with the constructor arguments of the
/// deployment. It asks to watch, and not to ask first whether the contract is verified.
pub proof fn a_request_asks_for_what_was_given(
    request: VerifyArgs,
    args: CreateArgs,
    chain: u64,
    constructor_args: Option<String>,
)
    requires
        request.is_made_from(args, chain, constructor_args),
    ensures
        request.contract == Some(args.contract),
        request.constructor_args == constructor_args,
        request.constructor_args_path is None,
        request.etherscan.chain == Some(chain),
        !request.flatten,
        !request.force,
        request.skip_is_verified_check,
        request.watch,
        request.retry == args.retry,
        request.libraries@ == args.opts.libraries@,
        request.root is None,
        request.verifier == args.verifier,
        request.via_ir == args.opts.via_ir,
        request.evm_version == args.opts.compiler.evm_version,
        request.show_standard_json_input == args.show_standard_json_input,
        !request.guess_constructor_args,
        request.zksync == args.opts.compiler.zk.enabled,
{
}

/// A request names the version and the profile of a compilation, or neither.
pub proof fn a_request_names_version_and_profile(request: VerifyArgs, id: ArtifactId)
    ensures
        request.names_compilation(Some(id)) <==> request.compiler_version == Some(id.version)
            && request.compilation_profile == Some(id.profile),
        request.names_compilation(None) <==> request.compiler_version is None
            && request.compilation_profile is None,
{
}

} // verus!
