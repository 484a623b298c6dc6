//! The transaction that deploys a contract: how it is built, and what comes of sending it.

use crate::abi::{
    abi_error_text, all_simple, come_from_texts, decoding_of, display_abi_error, encode_input,
    encoded_input, encoding_of, read_as, JsonAbi,
};
use crate::distinct::contents;
use crate::primitives::{Address, TxHash};
use crate::tx::{
    calls_contract_deployer, copy_bytes, copy_list, copy_paymaster, create_params, empty_meta,
    is_zk_bytecode, only_input, paymaster_view, zk_create_calldata, Eip712Meta, MetaModel,
    PaymasterParams, TransactionRequest, TxModel, ZkCreation, ZkTransactionRequest, ZkTxModel,
};
use alloy_dyn_abi::DynSolValue;
use alloy_json_abi::Param;
use alloy_provider::PendingTransactionError;
use alloy_transport::{RpcError, TransportError, TransportErrorKind};
use std::marker::PhantomData;
use std::sync::Arc;
use vstd::prelude::*;
use vstd::std_specs::convert::{FromSpec, FromSpecImpl};
use vstd::string::*;

verus! {

/// `alloy_transport::RpcError`: why a request to a node failed.
#[verifier::external_type_specification]
#[verifier::external_body]
#[verifier::reject_recursive_types(E)]
#[verifier::reject_recursive_types(ErrResp)]
pub struct ExRpcError<E, ErrResp>(RpcError<E, ErrResp>);

/// `alloy_transport::TransportErrorKind`: why a transport failed.
#[verifier::external_type_specification]
#[verifier::external_body]
pub struct ExTransportErrorKind(TransportErrorKind);

/// `serde_json::value::RawValue`: the body of a node's error response.
#[verifier::external_type_specification]
#[verifier::external_body]
pub struct ExRawValue(serde_json::value::RawValue);

/// `alloy_provider::PendingTransactionError`: why waiting for a transaction failed.
#[verifier::external_type_specification]
#[verifier::external_body]
pub struct ExPendingTransactionError(PendingTransactionError);

/// Data used to deploy a contract on ZKsync.
#[derive(Debug)]
pub struct ZkSyncData {
    pub bytecode: Vec<u8>,
    pub factory_deps: Vec<Vec<u8>>,
    pub paymaster_params: Option<PaymasterParams>,
}

impl Default for ZkSyncData {
    fn default() -> (r: Self)
        ensures
            r.bytecode@ == Seq::<u8>::empty(),
            r.factory_deps@ == Seq::<Vec<u8>>::empty(),
            r.paymaster_params is None,
    {
        ZkSyncData { bytecode: Vec::new(), factory_deps: Vec::new(), paymaster_params: None }
    }
}

/// An error which comes up when interacting with a smart contract.
#[derive(Debug)]
pub enum ContractDeploymentError {
    /// There are constructor arguments, but no constructor.
    ConstructorError,
    /// The constructor arguments could not be encoded.
    DetokenizationError(alloy_dyn_abi::Error),
    /// The transaction did not lead to a contract.
    ContractNotDeployed,
    /// The transaction could not be sent.
    RpcError(TransportError),
    /// The transaction could not be built.
    TransactionBuildError,
}

/// Calls `Display` of `alloy_transport::TransportError`. Such an error can hold any error of a
/// transport, so nothing is claimed of the text.
#[verifier::external_body]
fn display_transport_error(error: &TransportError) -> (r: String) {
    error.to_string()
}

impl ContractDeploymentError {
    /// Whether a text says what went wrong. Of an error that another crate returned it is that
    /// error's own text; what the text of a transport error is, is left open.
    pub open spec fn is_told_as(self, text: Seq<char>) -> bool {
        match self {
            Self::ConstructorError => text == "constructor is not defined in the ABI"@,
            Self::DetokenizationError(error) => text == abi_error_text(error),
            Self::ContractNotDeployed => text == "contract was not deployed"@,
            Self::RpcError(_) => true,
            Self::TransactionBuildError => text == "failed building transaction"@,
        }
    }

    /// What went wrong, in words.
    pub fn message(&self) -> (r: String)
        ensures
            self.is_told_as(r@),
    {
        match self {
            Self::ConstructorError => "constructor is not defined in the ABI".to_string(),
            Self::DetokenizationError(e) => display_abi_error(e),
            Self::ContractNotDeployed => "contract was not deployed".to_string(),
            Self::RpcError(e) => display_transport_error(e),
            Self::TransactionBuildError => "failed building transaction".to_string(),
        }
    }
}

impl From<alloy_dyn_abi::Error> for ContractDeploymentError {
    fn from(error: alloy_dyn_abi::Error) -> (r: Self) {
        ContractDeploymentError::DetokenizationError(error)
    }
}

impl FromSpecImpl<alloy_dyn_abi::Error> for ContractDeploymentError {
    open spec fn obeys_from_spec() -> bool {
        true
    }

    open spec fn from_spec(error: alloy_dyn_abi::Error) -> Self {
        ContractDeploymentError::DetokenizationError(error)
    }
}

impl From<TransportError> for ContractDeploymentError {
    fn from(error: TransportError) -> (r: Self) {
        ContractDeploymentError::RpcError(error)
    }
}

impl FromSpecImpl<TransportError> for ContractDeploymentError {
    open spec fn obeys_from_spec() -> bool {
        true
    }

    open spec fn from_spec(error: TransportError) -> Self {
        ContractDeploymentError::RpcError(error)
    }
}

impl From<PendingTransactionError> for ContractDeploymentError {
    fn from(_error: PendingTransactionError) -> (r: Self) {
        ContractDeploymentError::ContractNotDeployed
    }
}

impl FromSpecImpl<PendingTransactionError> for ContractDeploymentError {
    open spec fn obeys_from_spec() -> bool {
        true
    }

    open spec fn from_spec(_error: PendingTransactionError) -> Self {
        ContractDeploymentError::ContractNotDeployed
    }
}

/// Why sending a transaction and waiting for it failed.
#[derive(Debug)]
pub enum SendError {
    /// It could not be sent.
    Transport(TransportError),
    /// It was sent, and waiting for its receipt failed.
    Pending(PendingTransactionError),
}

/// What is known of a transaction that was mined.
#[derive(Debug, Clone, Copy)]
pub struct Receipt {
    pub transaction_hash: TxHash,
    pub contract_address: Option<Address>,
}

/// What comes of sending a deployment: the deployed contract's address, or why there is none.
pub open spec fn deployed(sent: Result<Receipt, SendError>) -> Result<
    (Address, Receipt),
    ContractDeploymentError,
> {
    match sent {
        Ok(receipt) => match receipt.contract_address {
            Some(address) => Ok((address, receipt)),
            None => Err(ContractDeploymentError::ContractNotDeployed),
        },
        Err(SendError::Transport(error)) => Err(ContractDeploymentError::RpcError(error)),
        Err(SendError::Pending(_)) => Err(ContractDeploymentError::ContractNotDeployed),
    }
}

/// Reads off a receipt where the contract was deployed.
fn deployed_to(sent: Result<Receipt, SendError>) -> (r: Result<
    (Address, Receipt),
    ContractDeploymentError,
>)
    ensures
        r == deployed(sent),
{
    match sent {
        Ok(receipt) => match receipt.contract_address {
            Some(address) => Ok((address, receipt)),
            None => Err(ContractDeploymentError::ContractNotDeployed),
        },
        Err(SendError::Transport(error)) => Err(ContractDeploymentError::from(error)),
        Err(SendError::Pending(error)) => Err(ContractDeploymentError::from(error)),
    }
}

/// How long a transaction is waited for.
#[derive(Debug, Clone, Copy)]
pub struct Waiting {
    pub required_confirmations: u64,
    /// In seconds; as long as it takes where it is `None`.
    pub timeout: Option<u64>,
}

/// `ContractFactory` is a [`DeploymentTxFactory`] with a client that is shared through an
/// [`Arc`].
pub type ContractFactory<P, T> = DeploymentTxFactory<Arc<P>, P, T>;

/// Helper which manages the deployment transaction of a smart contract, and a marker for the
/// type of the contract.
#[derive(Debug)]
#[must_use]
pub struct ContractDeploymentTx<B, P, T, C> {
    /// The actual deployer, exposed for overriding the defaults.
    pub deployer: Deployer<B, P, T>,
    pub _contract: PhantomData<C>,
}

impl<B, P, T, C> Clone for ContractDeploymentTx<B, P, T, C> where B: Clone {
    fn clone(&self) -> (r: Self)
        ensures
            self.deployer.is_copied_to(r.deployer),
    {
        ContractDeploymentTx { deployer: self.deployer.clone(), _contract: PhantomData }
    }
}

impl<B, P, T, C> From<Deployer<B, P, T>> for ContractDeploymentTx<B, P, T, C> {
    fn from(deployer: Deployer<B, P, T>) -> (r: Self) {
        ContractDeploymentTx { deployer, _contract: PhantomData }
    }
}

impl<B, P, T, C> FromSpecImpl<Deployer<B, P, T>> for ContractDeploymentTx<B, P, T, C> {
    open spec fn obeys_from_spec() -> bool {
        true
    }

    open spec fn from_spec(deployer: Deployer<B, P, T>) -> Self {
        ContractDeploymentTx { deployer, _contract: PhantomData }
    }
}

/// Helper which manages the deployment transaction of a smart contract.
#[derive(Debug)]
#[must_use]
pub struct Deployer<B, P, T> {
    /// The deployer's transaction, exposed for overriding the defaults.
    pub tx: TransactionRequest,
    pub abi: JsonAbi,
    pub client: B,
    pub confs: usize,
    pub timeout: u64,
    pub zk_factory_deps: Option<Vec<Vec<u8>>>,
    pub zk_paymaster_params: Option<PaymasterParams>,
    pub _p: PhantomData<P>,
    pub _t: PhantomData<T>,
}

/// Byte strings that may be missing, as sequences.
pub open spec fn list_view(list: Option<Vec<Vec<u8>>>) -> Option<Seq<Seq<u8>>> {
    match list {
        Some(list) => Some(contents(list@)),
        None => None,
    }
}

/// Copies byte strings that may be missing.
fn copy_optional_list(list: &Option<Vec<Vec<u8>>>) -> (r: Option<Vec<Vec<u8>>>)
    ensures
        list_view(r) == list_view(*list),
{
    match list {
        Some(list) => Some(copy_list(list)),
        None => None,
    }
}

impl<B: Clone, P, T> Deployer<B, P, T> {
    /// Whether the other deployer is a copy of this one, with a clone of its client.
    pub open spec fn is_copied_to(self, copy: Self) -> bool {
        &&& copy.tx@ == self.tx@
        &&& copy.abi@ == self.abi@
        &&& cloned(self.client, copy.client)
        &&& copy.confs == self.confs
        &&& copy.timeout == self.timeout
        &&& list_view(copy.zk_factory_deps) == list_view(self.zk_factory_deps)
        &&& paymaster_view(copy.zk_paymaster_params) == paymaster_view(self.zk_paymaster_params)
    }
}

impl<B, P, T> Clone for Deployer<B, P, T> where B: Clone {
    fn clone(&self) -> (r: Self)
        ensures
            self.is_copied_to(r),
    {
        Deployer {
            tx: self.tx.clone(),
            abi: self.abi.clone(),
            client: self.client.clone(),
            confs: self.confs,
            timeout: self.timeout,
            zk_factory_deps: copy_optional_list(&self.zk_factory_deps),
            zk_paymaster_params: copy_paymaster(&self.zk_paymaster_params),
            _p: PhantomData,
            _t: PhantomData,
        }
    }
}

impl<B, P, T> Deployer<B, P, T> {
    /// How long the transaction is waited for once it was sent: until it has its confirmations,
    /// and no longer than the timeout.
    pub fn waiting(&self) -> (r: Waiting)
        ensures
            r.required_confirmations == self.confs,
            r.timeout == Some(self.timeout),
    {
        Waiting { required_confirmations: self.confs as u64, timeout: Some(self.timeout) }
    }

    /// Takes what came of broadcasting the transaction and of waiting for it to be sufficiently
    /// confirmed, and returns the deployed contract's address and the receipt.
    pub fn send_with_receipt(self, sent: Result<Receipt, SendError>) -> (r: Result<
        (Address, Receipt),
        ContractDeploymentError,
    >)
        ensures
            r == deployed(sent),
    {
        deployed_to(sent)
    }
}

/// Helper which manages the deployment transaction of a smart contract on ZKsync.
#[derive(Debug)]
#[must_use]
pub struct ZkDeployer<B, P, T> {
    /// The deployer's transaction, exposed for overriding the defaults.
    pub tx: ZkTransactionRequest,
    pub abi: JsonAbi,
    pub client: B,
    pub confs: usize,
    pub timeout: u64,
    pub zk_factory_deps: Option<Vec<Vec<u8>>>,
    pub _p: PhantomData<P>,
    pub _t: PhantomData<T>,
}

impl<B: Clone, P, T> ZkDeployer<B, P, T> {
    /// Whether the other deployer is a copy of this one, with a clone of its client.
    pub open spec fn is_copied_to(self, copy: Self) -> bool {
        &&& copy.tx@ == self.tx@
        &&& copy.abi@ == self.abi@
        &&& cloned(self.client, copy.client)
        &&& copy.confs == self.confs
        &&& copy.timeout == self.timeout
        &&& list_view(copy.zk_factory_deps) == list_view(self.zk_factory_deps)
    }
}

impl<B, P, T> Clone for ZkDeployer<B, P, T> where B: Clone {
    fn clone(&self) -> (r: Self)
        ensures
            self.is_copied_to(r),
    {
        ZkDeployer {
            tx: self.tx.clone(),
            abi: self.abi.clone(),
            client: self.client.clone(),
            confs: self.confs,
            timeout: self.timeout,
            zk_factory_deps: copy_optional_list(&self.zk_factory_deps),
            _p: PhantomData,
            _t: PhantomData,
        }
    }
}

impl<B, P, T> ZkDeployer<B, P, T> {
    /// How long the transaction is waited for once it was sent: until it has its confirmations,
    /// and no longer than the timeout.
    pub fn waiting(&self) -> (r: Waiting)
        ensures
            r.required_confirmations == self.confs,
            r.timeout == Some(self.timeout),
    {
        Waiting { required_confirmations: self.confs as u64, timeout: Some(self.timeout) }
    }

    /// Takes what came of broadcasting the transaction and of waiting for it to be sufficiently
    /// confirmed, and returns the deployed contract's address and the receipt.
    pub fn send_with_receipt(self, sent: Result<Receipt, SendError>) -> (r: Result<
        (Address, Receipt),
        ContractDeploymentError,
    >)
        ensures
            r == deployed(sent),
    {
        deployed_to(sent)
    }
}

/// To deploy a contract, a factory is created which manages the contract's bytecode and its
/// ABI.
#[derive(Debug)]
pub struct DeploymentTxFactory<B, P, T> {
    pub client: B,
    pub abi: JsonAbi,
    pub bytecode: Vec<u8>,
    pub timeout: u64,
    pub _p: PhantomData<P>,
    pub _t: PhantomData<T>,
}

impl<B, P, T> Clone for DeploymentTxFactory<B, P, T> where B: Clone {
    fn clone(&self) -> (r: Self)
        ensures
            cloned(self.client, r.client),
            r.abi@ == self.abi@,
            r.bytecode@ == self.bytecode@,
            r.timeout == self.timeout,
    {
        DeploymentTxFactory {
            client: self.client.clone(),
            abi: self.abi.clone(),
            bytecode: copy_bytes(&self.bytecode),
            timeout: self.timeout,
            _p: PhantomData,
            _t: PhantomData,
        }
    }
}

/// The input of a deployment: the bytecode, and behind it the encoded constructor arguments
/// where there is a constructor. Arguments without a constructor, and arguments that cannot be
/// encoded, are refused.
pub open spec fn creation_data(
    constructor: Option<Seq<Param>>,
    bytecode: Seq<u8>,
    params: Seq<DynSolValue>,
) -> Result<Seq<u8>, ContractDeploymentError> {
    match constructor {
        None => if params.len() == 0 {
            Ok(bytecode)
        } else {
            Err(ContractDeploymentError::ConstructorError)
        },
        Some(inputs) => match encoding_of(inputs, params) {
            Ok(input) => Ok(bytecode + input),
            Err(error) => Err(ContractDeploymentError::DetokenizationError(error)),
        },
    }
}

/// The constructor arguments of a deployment on ZKsync. Arguments without a constructor, and
/// arguments that cannot be encoded, are refused; where there are no arguments, none are encoded.
pub open spec fn zk_constructor_args(
    constructor: Option<Seq<Param>>,
    params: Seq<DynSolValue>,
) -> Result<Seq<u8>, ContractDeploymentError> {
    match constructor {
        None => if params.len() == 0 {
            Ok(seq![])
        } else {
            Err(ContractDeploymentError::ConstructorError)
        },
        Some(inputs) => match encoding_of(inputs, params) {
            Ok(input) => Ok(input),
            Err(error) => if params.len() == 0 {
                Ok(seq![])
            } else {
                Err(ContractDeploymentError::DetokenizationError(error))
            },
        },
    }
}

/// Encoded constructor arguments, or why they could not be encoded. That matters only where there
/// are arguments.
pub fn encoded_or_none(encoded: Result<Vec<u8>, alloy_dyn_abi::Error>, no_args: bool) -> (r: Result<
    Vec<u8>,
    ContractDeploymentError,
>)
    ensures
        match encoded {
            Ok(input) => r matches Ok(bytes) && bytes == input,
            Err(error) => if no_args {
                r matches Ok(bytes) && bytes@.len() == 0
            } else {
                r matches Err(e) && e == ContractDeploymentError::DetokenizationError(error)
            },
        },
{
    match encoded {
        Ok(input) => Ok(input),
        Err(error) => if no_args {
            Ok(Vec::new())
        } else {
            Err(ContractDeploymentError::from(error))
        },
    }
}

impl<B: Clone, P, T> DeploymentTxFactory<B, P, T> {
    /// What every deployer of the factory has from it, whatever its transaction is.
    pub open spec fn makes(self, deployer: Deployer<B, P, T>) -> bool {
        &&& cloned(self.client, deployer.client)
        &&& deployer.abi == self.abi
        &&& deployer.confs == 1
        &&& deployer.timeout == self.timeout
        &&& deployer.zk_factory_deps is None
        &&& deployer.zk_paymaster_params is None
    }

    /// What every ZKsync deployer of the factory has from it, whatever its transaction is.
    pub open spec fn makes_zk(self, deployer: ZkDeployer<B, P, T>) -> bool {
        &&& cloned(self.client, deployer.client)
        &&& deployer.abi == self.abi
        &&& deployer.confs == 1
        &&& deployer.timeout == self.timeout
        &&& deployer.zk_factory_deps is None
    }

    /// Creates a factory for deployment of the contract with bytecode, and the constructor
    /// defined in the ABI. The client will be used to send any deployment transaction.
    pub fn new(abi: JsonAbi, bytecode: Vec<u8>, client: B, timeout: u64) -> (r: Self)
        ensures
            r.abi == abi,
            r.bytecode == bytecode,
            r.client == client,
            r.timeout == timeout,
    {
        DeploymentTxFactory {
            client,
            abi,
            bytecode,
            timeout,
            _p: PhantomData,
            _t: PhantomData,
        }
    }

    /// Creates a factory for deployment on ZKsync of the contract with bytecode, and the
    /// constructor defined in the ABI. The client will be used to send any deployment
    /// transaction.
    pub fn new_zk(abi: JsonAbi, bytecode: Vec<u8>, client: B, timeout: u64) -> (r: Self)
        ensures
            r.abi == abi,
            r.bytecode == bytecode,
            r.client == client,
            r.timeout == timeout,
    {
        DeploymentTxFactory {
            client,
            abi,
            bytecode,
            timeout,
            _p: PhantomData,
            _t: PhantomData,
        }
    }

    /// Creates a deployment transaction from constructor arguments as they were encoded.
    pub fn deploy_encoded(self, encoded: Result<Vec<u8>, alloy_dyn_abi::Error>) -> (r: Result<
        Deployer<B, P, T>,
        ContractDeploymentError,
    >)
        ensures
            match encoded {
                Ok(input) => r matches Ok(deployer) && self.makes(deployer) && deployer.tx@
                    == only_input(self.bytecode@ + input@),
                Err(error) => r matches Err(e) && e
                    == ContractDeploymentError::DetokenizationError(error),
            },
    {
        match encoded {
            Ok(mut input) => {
                let mut data = copy_bytes(&self.bytecode);
                let ghost appended = input@;
                data.append(&mut input);
                assert(data@ =~= self.bytecode@ + appended);
                Ok(
                    Deployer {
                        client: self.client.clone(),
                        abi: self.abi,
                        tx: TransactionRequest::with_input(data),
                        confs: 1,
                        timeout: self.timeout,
                        zk_factory_deps: None,
                        zk_paymaster_params: None,
                        _p: PhantomData,
                        _t: PhantomData,
                    },
                )
            },
            Err(error) => Err(ContractDeploymentError::from(error)),
        }
    }

    /// Creates a deployment transaction using the provided tokens as constructor arguments.
    pub fn deploy_tokens(self, params: Vec<DynSolValue>) -> (r: Result<
        Deployer<B, P, T>,
        ContractDeploymentError,
    >)
        ensures
            match creation_data(self.abi@, self.bytecode@, params@) {
                Ok(data) => r matches Ok(deployer) && self.makes(deployer) && deployer.tx@
                    == only_input(data),
                Err(error) => r matches Err(e) && e == error,
            },
            match self.abi.constructor {
                Some(constructor) => match encoded_input(
                    constructor.inputs@,
                    params@,
                    usize::BITS,
                ) {
                    Ok(bytes) => r matches Ok(deployer) && deployer.tx.input is Some
                        && deployer.tx.input->Some_0@ == self.bytecode@ + bytes,
                    Err(error) => r matches Err(e) && e
                        == ContractDeploymentError::DetokenizationError(error),
                },
                None => if params@.len() == 0 {
                    r matches Ok(deployer) && deployer.tx.input is Some
                        && deployer.tx.input->Some_0@ == self.bytecode@
                } else {
                    r matches Err(e) && e is ConstructorError
                },
            },
            self.abi@ matches Some(inputs) ==> come_from_texts(inputs, params@) ==> r is Ok,
            self.abi@ matches Some(inputs) ==> r is Ok ==> inputs.len() == params@.len(),
            self.abi@ matches Some(inputs) ==> inputs.len() == 0 ==> params@.len() == 0
                ==> creation_data(self.abi@, self.bytecode@, params@) == Ok::<
                Seq<u8>,
                ContractDeploymentError,
            >(self.bytecode@),
            self.abi@ matches Some(inputs) ==> r matches Ok(deployer) ==> all_simple(inputs)
                ==> reads_back(inputs, self.bytecode@, deployer.tx@.input->Some_0, params@),
    {
        match &self.abi.constructor {
            None => {
                if params.len() > 0 {
                    Err(ContractDeploymentError::ConstructorError)
                } else {
                    assert(self.bytecode@ + Seq::<u8>::empty() =~= self.bytecode@);
                    self.deploy_encoded(Ok(Vec::new()))
                }
            },
            Some(constructor) => {
                let encoded = encode_input(&constructor.inputs, &params);
                assert(self.bytecode@ + Seq::<u8>::empty() =~= self.bytecode@);
                let ghost input = encoded->Ok_0@;
                assert((self.bytecode@ + input).skip(self.bytecode@.len() as int) =~= input);
                self.deploy_encoded(encoded)
            },
        }
    }

    /// Creates a deployment transaction on ZKsync from what its request is made of, if it can
    /// be made.
    pub fn deploy_creation(self, creation: Option<ZkCreation>) -> (r: Result<
        ZkDeployer<B, P, T>,
        ContractDeploymentError,
    >)
        ensures
            match creation {
                Some(creation) => r matches Ok(deployer) && self.makes_zk(deployer) && deployer.tx@
                    == zk_creation_tx(creation),
                None => r matches Err(e) && e == ContractDeploymentError::TransactionBuildError,
            },
    {
        match creation {
            Some(creation) => {
                let mut base = TransactionRequest::with_input(creation.input);
                base.to = creation.to;
                let mut meta = Eip712Meta::default();
                meta.factory_deps = creation.factory_deps;
                Ok(
                    ZkDeployer {
                        client: self.client.clone(),
                        abi: self.abi,
                        tx: ZkTransactionRequest { base, eip712_meta: Some(meta) },
                        confs: 1,
                        timeout: self.timeout,
                        zk_factory_deps: None,
                        _p: PhantomData,
                        _t: PhantomData,
                    },
                )
            },
            None => Err(ContractDeploymentError::TransactionBuildError),
        }
    }

    /// Creates a deployment transaction on ZKsync using the provided tokens as constructor
    /// arguments.
    pub fn deploy_tokens_zk(self, params: Vec<DynSolValue>, zk_data: &ZkSyncData) -> (r: Result<
        ZkDeployer<B, P, T>,
        ContractDeploymentError,
    >)
        ensures
            match zk_constructor_args(self.abi@, params@) {
                Err(error) => r matches Err(e) && e == error,
                Ok(args) => if is_zk_bytecode(zk_data.bytecode@) {
                    r matches Ok(deployer) && self.makes_zk(deployer) && is_zk_creation_tx(
                        deployer.tx@,
                        zk_data.bytecode@,
                        args,
                        contents(zk_data.factory_deps@),
                    )
                } else {
                    r matches Err(e) && e == ContractDeploymentError::TransactionBuildError
                },
            },
            self.abi.constructor matches Some(constructor) ==> encoded_input(
                constructor.inputs@,
                params@,
                usize::BITS,
            ) is Ok ==> r is Ok ==> r->Ok_0.tx.base.input is Some && r->Ok_0.tx.base.input->Some_0@
                == zk_create_calldata(
                zk_data.bytecode@,
                encoded_input(constructor.inputs@, params@, usize::BITS)->Ok_0,
            ),
    {
        let no_args = params.len() == 0;
        let encoded = match &self.abi.constructor {
            None => {
                if !no_args {
                    return Err(ContractDeploymentError::ConstructorError);
                }
                Ok(Vec::new())
            },
            Some(constructor) => encode_input(&constructor.inputs, &params),
        };
        match encoded_or_none(encoded, no_args) {
            Ok(args) => {
                assert(args@ =~= zk_constructor_args(self.abi@, params@)->Ok_0);
                let creation = create_params(&zk_data.bytecode, &args, &zk_data.factory_deps);
                self.deploy_creation(creation)
            },
            Err(error) => Err(error),
        }
    }
}

/// The transaction that a request to create a contract on ZKsync starts as.
pub open spec fn zk_creation_tx(creation: ZkCreation) -> ZkTxModel {
    ZkTxModel {
        base: TxModel { to: creation.to, ..only_input(creation.input@) },
        eip712_meta: Some(
            MetaModel { factory_deps: contents(creation.factory_deps@), ..empty_meta() },
        ),
    }
}

/// Whether a transaction creates a contract on ZKsync with this bytecode and these arguments:
/// it calls the contract deployer, and makes known the dependencies and the bytecode. Nothing
/// else of it is set.
pub open spec fn is_zk_creation_tx(
    tx: ZkTxModel,
    code: Seq<u8>,
    constructor_args: Seq<u8>,
    factory_deps: Seq<Seq<u8>>,
) -> bool {
    &&& calls_contract_deployer(tx.base.to)
    &&& tx.base == (TxModel {
        to: tx.base.to,
        ..only_input(zk_create_calldata(code, constructor_args))
    })
    &&& tx.eip712_meta == Some(MetaModel { factory_deps: factory_deps.push(code), ..empty_meta() })
}

/// Whether the values are what is read from the bytes behind the bytecode in a deployment's input.
pub open spec fn reads_back(
    inputs: Seq<Param>,
    bytecode: Seq<u8>,
    data: Seq<u8>,
    params: Seq<DynSolValue>,
) -> bool {
    decoding_of(inputs, data.skip(bytecode.len() as int)) == read_as(params)
}

/// A deployment's input tells which values it was built from: different values give different
/// inputs.
pub proof fn input_tells_the_values(
    inputs: Seq<Param>,
    bytecode: Seq<u8>,
    a_data: Seq<u8>,
    a: Seq<DynSolValue>,
    b_data: Seq<u8>,
    b: Seq<DynSolValue>,
)
    requires
        reads_back(inputs, bytecode, a_data, a),
        reads_back(inputs, bytecode, b_data, b),
        a != b,
    ensures
        a_data != b_data,
{
}

/// The input of a deployment begins with the bytecode, and is the bytecode alone where there is
/// no constructor.
pub proof fn creation_data_begins_with_bytecode(
    constructor: Option<Seq<Param>>,
    bytecode: Seq<u8>,
    params: Seq<DynSolValue>,
)
    ensures
        creation_data(constructor, bytecode, params) matches Ok(data) ==> {
            &&& bytecode.is_prefix_of(data)
            &&& constructor is None ==> data == bytecode
        },
{
    if let Ok(data) = creation_data(constructor, bytecode, params) {
        assert(data.subrange(0, bytecode.len() as int) =~= bytecode);
    }
}

/// Arguments without a constructor are refused, on ZKsync as elsewhere, and nothing else is
/// refused for that reason.
pub proof fn arguments_need_a_constructor(
    constructor: Option<Seq<Param>>,
    bytecode: Seq<u8>,
    params: Seq<DynSolValue>,
)
    ensures
        creation_data(constructor, bytecode, params) == Err::<Seq<u8>, ContractDeploymentError>(
            ContractDeploymentError::ConstructorError,
        ) <==> constructor is None && params.len() > 0,
        zk_constructor_args(constructor, params) == Err::<Seq<u8>, ContractDeploymentError>(
            ContractDeploymentError::ConstructorError,
        ) <==> constructor is None && params.len() > 0,
{
}

/// What a deployment on ZKsync does with arguments is what a deployment elsewhere does: it uses
/// the same encoding, or refuses them for the same reason.
pub proof fn zk_arguments_are_used_alike(
    constructor: Option<Seq<Param>>,
    bytecode: Seq<u8>,
    params: Seq<DynSolValue>,
)
    requires
        params.len() > 0,
    ensures
        match zk_constructor_args(constructor, params) {
            Ok(args) => creation_data(constructor, bytecode, params) == Ok::<
                Seq<u8>,
                ContractDeploymentError,
            >(bytecode + args),
            Err(error) => creation_data(constructor, bytecode, params) == Err::<
                Seq<u8>,
                ContractDeploymentError,
            >(error),
        },
{
}

/// A transaction that creates a contract on ZKsync is of the EIP-712 type, and makes the
/// contract's own bytecode known.
pub proof fn zk_creation_is_eip712(
    tx: ZkTxModel,
    code: Seq<u8>,
    constructor_args: Seq<u8>,
    factory_deps: Seq<Seq<u8>>,
)
    requires
        is_zk_creation_tx(tx, code, constructor_args, factory_deps),
    ensures
        tx.eip712_meta is Some,
        tx.meta().factory_deps.contains(code),
{
    assert(factory_deps.push(code)[factory_deps.len() as int] == code);
}

/// The input of a deployment is the bytecode and, where there is a constructor, what its arguments
/// are encoded to, whole and behind it, whatever the types of its inputs are. Without a constructor
/// there must be no arguments, and the input is the bytecode alone.
pub proof fn the_input_is_bytecode_and_encoded_arguments(
    constructor: Option<Seq<Param>>,
    bytecode: Seq<u8>,
    params: Seq<DynSolValue>,
)
    ensures
        constructor matches Some(inputs) ==> match encoded_input(inputs, params, usize::BITS) {
            Ok(bytes) => {
                let data = creation_data(constructor, bytecode, params);
                &&& data is Ok
                &&& data->Ok_0.len() == bytecode.len() + bytes.len()
                &&& forall|i: int|
                    0 <= i < bytecode.len() ==> #[trigger] data->Ok_0[i] == bytecode[i]
                &&& forall|i: int|
                    0 <= i < bytes.len() ==> data->Ok_0[bytecode.len() + i] == #[trigger] bytes[i]
            },
            Err(error) => creation_data(constructor, bytecode, params) == Err::<Seq<u8>, _>(
                ContractDeploymentError::DetokenizationError(error),
            ),
        },
        constructor is None ==> params.len() == 0 ==> creation_data(constructor, bytecode, params)
            == Ok::<Seq<u8>, ContractDeploymentError>(bytecode),
        constructor is None ==> params.len() > 0 ==> creation_data(constructor, bytecode, params)
            == Err::<Seq<u8>, _>(ContractDeploymentError::ConstructorError),
{
}

/// On ZKsync the arguments are what they are encoded to, whole, whatever the types of the inputs
/// are. Where there are no arguments and they cannot be encoded, or there is no constructor, there
/// are no bytes.
pub proof fn zk_arguments_are_the_encoded_ones(
    constructor: Option<Seq<Param>>,
    params: Seq<DynSolValue>,
)
    ensures
        constructor matches Some(inputs) ==> match encoded_input(inputs, params, usize::BITS) {
            Ok(bytes) => zk_constructor_args(constructor, params) == Ok::<
                Seq<u8>,
                ContractDeploymentError,
            >(bytes),
            Err(error) => if params.len() == 0 {
                zk_constructor_args(constructor, params) is Ok && zk_constructor_args(
                    constructor,
                    params,
                )->Ok_0.len() == 0
            } else {
                zk_constructor_args(constructor, params) == Err::<Seq<u8>, _>(
                    ContractDeploymentError::DetokenizationError(error),
                )
            },
        },
        constructor is None ==> params.len() == 0 ==> zk_constructor_args(constructor, params) is Ok
            && zk_constructor_args(constructor, params)->Ok_0.len() == 0,
        constructor is None ==> params.len() > 0 ==> zk_constructor_args(constructor, params)
            == Err::<Seq<u8>, _>(ContractDeploymentError::ConstructorError),
{
}

/// A transaction that creates a contract on ZKsync calls the contract deployer, carries the call
/// for its bytecode and its arguments, and makes known the dependencies and, behind them, the
/// bytecode. Nothing else of it is set.
pub proof fn a_zk_creation_sets_call_and_bytecodes(
    tx: ZkTxModel,
    code: Seq<u8>,
    constructor_args: Seq<u8>,
    factory_deps: Seq<Seq<u8>>,
)
    requires
        is_zk_creation_tx(tx, code, constructor_args, factory_deps),
    ensures
        calls_contract_deployer(tx.base.to),
        tx.base.input == Some(zk_create_calldata(code, constructor_args)),
        tx.base.from is None,
        tx.base.gas_price is None,
        tx.base.max_fee_per_gas is None,
        tx.base.max_priority_fee_per_gas is None,
        tx.base.gas is None,
        tx.base.value is None,
        tx.base.nonce is None,
        tx.base.chain_id is None,
        tx.eip712_meta is Some,
        tx.eip712_meta->Some_0.factory_deps == factory_deps.push(code),
        tx.eip712_meta->Some_0.gas_per_pubdata == 0,
        tx.eip712_meta->Some_0.paymaster_params is None,
{
}

/// What a request to create a contract on ZKsync is made of stands in the transaction, and nothing
/// else is set.
pub proof fn a_zk_creation_is_what_it_is_made_of(creation: ZkCreation)
    ensures
        ({
            let tx = zk_creation_tx(creation);
            &&& tx.base == (TxModel {
                from: None,
                to: creation.to,
                gas_price: None,
                max_fee_per_gas: None,
                max_priority_fee_per_gas: None,
                gas: None,
                value: None,
                input: Some(creation.input@),
                nonce: None,
                chain_id: None,
            })
            &&& tx.eip712_meta is Some
            &&& tx.eip712_meta->Some_0.factory_deps.len() == creation.factory_deps@.len()
            &&& forall|i: int|
                0 <= i < creation.factory_deps@.len() ==> #[trigger]
                tx.eip712_meta->Some_0.factory_deps[i] == creation.factory_deps@[i]@
            &&& tx.eip712_meta->Some_0.gas_per_pubdata == 0
            &&& tx.eip712_meta->Some_0.paymaster_params is None
        }),
{
}

/// A contract is deployed exactly if the transaction was mined and its receipt holds an address;
/// it is then at that address. What could not be sent is told with its cause, and all else is a
/// contract that was not deployed.
pub proof fn a_contract_is_deployed_at_the_address_of_its_receipt(
    sent: Result<Receipt, SendError>,
    receipt: Receipt,
    address: Address,
)
    ensures
        deployed(sent) == Ok::<_, ContractDeploymentError>((address, receipt)) <==> sent == Ok::<
            _,
            SendError,
        >(receipt) && receipt.contract_address == Some(address),
        sent matches Err(SendError::Transport(error)) ==> deployed(sent) == Err::<
            (Address, Receipt),
            _,
        >(ContractDeploymentError::RpcError(error)),
        sent matches Err(SendError::Pending(_)) ==> deployed(sent) == Err::<(Address, Receipt), _>(
            ContractDeploymentError::ContractNotDeployed,
        ),
        sent == Ok::<_, SendError>(receipt) && receipt.contract_address is None ==> deployed(sent)
            == Err::<(Address, Receipt), _>(ContractDeploymentError::ContractNotDeployed),
{
}

/// A factory hands on its ABI, a clone of its client and its timeout to every deployer, which waits
/// for one confirmation.
pub proof fn a_factory_hands_on_what_it_holds<B: Clone, P, T>(
    factory: DeploymentTxFactory<B, P, T>,
    deployer: Deployer<B, P, T>,
    zk_deployer: ZkDeployer<B, P, T>,
)
    ensures
        factory.makes(deployer) <==> {
            &&& cloned(factory.client, deployer.client)
            &&& deployer.abi == factory.abi
            &&& deployer.confs == 1
            &&& deployer.timeout == factory.timeout
            &&& deployer.zk_factory_deps is None
            &&& deployer.zk_paymaster_params is None
        },
        factory.makes_zk(zk_deployer) <==> {
            &&& cloned(factory.client, zk_deployer.client)
            &&& zk_deployer.abi == factory.abi
            &&& zk_deployer.confs == 1
            &&& zk_deployer.timeout == factory.timeout
            &&& zk_deployer.zk_factory_deps is None
        },
{
}

/// A copy of a deployer says what the deployer says.
pub proof fn a_copied_deployer_says_the_same<B: Clone, P, T>(
    deployer: Deployer<B, P, T>,
    copy: Deployer<B, P, T>,
    zk_deployer: ZkDeployer<B, P, T>,
    zk_copy: ZkDeployer<B, P, T>,
)
    requires
        deployer.is_copied_to(copy),
        zk_deployer.is_copied_to(zk_copy),
    ensures
        copy.tx@ == deployer.tx@,
        copy.abi@ == deployer.abi@,
        cloned(deployer.client, copy.client),
        copy.confs == deployer.confs,
        copy.timeout == deployer.timeout,
        deployer.zk_factory_deps is Some <==> copy.zk_factory_deps is Some,
        deployer.zk_factory_deps is Some ==> contents(copy.zk_factory_deps->Some_0@) == contents(
            deployer.zk_factory_deps->Some_0@,
        ),
        paymaster_view(copy.zk_paymaster_params) == paymaster_view(deployer.zk_paymaster_params),
        zk_copy.tx@ == zk_deployer.tx@,
        zk_copy.abi@ == zk_deployer.abi@,
        cloned(zk_deployer.client, zk_copy.client),
        zk_copy.confs == zk_deployer.confs,
        zk_copy.timeout == zk_deployer.timeout,
        zk_deployer.zk_factory_deps is Some <==> zk_copy.zk_factory_deps is Some,
        zk_deployer.zk_factory_deps is Some ==> contents(zk_copy.zk_factory_deps->Some_0@)
            == contents(zk_deployer.zk_factory_deps->Some_0@),
{
}

/// What went wrong with a deployment is told in words: an error in the encoding in that error's
/// own.
pub proof fn deployment_errors_are_told_in_words(text: Seq<char>, error: alloy_dyn_abi::Error)
    ensures
        ContractDeploymentError::ConstructorError.is_told_as(text) <==> text
            == "constructor is not defined in the ABI"@,
        ContractDeploymentError::DetokenizationError(error).is_told_as(text) <==> text
            == abi_error_text(error),
        ContractDeploymentError::ContractNotDeployed.is_told_as(text) <==> text
            == "contract was not deployed"@,
        ContractDeploymentError::TransactionBuildError.is_told_as(text) <==> text
            == "failed building transaction"@,
{
}

/// Values are read back exactly if they are what is decoded behind the bytecode.
pub proof fn values_are_read_behind_the_bytecode(
    inputs: Seq<Param>,
    bytecode: Seq<u8>,
    args: Seq<u8>,
    params: Seq<DynSolValue>,
)
    ensures
        reads_back(inputs, bytecode, bytecode + args, params) <==> decoding_of(inputs, args) == Ok::<
            Seq<DynSolValue>,
            alloy_dyn_abi::Error,
        >(params),
{
    assert((bytecode + args).skip(bytecode.len() as int) =~= args);
}

/// An error of encoding or of sending keeps its cause, a transaction that was not waited for to its
/// end is a contract that was not deployed, and a marked deployer is the deployer.
pub proof fn conversions_keep_what_they_convert<B, P, T, C>(
    encoding: alloy_dyn_abi::Error,
    transport: TransportError,
    pending: PendingTransactionError,
    deployer: Deployer<B, P, T>,
)
    ensures
        <ContractDeploymentError as FromSpec<alloy_dyn_abi::Error>>::from_spec(encoding)
            == ContractDeploymentError::DetokenizationError(encoding),
        <ContractDeploymentError as FromSpec<TransportError>>::from_spec(transport)
            == ContractDeploymentError::RpcError(transport),
        <ContractDeploymentError as FromSpec<PendingTransactionError>>::from_spec(pending)
            == ContractDeploymentError::ContractNotDeployed,
        <ContractDeploymentTx<B, P, T, C> as FromSpec<Deployer<B, P, T>>>::from_spec(
            deployer,
        ).deployer == deployer,
{
}

} // verus!
