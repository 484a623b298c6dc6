//! Transaction requests, and the request that creates a contract on ZKsync.

use crate::distinct::contents;
use crate::primitives::{Address, U256};
use alloy_network::TransactionBuilder;
use alloy_rpc_types::{TransactionInput, TransactionRequest as RpcRequest};
use alloy_zksync::network::transaction_request::TransactionRequest as ZkRpcRequest;
use alloy_zksync::network::tx_type::TxType;
use alloy_zksync::network::unsigned_tx::eip712::PaymasterParams as AlloyPaymasterParams;
use vstd::prelude::*;

verus! {

/// What a transaction is addressed to.
#[derive(Debug, Clone, Copy, PartialEq, Eq)]
pub enum TxKind {
    /// The creation of a contract.
    Create,
    /// A call of this account.
    Call(Address),
}

/// A transaction that is being put together: a field that is not set yet is `None`.
#[derive(Debug)]
pub struct TransactionRequest {
    pub from: Option<Address>,
    pub to: Option<TxKind>,
    pub gas_price: Option<u128>,
    pub max_fee_per_gas: Option<u128>,
    pub max_priority_fee_per_gas: Option<u128>,
    pub gas: Option<u64>,
    pub value: Option<U256>,
    pub input: Option<Vec<u8>>,
    pub nonce: Option<u64>,
    pub chain_id: Option<u64>,
}

/// What a transaction request says.
#[verifier::ext_equal]
pub struct TxModel {
    pub from: Option<Address>,
    pub to: Option<TxKind>,
    pub gas_price: Option<u128>,
    pub max_fee_per_gas: Option<u128>,
    pub max_priority_fee_per_gas: Option<u128>,
    pub gas: Option<u64>,
    pub value: Option<U256>,
    pub input: Option<Seq<u8>>,
    pub nonce: Option<u64>,
    pub chain_id: Option<u64>,
}

/// Bytes that may be missing, as a sequence.
pub open spec fn bytes_view(bytes: Option<Vec<u8>>) -> Option<Seq<u8>> {
    match bytes {
        Some(bytes) => Some(bytes@),
        None => None,
    }
}

impl View for TransactionRequest {
    type V = TxModel;

    open spec fn view(&self) -> TxModel {
        TxModel {
            from: self.from,
            to: self.to,
            gas_price: self.gas_price,
            max_fee_per_gas: self.max_fee_per_gas,
            max_priority_fee_per_gas: self.max_priority_fee_per_gas,
            gas: self.gas,
            value: self.value,
            input: bytes_view(self.input),
            nonce: self.nonce,
            chain_id: self.chain_id,
        }
    }
}

/// A transaction of which only the input is set.
pub open spec fn only_input(input: Seq<u8>) -> TxModel {
    TxModel {
        from: None,
        to: None,
        gas_price: None,
        max_fee_per_gas: None,
        max_priority_fee_per_gas: None,
        gas: None,
        value: None,
        input: Some(input),
        nonce: None,
        chain_id: None,
    }
}

impl TransactionRequest {
    /// A transaction of which only the input is set.
    pub fn with_input(input: Vec<u8>) -> (r: Self)
        ensures
            r@ == only_input(input@),
    {
        TransactionRequest {
            from: None,
            to: None,
            gas_price: None,
            max_fee_per_gas: None,
            max_priority_fee_per_gas: None,
            gas: None,
            value: None,
            input: Some(input),
            nonce: None,
            chain_id: None,
        }
    }
}

/// Copies bytes.
pub(crate) fn copy_bytes(bytes: &Vec<u8>) -> (r: Vec<u8>)
    ensures
        r@ == bytes@,
{
    let copy = bytes.clone();
    assert(copy@ =~= bytes@);
    copy
}

/// Copies byte strings.
pub(crate) fn copy_list(list: &Vec<Vec<u8>>) -> (r: Vec<Vec<u8>>)
    ensures
        contents(r@) == contents(list@),
{
    let mut copy: Vec<Vec<u8>> = Vec::new();
    let mut i: usize = 0;
    while i < list.len()
        invariant
            i <= list.len(),
            contents(copy@) == contents(list@).take(i as int),
        decreases list.len() - i,
    {
        let ghost before = contents(copy@);
        copy.push(copy_bytes(&list[i]));
        i = i + 1;
        assert(contents(copy@) =~= before.push(list@[i - 1]@));
        assert(contents(list@).take(i as int) =~= before.push(list@[i - 1]@));
    }
    assert(contents(list@).take(i as int) =~= contents(list@));
    copy
}

impl Clone for TransactionRequest {
    fn clone(&self) -> (r: Self)
        ensures
            r@ == self@,
    {
        TransactionRequest {
            from: self.from,
            to: self.to,
            gas_price: self.gas_price,
            max_fee_per_gas: self.max_fee_per_gas,
            max_priority_fee_per_gas: self.max_priority_fee_per_gas,
            gas: self.gas,
            value: self.value,
            input: match &self.input {
                Some(input) => Some(copy_bytes(input)),
                None => None,
            },
            nonce: self.nonce,
            chain_id: self.chain_id,
        }
    }
}

/// A contract that pays the fees of a ZKsync transaction, and what it is called with.
#[derive(Debug)]
pub struct PaymasterParams {
    pub paymaster: Address,
    pub paymaster_input: Vec<u8>,
}

/// What paymaster parameters say.
#[verifier::ext_equal]
pub struct PaymasterModel {
    pub paymaster: Address,
    pub paymaster_input: Seq<u8>,
}

impl View for PaymasterParams {
    type V = PaymasterModel;

    open spec fn view(&self) -> PaymasterModel {
        PaymasterModel { paymaster: self.paymaster, paymaster_input: self.paymaster_input@ }
    }
}

impl Clone for PaymasterParams {
    fn clone(&self) -> (r: Self)
        ensures
            r@ == self@,
    {
        PaymasterParams {
            paymaster: self.paymaster,
            paymaster_input: copy_bytes(&self.paymaster_input),
        }
    }
}

/// Paymaster parameters that may be missing, as what they say.
pub open spec fn paymaster_view(params: Option<PaymasterParams>) -> Option<PaymasterModel> {
    match params {
        Some(params) => Some(params@),
        None => None,
    }
}

/// Copies paymaster parameters that may be missing.
pub(crate) fn copy_paymaster(params: &Option<PaymasterParams>) -> (r: Option<PaymasterParams>)
    ensures
        paymaster_view(r) == paymaster_view(*params),
{
    match params {
        Some(params) => Some(params.clone()),
        None => None,
    }
}

/// What a ZKsync transaction says beyond an ordinary one. A transaction that has it is of the
/// EIP-712 type.
#[derive(Debug)]
pub struct Eip712Meta {
    pub gas_per_pubdata: U256,
    /// The bytecodes that the transaction makes known.
    pub factory_deps: Vec<Vec<u8>>,
    pub paymaster_params: Option<PaymasterParams>,
}

/// What the EIP-712 part of a transaction says.
#[verifier::ext_equal]
pub struct MetaModel {
    pub gas_per_pubdata: nat,
    pub factory_deps: Seq<Seq<u8>>,
    pub paymaster_params: Option<PaymasterModel>,
}

impl View for Eip712Meta {
    type V = MetaModel;

    open spec fn view(&self) -> MetaModel {
        MetaModel {
            gas_per_pubdata: self.gas_per_pubdata@,
            factory_deps: contents(self.factory_deps@),
            paymaster_params: paymaster_view(self.paymaster_params),
        }
    }
}

/// The EIP-712 part in which nothing is set.
pub open spec fn empty_meta() -> MetaModel {
    MetaModel { gas_per_pubdata: 0, factory_deps: seq![], paymaster_params: None }
}

impl Default for Eip712Meta {
    fn default() -> (r: Self)
        ensures
            r@ == empty_meta(),
    {
        let factory_deps: Vec<Vec<u8>> = Vec::new();
        assert(contents(factory_deps@) =~= seq![]);
        Eip712Meta { gas_per_pubdata: U256::from_u128(0), factory_deps, paymaster_params: None }
    }
}

impl Clone for Eip712Meta {
    fn clone(&self) -> (r: Self)
        ensures
            r@ == self@,
    {
        Eip712Meta {
            gas_per_pubdata: self.gas_per_pubdata,
            factory_deps: copy_list(&self.factory_deps),
            paymaster_params: copy_paymaster(&self.paymaster_params),
        }
    }
}

/// A ZKsync transaction that is being put together.
#[derive(Debug)]
pub struct ZkTransactionRequest {
    pub base: TransactionRequest,
    pub eip712_meta: Option<Eip712Meta>,
}

/// What a ZKsync transaction request says.
#[verifier::ext_equal]
pub struct ZkTxModel {
    pub base: TxModel,
    pub eip712_meta: Option<MetaModel>,
}

impl View for ZkTransactionRequest {
    type V = ZkTxModel;

    open spec fn view(&self) -> ZkTxModel {
        ZkTxModel {
            base: self.base@,
            eip712_meta: meta_view(self.eip712_meta),
        }
    }
}

impl ZkTxModel {
    /// The EIP-712 part, or the one in which nothing is set.
    pub open spec fn meta(self) -> MetaModel {
        match self.eip712_meta {
            Some(meta) => meta,
            None => empty_meta(),
        }
    }
}

impl Clone for ZkTransactionRequest {
    fn clone(&self) -> (r: Self)
        ensures
            r@ == self@,
    {
        ZkTransactionRequest {
            base: self.base.clone(),
            eip712_meta: match &self.eip712_meta {
                Some(meta) => Some(meta.clone()),
                None => None,
            },
        }
    }
}

impl ZkTransactionRequest {
    /// The transaction with these bytecodes in place of those that it made known before.
    pub fn with_factory_deps(self, factory_deps: Vec<Vec<u8>>) -> (r: Self)
        ensures
            r@ == (ZkTxModel {
                eip712_meta: Some(
                    MetaModel { factory_deps: contents(factory_deps@), ..self@.meta() },
                ),
                ..self@
            }),
    {
        let mut meta = match self.eip712_meta {
            Some(meta) => meta,
            None => Eip712Meta::default(),
        };
        meta.factory_deps = factory_deps;
        ZkTransactionRequest { base: self.base, eip712_meta: Some(meta) }
    }

    /// The transaction with its fees paid by this paymaster.
    pub fn with_paymaster_params(self, params: PaymasterParams) -> (r: Self)
        ensures
            r@ == (ZkTxModel {
                eip712_meta: Some(MetaModel { paymaster_params: Some(params@), ..self@.meta() }),
                ..self@
            }),
    {
        let mut meta = match self.eip712_meta {
            Some(meta) => meta,
            None => Eip712Meta::default(),
        };
        meta.paymaster_params = Some(params);
        ZkTransactionRequest { base: self.base, eip712_meta: Some(meta) }
    }
}

/// What a request to create a contract on ZKsync is made of.
#[derive(Debug)]
pub struct ZkCreation {
    pub to: Option<TxKind>,
    pub input: Vec<u8>,
    pub factory_deps: Vec<Vec<u8>>,
}

/// Whether ZKsync accepts a bytecode: an odd number of 32-byte words, at most 65535.
pub open spec fn is_zk_bytecode(code: Seq<u8>) -> bool {
    &&& code.len() % 32 == 0
    &&& code.len() / 32 <= 65535
    &&& (code.len() / 32) % 2 == 1
}

/// Whether a transaction calls the system contract that creates contracts, the account 0x8006.
pub open spec fn calls_contract_deployer(to: Option<TxKind>) -> bool {
    to matches Some(TxKind::Call(address)) && address.bytes@ == Seq::new(
        20,
        |i: int|
            if i == 18 {
                0x80u8
            } else if i == 19 {
                0x06u8
            } else {
                0u8
            },
    )
}

/// The call that creates a contract with this bytecode and these constructor arguments.
pub uninterp spec fn zk_create_calldata(code: Seq<u8>, constructor_args: Seq<u8>) -> Seq<u8>;

/// Calls `with_create_params` of `alloy_zksync`'s `TransactionRequest` on an empty request. It
/// fails on the bytecodes that ZKsync does not accept and on no others. Else the request calls
/// the contract deployer, makes known the given bytecodes and, behind them, the contract's own,
/// and its input depends on the bytecode and on the constructor arguments alone.
#[verifier::external_body]
pub(crate) fn create_params(
    code: &Vec<u8>,
    constructor_args: &Vec<u8>,
    factory_deps: &Vec<Vec<u8>>,
) -> (r: Option<ZkCreation>)
    ensures
        r is Some <==> is_zk_bytecode(code@),
        r matches Some(c) ==> calls_contract_deployer(c.to),
        r matches Some(c) ==> c.input@ == zk_create_calldata(code@, constructor_args@),
        r matches Some(c) ==> contents(c.factory_deps@) == contents(factory_deps@).push(code@),
{
    let tx = ZkRpcRequest::default()
        .with_create_params(code.clone(), constructor_args.clone(), factory_deps.clone())
        .ok()?;
    let deps = tx.factory_deps().map(|deps| deps.iter().map(|dep| dep.to_vec()).collect());
    Some(ZkCreation {
        to: tx.to().map(|to| TxKind::Call(Address { bytes: to.into_array() })),
        input: tx.input().map(|input| input.to_vec()).unwrap_or_default(),
        factory_deps: deps.unwrap_or_default(),
    })
}

/// `alloy_rpc_types::TransactionRequest`: a transaction as it goes to a node.
#[verifier::external_type_specification]
#[verifier::external_body]
pub struct ExAlloyRequest(RpcRequest);

/// The request of `alloy_rpc_types` that says the same.
pub uninterp spec fn alloy_request(tx: TxModel) -> RpcRequest;

/// What `serde_json::to_string_pretty` makes of a request without other fields.
pub uninterp spec fn request_json(request: RpcRequest) -> Option<Seq<char>>;

/// What `serde_json::to_string_pretty` makes of a ZKsync request with this base, the EIP-712
/// transaction type and this EIP-712 part.
pub uninterp spec fn zk_request_json(
    base: RpcRequest,
    meta: Option<MetaModel>,
) -> Option<Seq<char>>;

/// A transaction in JSON, if it can be written so.
pub open spec fn transaction_json(tx: TxModel) -> Option<Seq<char>> {
    request_json(alloy_request(tx))
}

/// A ZKsync transaction in JSON, if it can be written so.
pub open spec fn zk_transaction_json(tx: ZkTxModel) -> Option<Seq<char>> {
    zk_request_json(alloy_request(tx.base), tx.eip712_meta)
}

/// A text that may be missing, as a sequence.
pub open spec fn text_view(text: Option<String>) -> Option<Seq<char>> {
    match text {
        Some(text) => Some(text@),
        None => None,
    }
}

/// Makes an `alloy_rpc_types::TransactionRequest` with the same fields and no others set: it
/// depends on them alone.
#[verifier::external_body]
fn to_alloy_request(tx: &TransactionRequest) -> (r: RpcRequest)
    ensures
        r == alloy_request(tx@),
{
    RpcRequest {
        from: tx.from.map(|from| from.bytes.into()),
        to: tx.to.map(|to| match to {
            TxKind::Create => alloy_primitives::TxKind::Create,
            TxKind::Call(to) => alloy_primitives::TxKind::Call(to.bytes.into()),
        }),
        gas_price: tx.gas_price,
        max_fee_per_gas: tx.max_fee_per_gas,
        max_priority_fee_per_gas: tx.max_priority_fee_per_gas,
        gas: tx.gas,
        value: tx.value.map(|n| alloy_primitives::U256::from_be_slice(
            &[n.high.to_be_bytes(), n.low.to_be_bytes()].concat())),
        input: TransactionInput::maybe_input(tx.input.clone().map(Into::into)),
        nonce: tx.nonce, chain_id: tx.chain_id, ..Default::default() }
}

/// Calls `serde_json::to_string_pretty` on a request without other fields: the text depends on the
/// request alone.
#[verifier::external_body]
fn write_request(request: RpcRequest) -> (r: Option<String>)
    ensures
        text_view(r) == request_json(request),
{
    serde_json::to_string_pretty(&alloy_serde::WithOtherFields::new(request)).ok()
}

/// Calls `serde_json::to_string_pretty` on the request of `alloy_zksync` with this base, the
/// EIP-712 transaction type that its requests have by default and, if there is one, this EIP-712
/// part: the text depends on the base and on that part alone.
#[verifier::external_body]
fn write_zk_request(base: RpcRequest, meta: &Option<Eip712Meta>) -> (r: Option<String>)
    ensures
        text_view(r) == zk_request_json(base, meta_view(*meta)),
{
    let transaction_type = Some(TxType::Eip712.into());
    let mut tx: ZkRpcRequest = RpcRequest { transaction_type, ..base }.into();
    if let Some(meta) = meta {
        let n = meta.gas_per_pubdata;
        tx.set_gas_per_pubdata(alloy_primitives::U256::from_be_slice(
            &[n.high.to_be_bytes(), n.low.to_be_bytes()].concat(),
        ));
        tx.set_factory_deps(meta.factory_deps.iter().map(|dep| dep.clone().into()).collect());
        if let Some(params) = &meta.paymaster_params {
            let paymaster = params.paymaster.bytes.into();
            let paymaster_input = params.paymaster_input.clone().into();
            tx.set_paymaster_params(AlloyPaymasterParams { paymaster, paymaster_input });
        }
    }
    serde_json::to_string_pretty(&tx).ok()
}

impl TransactionRequest {
    /// The transaction in JSON, if it can be written so.
    pub fn to_json(&self) -> (r: Option<String>)
        ensures
            text_view(r) == transaction_json(self@),
    {
        write_request(to_alloy_request(self))
    }
}

impl ZkTransactionRequest {
    /// The transaction in JSON, if it can be written so.
    pub fn to_json(&self) -> (r: Option<String>)
        ensures
            text_view(r) == zk_transaction_json(self@),
    {
        write_zk_request(to_alloy_request(&self.base), &self.eip712_meta)
    }
}

/// An EIP-712 part that may be missing, as what it says.
pub open spec fn meta_view(meta: Option<Eip712Meta>) -> Option<MetaModel> {
    match meta {
        Some(meta) => Some(meta@),
        None => None,
    }
}

/// A transaction request says what its fields hold.
pub proof fn a_request_says_what_its_fields_hold(tx: TransactionRequest)
    ensures
        tx@.from == tx.from,
        tx@.to == tx.to,
        tx@.gas_price == tx.gas_price,
        tx@.max_fee_per_gas == tx.max_fee_per_gas,
        tx@.max_priority_fee_per_gas == tx.max_priority_fee_per_gas,
        tx@.gas == tx.gas,
        tx@.value == tx.value,
        tx@.nonce == tx.nonce,
        tx@.chain_id == tx.chain_id,
        tx.input matches Some(input) ==> tx@.input == Some(input@),
        tx.input is None ==> tx@.input is None,
{
}

/// A ZKsync transaction request says what its fields hold: those of its base, and those of its
/// EIP-712 part if it has one.
pub proof fn a_zk_request_says_what_its_fields_hold(tx: ZkTransactionRequest)
    ensures
        tx@.base == tx.base@,
        tx.eip712_meta is None ==> tx@.eip712_meta is None,
        tx.eip712_meta matches Some(meta) ==> {
            &&& tx@.eip712_meta is Some
            &&& tx@.meta() == tx@.eip712_meta->Some_0
            &&& tx@.meta().gas_per_pubdata == meta.gas_per_pubdata@
            &&& tx@.meta().factory_deps.len() == meta.factory_deps@.len()
            &&& forall|i: int|
                0 <= i < meta.factory_deps@.len() ==> #[trigger] tx@.meta().factory_deps[i]
                    == meta.factory_deps@[i]@
            &&& meta.paymaster_params is None ==> tx@.meta().paymaster_params is None
            &&& meta.paymaster_params is Some ==> {
                &&& tx@.meta().paymaster_params is Some
                &&& tx@.meta().paymaster_params->Some_0.paymaster
                    == meta.paymaster_params->Some_0.paymaster
                &&& tx@.meta().paymaster_params->Some_0.paymaster_input
                    == meta.paymaster_params->Some_0.paymaster_input@
            }
        },
{
}

/// Paymaster parameters that are given say which paymaster it is and what it is called with.
pub proof fn a_paymaster_says_what_its_fields_hold(params: PaymasterParams)
    ensures
        paymaster_view(None) is None,
        paymaster_view(Some(params)) is Some,
        paymaster_view(Some(params))->Some_0.paymaster == params.paymaster,
        paymaster_view(Some(params))->Some_0.paymaster_input == params.paymaster_input@,
{
}

/// Of a transaction with its input alone nothing else is set, and of an EIP-712 part in which
/// nothing is set, nothing is.
pub proof fn an_input_alone_sets_nothing_else(input: Seq<u8>)
    ensures
        only_input(input).input == Some(input),
        only_input(input).from is None,
        only_input(input).to is None,
        only_input(input).gas_price is None,
        only_input(input).max_fee_per_gas is None,
        only_input(input).max_priority_fee_per_gas is None,
        only_input(input).gas is None,
        only_input(input).value is None,
        only_input(input).nonce is None,
        only_input(input).chain_id is None,
        empty_meta().gas_per_pubdata == 0,
        empty_meta().factory_deps.len() == 0,
        empty_meta().paymaster_params is None,
{
}

/// ZKsync accepts every bytecode of an odd number of 32-byte words up to 65535, and no other one.
pub proof fn zk_bytecode_has_an_odd_number_of_words(code: Seq<u8>)
    ensures
        is_zk_bytecode(code) <==> exists|half: int|
            0 <= half <= 32767 && code.len() == #[trigger] (half * 64) + 32,
{
    if is_zk_bytecode(code) {
        let half = code.len() as int / 64;
        assert(code.len() == (half * 64) + 32);
    }
}

/// The contract deployer is called at the account whose last two bytes are 0x80 and 0x06 and whose
/// others are zero.
pub proof fn the_contract_deployer_has_its_address(address: Address)
    ensures
        !calls_contract_deployer(None),
        !calls_contract_deployer(Some(TxKind::Create)),
        calls_contract_deployer(Some(TxKind::Call(address))) <==> address.bytes@[18] == 0x80
            && address.bytes@[19] == 0x06 && forall|i: int|
            0 <= i < 18 ==> #[trigger] address.bytes@[i] == 0,
{
    if address.bytes@[18] == 0x80 && address.bytes@[19] == 0x06 && forall|i: int|
        0 <= i < 18 ==> #[trigger] address.bytes@[i] == 0 {
        assert(address.bytes@ =~= Seq::new(
            20,
            |i: int|
                if i == 18 {
                    0x80u8
                } else if i == 19 {
                    0x06u8
                } else {
                    0u8
                },
        ));
    }
}

/// A transaction is shown as the JSON of the request that says the same, and on ZKsync of the one
/// with the same EIP-712 part.
pub proof fn json_is_that_of_the_whole_transaction(tx: TxModel, zk: ZkTxModel)
    ensures
        transaction_json(tx) == request_json(alloy_request(tx)),
        zk_transaction_json(zk) == zk_request_json(alloy_request(zk.base), zk.eip712_meta),
{
}

/// Bytes, a text or an EIP-712 part that may be missing are seen as they are, and a transaction
/// without an EIP-712 part says nothing there.
pub proof fn what_may_be_missing_is_seen_as_it_is(
    bytes: Vec<u8>,
    text: String,
    meta: Eip712Meta,
    base: TxModel,
)
    ensures
        bytes_view(Some(bytes)) == Some(bytes@),
        bytes_view(None) is None,
        text_view(Some(text)) == Some(text@),
        text_view(None) is None,
        meta_view(Some(meta)) == Some(meta@),
        meta_view(None) is None,
        ({
            let said = (ZkTxModel { base, eip712_meta: None }).meta();
            said.gas_per_pubdata == 0 && said.factory_deps.len() == 0
                && said.paymaster_params is None
        }),
{
}

} // verus!
