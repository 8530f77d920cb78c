use vstd::prelude::*;

use kaspa_txscript::script_builder::ScriptBuilderError;

use crate::envelope::{push_encoding, MAX_SCRIPTS_SIZE, MAX_SCRIPT_ELEMENT_SIZE};

verus! {

/// A script public key: the script version and the script.
pub struct ScriptPublicKeyData {
    pub version: u16,
    pub script: Vec<u8>,
}

/// A reference to an output of an earlier transaction.
pub struct OutpointData {
    pub transaction_id: [u8; 32],
    pub index: u32,
}

/// A transaction input.
pub struct InputData {
    pub previous_outpoint: OutpointData,
    pub signature_script: Vec<u8>,
    pub sequence: u64,
    pub sig_op_count: u8,
}

/// A transaction output.
pub struct OutputData {
    pub value: u64,
    pub script_public_key: ScriptPublicKeyData,
}

/// A transaction, field by field.
pub struct TransactionData {
    pub version: u16,
    pub inputs: Vec<InputData>,
    pub outputs: Vec<OutputData>,
    pub lock_time: u64,
    pub subnetwork_id: [u8; 20],
    pub gas: u64,
    pub payload: Vec<u8>,
}

/// What the commit and reveal steps read of the transaction they spend: its id and the
/// values of its outputs.
pub struct SpentTransaction {
    pub id: [u8; 32],
    pub output_values: Vec<u64>,
}

/// The pay-to-script-hash script of a redeem script, as `pay_to_script_hash_script` builds
/// it around the script's BLAKE2b hash.
pub uninterp spec fn p2sh_script(redeem_script: Seq<u8>) -> Seq<u8>;

/// `kaspa_txscript::pay_to_script_hash_script`, read into plain values.
///
/// Trusted: the script is `p2sh_script` of the redeem script; as its source shows, it is
/// `OP_BLAKE2B OP_DATA_32 <32-byte hash> OP_EQUAL` under script version 0. Which hash is
/// left to the name.
#[verifier::external_body]
fn pay_to_script_hash_script(redeem_script: &[u8]) -> (r: ScriptPublicKeyData)
    ensures
        r.script@ == p2sh_script(redeem_script@),
        r.version == 0,
        r.script@.len() == 35,
        r.script@[0] == 0xaa,
        r.script@[1] == 0x20,
        r.script@[34] == 0x87,
{
    let spk = kaspa_txscript::pay_to_script_hash_script(redeem_script);
    ScriptPublicKeyData { version: spk.version(), script: spk.script().to_vec() }
}

/// `kaspa_txscript::pay_to_script_hash_signature_script`.
///
/// Trusted: the result is the signature followed by the canonical push of the redeem
/// script, and it fails exactly when that push breaks the builder's limits.
#[verifier::external_body]
fn pay_to_script_hash_signature_script(redeem_script: Vec<u8>, signature: Vec<u8>) -> (r: Result<
    Vec<u8>,
    ScriptBuilderError,
>)
    ensures
        r is Ok <==> (push_encoding(redeem_script@).len() <= MAX_SCRIPTS_SIZE
            && redeem_script@.len() <= MAX_SCRIPT_ELEMENT_SIZE),
        r matches Ok(v) ==> v@ == signature@ + push_encoding(redeem_script@),
{
    kaspa_txscript::pay_to_script_hash_signature_script(redeem_script, signature)
}

/// `kaspa_consensus_core::constants::TX_VERSION`.
///
/// Trusted: the constant's value in the crate's source, 0.
#[verifier::external_body]
fn tx_version() -> (v: u16)
    ensures
        v == 0,
{
    kaspa_consensus_core::constants::TX_VERSION
}

/// `kaspa_consensus_core::constants::MAX_TX_IN_SEQUENCE_NUM`.
///
/// Trusted: the constant's value in the crate's source, `u64::MAX`.
#[verifier::external_body]
fn max_tx_in_sequence_num() -> (v: u64)
    ensures
        v == u64::MAX,
{
    kaspa_consensus_core::constants::MAX_TX_IN_SEQUENCE_NUM
}

/// A transaction of the current version with one input and one output, no lock time, on
/// the native subnetwork, with no gas and no payload.
pub open spec fn single_transfer_shape(tx: TransactionData) -> bool {
    &&& tx.version == 0
    &&& tx.inputs@.len() == 1
    &&& tx.outputs@.len() == 1
    &&& tx.lock_time == 0
    &&& tx.subnetwork_id@ == Seq::new(20, |i: int| 0u8)
    &&& tx.gas == 0
    &&& tx.payload@.len() == 0
}

/// The single input spends output 0 of the spent transaction, at the highest sequence
/// number, counting one signature operation.
pub open spec fn spends_first_output(tx: TransactionData, spent: SpentTransaction) -> bool {
    &&& tx.inputs@[0].previous_outpoint.transaction_id == spent.id
    &&& tx.inputs@[0].previous_outpoint.index == 0
    &&& tx.inputs@[0].sequence == u64::MAX
    &&& tx.inputs@[0].sig_op_count == 1
}

fn single_transfer(input: InputData, output: OutputData) -> (tx: TransactionData)
    ensures
        tx.version == 0,
        tx.inputs@ == seq![input],
        tx.outputs@ == seq![output],
        tx.lock_time == 0,
        tx.subnetwork_id@ == Seq::new(20, |i: int| 0u8),
        tx.gas == 0,
        tx.payload@.len() == 0,
{
    let subnetwork_id: [u8; 20] = [0u8; 20];
    assert(subnetwork_id@ =~= Seq::new(20, |i: int| 0u8));
    let mut inputs: Vec<InputData> = Vec::new();
    inputs.push(input);
    let mut outputs: Vec<OutputData> = Vec::new();
    outputs.push(output);
    TransactionData {
        version: tx_version(),
        inputs,
        outputs,
        lock_time: 0,
        subnetwork_id,
        gas: 0,
        payload: Vec::new(),
    }
}

/// The commit step: spends output 0 of `tx_to_spend`, with an empty signature script, into
/// one output that pays its value less the fee to the pay-to-script-hash address of the
/// redeem script.
pub fn commit_transaction(redeem_script: &[u8], tx_to_spend: &SpentTransaction, fee: u64) -> (tx:
    TransactionData)
    requires
        tx_to_spend.output_values@.len() > 0,
        fee <= tx_to_spend.output_values@[0],
    ensures
        single_transfer_shape(tx),
        spends_first_output(tx, *tx_to_spend),
        tx.inputs@[0].signature_script@.len() == 0,
        tx.outputs@[0].value == tx_to_spend.output_values@[0] - fee,
        tx.outputs@[0].script_public_key.version == 0,
        tx.outputs@[0].script_public_key.script@ == p2sh_script(redeem_script@),
{
    let p2sh = pay_to_script_hash_script(redeem_script);
    let previous_outpoint = OutpointData { transaction_id: tx_to_spend.id, index: 0 };
    let input = InputData {
        previous_outpoint,
        signature_script: Vec::new(),
        sequence: max_tx_in_sequence_num(),
        sig_op_count: 1,
    };
    let output = OutputData { value: tx_to_spend.output_values[0] - fee, script_public_key: p2sh };
    single_transfer(input, output)
}

/// The reveal step: spends output 0 of `tx_to_spend` (the commit) with a signature script
/// that pushes the redeem script, into one output that pays its value less the fee to
/// `owner_or_receiver`.
pub fn reveal_transaction(
    owner_or_receiver: ScriptPublicKeyData,
    redeem_script: Vec<u8>,
    tx_to_spend: &SpentTransaction,
    fee: u64,
) -> (tx: TransactionData)
    requires
        push_encoding(redeem_script@).len() <= MAX_SCRIPTS_SIZE,
        tx_to_spend.output_values@.len() > 0,
        fee <= tx_to_spend.output_values@[0],
    ensures
        single_transfer_shape(tx),
        spends_first_output(tx, *tx_to_spend),
        tx.inputs@[0].signature_script@ == push_encoding(redeem_script@),
        tx.outputs@[0].value == tx_to_spend.output_values@[0] - fee,
        tx.outputs@[0].script_public_key == owner_or_receiver,
{
    proof {
        crate::envelope::lemma_push_encoding_len(redeem_script@);
    }
    let ghost redeem = redeem_script@;
    let signature_script = pay_to_script_hash_signature_script(redeem_script, Vec::new()).unwrap();
    assert(signature_script@ =~= push_encoding(redeem));
    let previous_outpoint = OutpointData { transaction_id: tx_to_spend.id, index: 0 };
    let input = InputData {
        previous_outpoint,
        signature_script,
        sequence: max_tx_in_sequence_num(),
        sig_op_count: 1,
    };
    let output = OutputData {
        value: tx_to_spend.output_values[0] - fee,
        script_public_key: owner_or_receiver,
    };
    single_transfer(input, output)
}

} // verus!
