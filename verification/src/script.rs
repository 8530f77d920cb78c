use vstd::prelude::*;

use kaspa_consensus_core::hashing::sighash::SigHashReusedValuesUnsync;
use kaspa_consensus_core::tx::PopulatedTransaction;
use kaspa_txscript::opcodes::{deserialize_next_opcode, OpCodeMetadata};
use kaspa_txscript_errors::TxScriptError;

verus! {

#[verifier::external_type_specification]
#[verifier::external_body]
pub struct ExTxScriptError(TxScriptError);

/// The highest opcode that only pushes data (`OP_16`).
pub const NO_COST_OPCODE: u8 = 0x60;

/// One opcode of a script, with the data it pushes and its classification.
pub struct Opcode {
    pub value: u8,
    pub data: Vec<u8>,
    pub is_empty: bool,
    pub is_push: bool,
    pub is_disabled: bool,
    pub always_illegal: bool,
}

/// The mathematical value of an [`Opcode`].
pub struct OpcodeView {
    pub value: u8,
    pub data: Seq<u8>,
    pub is_empty: bool,
    pub is_push: bool,
    pub is_disabled: bool,
    pub always_illegal: bool,
}

impl View for Opcode {
    type V = OpcodeView;

    open spec fn view(&self) -> OpcodeView {
        OpcodeView {
            value: self.value,
            data: self.data@,
            is_empty: self.is_empty,
            is_push: self.is_push,
            is_disabled: self.is_disabled,
            always_illegal: self.always_illegal,
        }
    }
}

/// Opcodes that the script engine refuses to run (`OP_LEFT`, `OP_RIGHT`, `OP_2MUL`,
/// `OP_2DIV`, `OP_LSHIFT`, `OP_RSHIFT`).
pub open spec fn is_disabled_code(value: u8) -> bool {
    value == 0x80 || value == 0x81 || value == 0x8d || value == 0x8e || value == 0x98 || value
        == 0x99
}

/// Opcodes that are illegal wherever they stand (`OP_VERIF`, `OP_VERNOTIF`).
pub open spec fn is_always_illegal_code(value: u8) -> bool {
    value == 0x65 || value == 0x66
}

/// The opcode with value `value` that carries `data`, classified as the opcode table does.
pub open spec fn opcode_view(value: u8, data: Seq<u8>) -> OpcodeView {
    OpcodeView {
        value,
        data,
        is_empty: data.len() == 0,
        is_push: value <= NO_COST_OPCODE,
        is_disabled: is_disabled_code(value),
        always_illegal: is_always_illegal_code(value),
    }
}

/// The opcode `value` at the head of `script`, with `header` length bytes after it and `n`
/// data bytes after those; malformed where the script is too short.
pub open spec fn decoded_with_data(value: u8, script: Seq<u8>, header: nat, n: nat) -> Option<
    Option<(OpcodeView, nat)>,
> {
    if script.len() < 1 + header + n {
        Some(None)
    } else {
        Some(
            Some(
                (
                    opcode_view(value, script.subrange((1 + header) as int, (1 + header + n) as int)),
                    (script.len() - 1 - header - n) as nat,
                ),
            ),
        )
    }
}

/// Decoding the first opcode of a script: `None` at the end of the script, `Some(None)` for a
/// malformed opcode, else the opcode and the number of bytes left after it. `OP_DATA_1` to
/// `OP_DATA_75` carry that many bytes; `OP_PUSHDATA1`, `OP_PUSHDATA2` and `OP_PUSHDATA4` carry
/// as many as their one-, two- or four-byte little-endian length says; every other opcode is
/// one byte and carries nothing.
pub open spec fn decode_opcode(script: Seq<u8>) -> Option<Option<(OpcodeView, nat)>> {
    if script.len() == 0 {
        None
    } else {
        let v = script[0];
        if 0x01 <= v <= 0x4b {
            decoded_with_data(v, script, 0, v as nat)
        } else if v == 0x4c {
            if script.len() < 2 {
                Some(None)
            } else {
                decoded_with_data(v, script, 1, script[1] as nat)
            }
        } else if v == 0x4d {
            if script.len() < 3 {
                Some(None)
            } else {
                decoded_with_data(v, script, 2, (script[1] + 256 * script[2]) as nat)
            }
        } else if v == 0x4e {
            if script.len() < 5 {
                Some(None)
            } else {
                decoded_with_data(
                    v,
                    script,
                    4,
                    (script[1] + 256 * script[2] + 65536 * script[3] + 16777216 * script[4]) as nat,
                )
            }
        } else {
            decoded_with_data(v, script, 0, 0)
        }
    }
}

/// The view of what the opcode decoder hands back.
pub open spec fn decoded_view(r: Option<Result<(Opcode, usize), TxScriptError>>) -> Option<
    Option<(OpcodeView, nat)>,
> {
    match r {
        None => None,
        Some(Err(_)) => Some(None),
        Some(Ok((op, rest))) => Some(Some((op@, rest as nat))),
    }
}

/// Decodes the first opcode of `script` with `kaspa_txscript::opcodes::deserialize_next_opcode`
/// and reads the opcode's metadata (`value`, `get_data`, `is_empty`, `is_push_opcode`,
/// `is_disabled`, `always_illegal`) into plain values, with the number of bytes left.
///
/// Trusted: the result is `decode_opcode` of the script, the opcode table of the crate's
/// source (its lengths, and the `is_push_opcode`, `is_disabled` and `always_illegal`
/// predicates) written out; which error a malformed opcode gives is not stated.
#[verifier::external_body]
fn decode_next_opcode(script: &[u8]) -> (r: Option<Result<(Opcode, usize), TxScriptError>>)
    ensures
        decoded_view(r) == decode_opcode(script@),
{
    let mut it = script.iter();
    match deserialize_next_opcode::<_, PopulatedTransaction, SigHashReusedValuesUnsync>(&mut it) {
        None => None,
        Some(Err(e)) => Some(Err(e)),
        Some(Ok(op)) => Some(Ok((Opcode {
            value: op.value(),
            data: op.get_data().to_vec(),
            is_empty: op.is_empty(),
            is_push: op.is_push_opcode(),
            is_disabled: op.is_disabled(),
            always_illegal: op.always_illegal(),
        }, it.as_slice().len()))),
    }
}

/// The opcodes of a script, in order, up to the end of the script or the first malformed
/// opcode, whichever comes first.
pub open spec fn script_ops(script: Seq<u8>) -> Seq<OpcodeView>
    decreases script.len(),
{
    match decode_opcode(script) {
        Some(Some((op, rest))) => if rest < script.len() {
            seq![op] + script_ops(script.subrange(script.len() - rest, script.len() as int))
        } else {
            seq![]
        },
        _ => seq![],
    }
}

/// Decodes the opcodes of `script`, in order, stopping at the end or at the first malformed
/// opcode.
pub fn parse_script(script: &[u8]) -> (ops: Vec<Opcode>)
    ensures
        ops@.map_values(|op: Opcode| op@) == script_ops(script@),
{
    let len = script.len();
    let mut pos: usize = 0;
    let mut ops: Vec<Opcode> = Vec::new();
    assert(script@.subrange(0, len as int) =~= script@);
    assert(ops@.map_values(|op: Opcode| op@) =~= Seq::<OpcodeView>::empty());
    while pos < len
        invariant
            len == script@.len(),
            pos <= len,
            ops@.map_values(|op: Opcode| op@) + script_ops(script@.subrange(pos as int, len as int))
                == script_ops(script@),
        decreases len - pos,
    {
        let rest_script = &script[pos..len];
        let ghost before = ops@.map_values(|op: Opcode| op@);
        match decode_next_opcode(rest_script) {
            Some(Ok((op, rest))) => {
                assert(script@.subrange(pos as int, len as int).subrange(
                    rest_script@.len() - rest,
                    rest_script@.len() as int,
                ) =~= script@.subrange(len - rest, len as int));
                ops.push(op);
                assert(ops@.map_values(|op: Opcode| op@) =~= before.push(op@));
                pos = len - rest;
            },
            _ => {
                return ops;
            },
        }
    }
    assert(script@.subrange(pos as int, len as int) =~= Seq::<u8>::empty());
    ops
}

} // verus!
