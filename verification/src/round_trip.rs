use vstd::prelude::*;

use crate::detect::{
    carried_inscription, option_as_seq, has_kasplex_header, has_krc20_header, inscription_candidates,
    inscriptions_from, kasplex_header_lc, lemma_header_detection_is_positional_free, pushed_data,
    second_to_last_push, stops_scan,
};
use crate::envelope::{
    inscription_envelope, lemma_envelope_has_marker, lemma_envelope_keeps_header,
    lemma_push_encoding_len, push_encoding, MAX_SCRIPTS_SIZE,
};
use crate::script::{decode_opcode, opcode_view, script_ops, OpcodeView};

verus! {

/// The opcode that the canonical push of `data` decodes to.
pub open spec fn push_opcode(data: Seq<u8>) -> OpcodeView {
    let n = data.len();
    if n == 1 && data[0] == 0x81 {
        opcode_view(0x4f, seq![])
    } else if n == 1 && 1 <= data[0] <= 16 {
        opcode_view((0x50 + data[0]) as u8, seq![])
    } else if n == 0 {
        opcode_view(0, seq![])
    } else if n <= 75 {
        opcode_view(n as u8, data)
    } else if n <= 255 {
        opcode_view(0x4c, data)
    } else if n <= 65535 {
        opcode_view(0x4d, data)
    } else {
        opcode_view(0x4e, data)
    }
}

proof fn lemma_le16(n: u32)
    requires
        n <= 65535,
    ensures
        (n % 256) + 256 * (n / 256) == n,
        n / 256 < 256,
{
    assert((n % 256) + 256 * (n / 256) == n && n / 256 < 256) by (bit_vector)
        requires
            n <= 65535,
    ;
}

proof fn lemma_le32(n: u32)
    ensures
        (n % 256) + 256 * ((n / 256) % 256) + 65536 * ((n / 65536) % 256) + 16777216 * ((n
            / 16777216) % 256) == n,
{
    assert((n % 256) + 256 * ((n / 256) % 256) + 65536 * ((n / 65536) % 256) + 16777216 * ((n
        / 16777216) % 256) == n) by (bit_vector);
}

/// A canonical push, followed by anything, decodes to its opcode with the rest left over.
pub proof fn lemma_decode_push(data: Seq<u8>, rest: Seq<u8>)
    requires
        data.len() < 0x1_0000_0000,
    ensures
        decode_opcode(push_encoding(data) + rest) == Some(Some((push_opcode(data), rest.len()))),
{
    let s = push_encoding(data) + rest;
    let n = data.len() as int;
    lemma_push_encoding_len(data);
    if n == 1 && data[0] == 0x81 {
        assert(s[0] == 0x4f);
        assert(s.subrange(1, 1) =~= Seq::<u8>::empty());
    } else if n == 1 && 1 <= data[0] <= 16 {
        assert(s[0] == (0x50 + data[0]) as u8);
        assert(s.subrange(1, 1) =~= Seq::<u8>::empty());
    } else if n == 0 {
        assert(s[0] == 0);
        assert(s.subrange(1, 1) =~= Seq::<u8>::empty());
    } else if n <= 75 {
        assert(s[0] == n as u8);
        assert(s.subrange(1, 1 + n) =~= data);
    } else if n <= 255 {
        assert(s[0] == 0x4c);
        assert(s[1] == n as u8);
        assert(s.subrange(2, 2 + n) =~= data);
    } else if n <= 65535 {
        lemma_le16(n as u32);
        assert(s[0] == 0x4d);
        assert(s[1] + 256 * s[2] == n);
        assert(s.subrange(3, 3 + n) =~= data);
    } else {
        lemma_le32(n as u32);
        assert(s[0] == 0x4e);
        assert(s[1] + 256 * s[2] + 65536 * s[3] + 16777216 * s[4] == n);
        assert(s.subrange(5, 5 + n) =~= data);
    }
}

/// An opcode that carries no data, followed by anything, decodes to itself with the rest
/// left over.
pub proof fn lemma_decode_bare(v: u8, rest: Seq<u8>)
    requires
        !(0x01 <= v <= 0x4e),
    ensures
        decode_opcode(seq![v] + rest) == Some(Some((opcode_view(v, seq![]), rest.len()))),
{
    let s = seq![v] + rest;
    assert(s[0] == v);
    assert(s.subrange(1, 1) =~= Seq::<u8>::empty());
}

/// Where the head of a script decodes to one opcode leaving exactly the rest, the opcodes of
/// the script are that opcode followed by the opcodes of the rest.
pub proof fn lemma_script_ops_step(head: Seq<u8>, rest: Seq<u8>, op: OpcodeView)
    requires
        head.len() > 0,
        decode_opcode(head + rest) == Some(Some((op, rest.len()))),
    ensures
        script_ops(head + rest) == seq![op] + script_ops(rest),
{
    let s = head + rest;
    assert(s.subrange(s.len() - rest.len(), s.len() as int) =~= rest);
}

/// The opcodes of an envelope: the owner's key push, `OP_CHECKSIG OP_FALSE OP_IF`, the
/// marker push, the separator push, the inscription push and `OP_ENDIF`.
pub proof fn lemma_envelope_ops(address_payload: Seq<u8>, inscription: Seq<u8>)
    requires
        address_payload.len() < 0x1_0000_0000,
        inscription.len() < 0x1_0000_0000,
    ensures
        script_ops(inscription_envelope(address_payload, inscription)) == seq![
            push_opcode(address_payload),
            opcode_view(0xac, seq![]),
            opcode_view(0x00, seq![]),
            opcode_view(0x63, seq![]),
            push_opcode(kasplex_header_lc()),
            push_opcode(seq![0x00u8]),
            push_opcode(inscription),
            opcode_view(0x68, seq![]),
        ],
{
    let empty = Seq::<u8>::empty();
    let s8 = seq![0x68u8];
    assert(s8 =~= seq![0x68u8] + empty);
    lemma_decode_bare(0x68, empty);
    lemma_script_ops_step(seq![0x68u8], empty, opcode_view(0x68, seq![]));
    let s7 = push_encoding(inscription) + s8;
    lemma_push_encoding_len(inscription);
    lemma_decode_push(inscription, s8);
    lemma_script_ops_step(push_encoding(inscription), s8, push_opcode(inscription));
    let s6 = push_encoding(seq![0x00u8]) + s7;
    lemma_push_encoding_len(seq![0x00u8]);
    lemma_decode_push(seq![0x00u8], s7);
    lemma_script_ops_step(push_encoding(seq![0x00u8]), s7, push_opcode(seq![0x00u8]));
    let s5 = push_encoding(kasplex_header_lc()) + s6;
    lemma_push_encoding_len(kasplex_header_lc());
    lemma_decode_push(kasplex_header_lc(), s6);
    lemma_script_ops_step(push_encoding(kasplex_header_lc()), s6, push_opcode(kasplex_header_lc()));
    let s4 = seq![0x63u8] + s5;
    lemma_decode_bare(0x63, s5);
    lemma_script_ops_step(seq![0x63u8], s5, opcode_view(0x63, seq![]));
    let s3 = seq![0x00u8] + s4;
    lemma_decode_bare(0x00, s4);
    lemma_script_ops_step(seq![0x00u8], s4, opcode_view(0x00, seq![]));
    let s2 = seq![0xacu8] + s3;
    lemma_decode_bare(0xac, s3);
    lemma_script_ops_step(seq![0xacu8], s3, opcode_view(0xac, seq![]));
    let s1 = push_encoding(address_payload) + s2;
    lemma_push_encoding_len(address_payload);
    lemma_decode_push(address_payload, s2);
    lemma_script_ops_step(push_encoding(address_payload), s2, push_opcode(address_payload));
    assert(inscription_envelope(address_payload, inscription) =~= s1);
    assert(script_ops(empty) =~= Seq::<OpcodeView>::empty());
}

/// What the envelope writes, the scan reads back: a signature script that pushes the
/// envelope around an inscription holding the `KRC-20` header (as the reveal transaction's
/// input does) yields that inscription as its single candidate.
pub proof fn lemma_inscription_round_trip(address_payload: Seq<u8>, inscription: Seq<u8>)
    requires
        has_krc20_header(inscription),
        inscription_envelope(address_payload, inscription).len() <= MAX_SCRIPTS_SIZE,
    ensures
        inscription_candidates(push_encoding(inscription_envelope(address_payload, inscription)))
            == seq![inscription],
{
    let e = inscription_envelope(address_payload, inscription);
    lemma_push_encoding_len(address_payload);
    lemma_push_encoding_len(inscription);
    lemma_push_encoding_len(kasplex_header_lc());
    lemma_push_encoding_len(seq![0x00u8]);
    assert(inscription.len() >= 6) by {
        let h1 = crate::detect::krc20_header_uc();
        let h2 = crate::detect::krc20_header_lc();
        if crate::detect::contains_bytes(inscription, h1) {
            let i = choose|i: int| crate::detect::occurs_at(inscription, h1, i);
        } else {
            let i = choose|i: int| crate::detect::occurs_at(inscription, h2, i);
        }
    }
    // the inner opcodes
    lemma_envelope_ops(address_payload, inscription);
    let inner = script_ops(e);
    assert(inner[inner.len() - 2] == push_opcode(inscription));
    assert(pushed_data(push_opcode(inscription)) == Some(inscription));
    assert(second_to_last_push(e) == Some(inscription));
    // the outer opcode
    let sig = push_encoding(e);
    let empty = Seq::<u8>::empty();
    assert(sig + empty =~= sig);
    lemma_push_encoding_len(e);
    lemma_decode_push(e, empty);
    lemma_script_ops_step(sig, empty, push_opcode(e));
    assert(script_ops(empty) =~= Seq::<OpcodeView>::empty());
    let outer = script_ops(sig);
    assert(outer =~= seq![push_opcode(e)]);
    let op = push_opcode(e);
    assert(op.data == e);
    assert(!op.is_empty && op.is_push);
    assert(!stops_scan(op));
    lemma_envelope_keeps_header(address_payload, inscription);
    assert(carried_inscription(op) == Some(inscription));
    // the marker
    lemma_envelope_has_marker(address_payload, inscription);
    let head = sig.subrange(0, sig.len() - e.len());
    assert(sig =~= head + e);
    lemma_header_detection_is_positional_free(e, head);
    assert(has_kasplex_header(sig));
    assert(inscriptions_from(outer, 1) =~= Seq::<Seq<u8>>::empty());
    assert(inscriptions_from(outer, 0) =~= seq![inscription]);
}

proof fn lemma_inscriptions_shift(op: OpcodeView, ops: Seq<OpcodeView>, i: int)
    requires
        i >= 0,
    ensures
        inscriptions_from(seq![op] + ops, i + 1) == inscriptions_from(ops, i),
    decreases ops.len() - i,
{
    let all = seq![op] + ops;
    if i < ops.len() {
        assert(all[i + 1] == ops[i]);
        lemma_inscriptions_shift(op, ops, i + 1);
    }
}

/// The scan over an opcode followed by more opcodes: what that opcode carries, then, unless
/// it stops the scan, what the rest carries.
pub proof fn lemma_inscriptions_cons(op: OpcodeView, ops: Seq<OpcodeView>)
    ensures
        inscriptions_from(seq![op] + ops, 0) == if stops_scan(op) {
            option_as_seq(carried_inscription(op))
        } else {
            option_as_seq(carried_inscription(op)) + inscriptions_from(ops, 0)
        },
{
    let all = seq![op] + ops;
    assert(all[0] == op);
    lemma_inscriptions_shift(op, ops, 0);
}

/// A push in front of a script that holds the marker does not end the scan: the candidates
/// are what the push itself carries followed by the candidates of the rest, and a push whose
/// data lack the `KRC-20` header (a signature, say) adds nothing.
pub proof fn lemma_push_before_scan(pushed: Seq<u8>, rest: Seq<u8>)
    requires
        pushed.len() < 0x1_0000_0000,
        has_kasplex_header(rest),
    ensures
        inscription_candidates(push_encoding(pushed) + rest) == option_as_seq(
            carried_inscription(push_opcode(pushed)),
        ) + inscription_candidates(rest),
        !has_krc20_header(pushed) ==> inscription_candidates(push_encoding(pushed) + rest)
            == inscription_candidates(rest),
{
    let head = push_encoding(pushed);
    lemma_push_encoding_len(pushed);
    lemma_decode_push(pushed, rest);
    lemma_script_ops_step(head, rest, push_opcode(pushed));
    let op = push_opcode(pushed);
    assert(!stops_scan(op));
    lemma_header_detection_is_positional_free(rest, head);
    assert(has_kasplex_header(head + rest));
    lemma_inscriptions_cons(op, script_ops(rest));
    if !has_krc20_header(pushed) {
        assert(carried_inscription(op) is None);
        assert(option_as_seq(carried_inscription(op)) + inscription_candidates(rest)
            =~= inscription_candidates(rest));
    }
}

/// The round trip with a signature in front, as the reveal input carries it: a signature
/// push without the `KRC-20` header followed by the push of the envelope yields the
/// inscription as the single candidate.
pub proof fn lemma_signed_inscription_round_trip(
    signature: Seq<u8>,
    address_payload: Seq<u8>,
    inscription: Seq<u8>,
)
    requires
        signature.len() < 0x1_0000_0000,
        !has_krc20_header(signature),
        has_krc20_header(inscription),
        inscription_envelope(address_payload, inscription).len() <= MAX_SCRIPTS_SIZE,
    ensures
        inscription_candidates(
            push_encoding(signature) + push_encoding(
                inscription_envelope(address_payload, inscription),
            ),
        ) == seq![inscription],
{
    let b = push_encoding(inscription_envelope(address_payload, inscription));
    lemma_inscription_round_trip(address_payload, inscription);
    assert(inscription_candidates(b).len() == 1);
    if !has_kasplex_header(b) {
        assert(inscription_candidates(b).len() == 0);
    }
    lemma_push_before_scan(signature, b);
}

} // verus!
