use krc20::detect::{
    detect_kasplex_header, detect_krc20_header, krc20_inscription_candidates, last_reading,
    window_find,
};
use krc20::transactions::{reveal_transaction, ScriptPublicKeyData, SpentTransaction};
use krc20::envelope::build_test_inscription_redeem_script;
use krc20::script::parse_script;

#[test]
fn window_find_returns_first_position() {
    assert_eq!(window_find(b"abcabc", b"bc"), Some(1));
    assert_eq!(window_find(b"abcabc", b"abc"), Some(0));
    assert_eq!(window_find(b"xxabc", b"abc"), Some(2));
}

#[test]
fn window_find_absent_or_too_long() {
    assert_eq!(window_find(b"abcabc", b"cb"), None);
    assert_eq!(window_find(b"ab", b"abc"), None);
    assert_eq!(window_find(b"", b"a"), None);
}

#[test]
fn krc20_header_both_spellings() {
    assert!(detect_krc20_header(b"{\"p\":\"krc-20\"}"));
    assert!(detect_krc20_header(b"xxKRC-20"));
    assert!(!detect_krc20_header(b"Krc-20"));
    assert!(!detect_krc20_header(b"krc20"));
    assert!(!detect_krc20_header(b""));
}

#[test]
fn kasplex_header_both_spellings() {
    assert!(detect_kasplex_header(b"..kasplex.."));
    assert!(detect_kasplex_header(b"KASPLEX"));
    assert!(!detect_kasplex_header(b"Kasplex"));
    assert!(!detect_kasplex_header(b"kaspa"));
}

#[test]
fn parse_script_reads_opcodes() {
    // OP_1, OP_DATA_2 aa bb, OP_EQUAL
    let ops = parse_script(&[0x51, 0x02, 0xaa, 0xbb, 0x87]);
    assert_eq!(ops.len(), 3);
    assert_eq!(ops[0].value, 0x51);
    assert!(ops[0].is_push);
    assert!(ops[0].is_empty);
    assert_eq!(ops[1].value, 0x02);
    assert_eq!(ops[1].data, vec![0xaa, 0xbb]);
    assert!(ops[1].is_push);
    assert!(!ops[1].is_empty);
    assert_eq!(ops[2].value, 0x87);
    assert!(!ops[2].is_push);
}

#[test]
fn parse_script_stops_at_malformed_push() {
    // OP_TRUE, then OP_DATA_3 with only one byte left
    let ops = parse_script(&[0x51, 0x03, 0x01]);
    assert_eq!(ops.len(), 1);
    assert_eq!(ops[0].value, 0x51);
}

#[test]
fn parse_script_pushdata1_and_classification() {
    let mut script = vec![0x4c, 80];
    script.extend(std::iter::repeat(7u8).take(80));
    script.push(0x80); // OP_LEFT, disabled
    script.push(0x65); // OP_VERIF, always illegal
    let ops = parse_script(&script);
    assert_eq!(ops.len(), 3);
    assert_eq!(ops[0].data.len(), 80);
    assert!(ops[1].is_disabled);
    assert!(!ops[1].always_illegal);
    assert!(ops[2].always_illegal);
}

fn signature_script_for(json: &[u8]) -> Vec<u8> {
    let envelope = build_test_inscription_redeem_script(json, &[2u8; 32]).unwrap();
    // the reveal signature script pushes the envelope
    let mut sig = Vec::new();
    if envelope.len() <= 255 {
        sig.push(0x4c);
        sig.push(envelope.len() as u8);
    } else {
        sig.push(0x4d);
        sig.extend_from_slice(&(envelope.len() as u16).to_le_bytes());
    }
    sig.extend_from_slice(&envelope);
    sig
}

#[test]
fn candidates_found_in_envelope() {
    let json = b"{\"p\":\"krc-20\",\"op\":\"mint\",\"tick\":\"test\"}";
    let sig = signature_script_for(json);
    let found = krc20_inscription_candidates(&sig);
    assert_eq!(found, vec![json.to_vec()]);
}

#[test]
fn no_candidates_without_marker() {
    // a push of data holding the KRC-20 header but no kasplex marker
    let mut sig = vec![0x0c];
    sig.extend_from_slice(b"aa krc-20 bb");
    assert!(krc20_inscription_candidates(&sig).is_empty());
}

#[test]
fn no_candidates_without_krc20_header() {
    let json = b"{\"p\":\"brc-20\"}";
    let sig = signature_script_for(json);
    assert!(krc20_inscription_candidates(&sig).is_empty());
}

#[test]
fn scan_stops_after_disabled_opcode() {
    let json = b"{\"p\":\"krc-20\"}";
    let envelope_push = signature_script_for(json);
    let mut sig = vec![0x80]; // OP_LEFT stops the scan
    sig.extend_from_slice(&envelope_push);
    assert!(krc20_inscription_candidates(&sig).is_empty());
    let mut sig2 = envelope_push.clone();
    sig2.push(0x80);
    sig2.extend_from_slice(&envelope_push);
    assert_eq!(krc20_inscription_candidates(&sig2).len(), 1);
}

#[test]
fn two_envelopes_give_two_candidates_in_order() {
    let a = b"{\"p\":\"krc-20\",\"op\":\"mint\"}";
    let b = b"{\"p\":\"krc-20\",\"op\":\"deploy\"}";
    let mut sig = signature_script_for(a);
    sig.extend_from_slice(&signature_script_for(b));
    assert_eq!(krc20_inscription_candidates(&sig), vec![a.to_vec(), b.to_vec()]);
}

#[test]
fn parse_script_pushdata2_and_pushdata4() {
    let mut script = vec![0x4d, 0x2c, 0x01];
    script.extend(std::iter::repeat(1u8).take(300));
    script.extend_from_slice(&[0x4e, 0x02, 0x00, 0x00, 0x00, 0xde, 0xad]);
    let ops = parse_script(&script);
    assert_eq!(ops.len(), 2);
    assert_eq!(ops[0].value, 0x4d);
    assert_eq!(ops[0].data.len(), 300);
    assert_eq!(ops[1].value, 0x4e);
    assert_eq!(ops[1].data, vec![0xde, 0xad]);
}

#[test]
fn parse_script_truncated_length_prefix() {
    assert!(parse_script(&[0x4d, 0x01]).is_empty());
    assert!(parse_script(&[0x4c]).is_empty());
    assert!(parse_script(&[0x4c, 0x03, 0x01, 0x02]).is_empty());
    assert!(parse_script(&[]).is_empty());
}

#[test]
fn parse_script_small_numbers_push_nothing() {
    let ops = parse_script(&[0x00, 0x4f, 0x55, 0x60, 0x61]);
    assert_eq!(ops.len(), 5);
    for op in &ops[..4] {
        assert!(op.is_push);
        assert!(op.is_empty);
    }
    assert!(!ops[4].is_push);
}

#[test]
fn reveal_signature_script_reads_back() {
    let json = b"{\"p\":\"krc-20\",\"op\":\"transfer\",\"tick\":\"test\",\"amt\":1000}";
    let envelope = build_test_inscription_redeem_script(json, &[7u8; 32]).unwrap();
    let spent = SpentTransaction { id: [1u8; 32], output_values: vec![100] };
    let owner = ScriptPublicKeyData { version: 0, script: vec![0x51] };
    let tx = reveal_transaction(owner, envelope, &spent, 10);
    let found = krc20_inscription_candidates(&tx.inputs[0].signature_script);
    assert_eq!(found, vec![json.to_vec()]);
}

#[test]
fn last_reading_takes_last_success() {
    assert_eq!(last_reading(vec![Some(1), None, Some(3), None]), Some(3));
    assert_eq!(last_reading::<u8>(vec![None, None]), None);
    assert_eq!(last_reading::<u8>(vec![]), None);
    assert_eq!(last_reading(vec![Some(1)]), Some(1));
}
