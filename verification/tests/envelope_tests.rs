use krc20::envelope::{bytes_as_string_format, build_test_inscription_redeem_script};
use krc20::transactions::{commit_transaction, reveal_transaction, ScriptPublicKeyData, SpentTransaction};

#[test]
fn envelope_bytes() {
    let payload = [9u8; 32];
    let v = build_test_inscription_redeem_script(b"{}", &payload).unwrap();
    let mut expected = vec![0x20];
    expected.extend_from_slice(&payload);
    expected.extend_from_slice(&[0xac, 0x00, 0x63, 0x07]);
    expected.extend_from_slice(b"kasplex");
    expected.extend_from_slice(&[0x01, 0x00, 0x02]);
    expected.extend_from_slice(b"{}");
    expected.push(0x68);
    assert_eq!(v, expected);
}

#[test]
fn envelope_small_number_and_long_pushes() {
    // a one-byte redeem script that is a small number is pushed as OP_5
    let v = build_test_inscription_redeem_script(&[5], &[]).unwrap();
    assert_eq!(v[0], 0x00);
    assert_eq!(&v[v.len() - 2..], &[0x55, 0x68]);
    let long = vec![1u8; 300];
    let v = build_test_inscription_redeem_script(&long, &[]).unwrap();
    let tail = &v[v.len() - 304..];
    assert_eq!(&tail[..3], &[0x4d, 0x2c, 0x01]);
}

#[test]
fn envelope_too_large() {
    let big = vec![0u8; 999_990];
    assert!(build_test_inscription_redeem_script(&big, &[]).is_err());
    let ok = vec![0u8; 999_970];
    assert!(build_test_inscription_redeem_script(&ok, &[]).is_ok());
}

#[test]
fn escaping() {
    assert_eq!(bytes_as_string_format(b"abc"), "abc");
    assert_eq!(bytes_as_string_format(b"a\n\t\r"), "a\\n\\t\\r");
    assert_eq!(bytes_as_string_format(b"'\"\\"), "\\'\\\"\\\\");
    assert_eq!(bytes_as_string_format(&[0x00, 0x9d, 0xff, 0x7f]), "\\x00\\x9d\\xff\\x7f");
    assert_eq!(bytes_as_string_format(&[]), "");
}

#[test]
fn escaping_concatenates() {
    let a = b"x\x01";
    let b = b"\"y";
    let mut ab = a.to_vec();
    ab.extend_from_slice(b);
    assert_eq!(
        bytes_as_string_format(&ab),
        bytes_as_string_format(a) + &bytes_as_string_format(b)
    );
}

#[test]
fn commit_transaction_fields() {
    let spent = SpentTransaction { id: [3u8; 32], output_values: vec![5_000, 7] };
    let tx = commit_transaction(b"redeem", &spent, 1_000);
    assert_eq!(tx.version, 0);
    assert_eq!(tx.inputs.len(), 1);
    assert_eq!(tx.inputs[0].previous_outpoint.transaction_id, [3u8; 32]);
    assert_eq!(tx.inputs[0].previous_outpoint.index, 0);
    assert!(tx.inputs[0].signature_script.is_empty());
    assert_eq!(tx.inputs[0].sequence, u64::MAX);
    assert_eq!(tx.inputs[0].sig_op_count, 1);
    assert_eq!(tx.outputs.len(), 1);
    assert_eq!(tx.outputs[0].value, 4_000);
    let spk = &tx.outputs[0].script_public_key;
    assert_eq!(spk.version, 0);
    assert_eq!(spk.script.len(), 35);
    assert_eq!((spk.script[0], spk.script[1], spk.script[34]), (0xaa, 0x20, 0x87));
    // the hash depends on the redeem script
    let other = commit_transaction(b"other", &spent, 1_000);
    assert_ne!(other.outputs[0].script_public_key.script, spk.script);
    assert_eq!(tx.lock_time, 0);
    assert_eq!(tx.gas, 0);
    assert_eq!(tx.subnetwork_id, [0u8; 20]);
    assert!(tx.payload.is_empty());
}

#[test]
fn reveal_transaction_fields() {
    let spent = SpentTransaction { id: [4u8; 32], output_values: vec![10_000] };
    let owner = ScriptPublicKeyData { version: 0, script: vec![0x20, 1, 2, 0xac] };
    let tx = reveal_transaction(owner, b"redeem".to_vec(), &spent, 10_000);
    assert_eq!(tx.inputs[0].signature_script, b"\x06redeem".to_vec());
    assert_eq!(tx.inputs[0].previous_outpoint.transaction_id, [4u8; 32]);
    assert_eq!(tx.outputs[0].value, 0);
    assert_eq!(tx.outputs[0].script_public_key.script, vec![0x20, 1, 2, 0xac]);
}
