use vstd::prelude::*;

use kaspa_txscript::script_builder::{ScriptBuilder, ScriptBuilderError};

use crate::constants::KASPLEX_HEADER;
use vstd::utf8::{encode_utf8, is_ascii_chars, valid_utf8};
use crate::detect::{
    contains_bytes, has_kasplex_header, has_krc20_header, kasplex_header_lc, krc20_header_lc,
    krc20_header_uc, lemma_header_detection_is_positional_free, occurs_at,
};

verus! {

#[verifier::external_type_specification]
#[verifier::external_body]
pub struct ExScriptBuilder(ScriptBuilder);

#[verifier::external_type_specification]
#[verifier::external_body]
pub struct ExScriptBuilderError(ScriptBuilderError);

/// The largest script that the script builder produces, in bytes.
pub const MAX_SCRIPTS_SIZE: usize = 1_000_000;

/// The largest element that the script builder pushes, in bytes.
pub const MAX_SCRIPT_ELEMENT_SIZE: usize = 1_000_000;

/// The script that a script builder holds so far.
pub uninterp spec fn builder_script(b: ScriptBuilder) -> Seq<u8>;

/// The canonical push of `data`: `OP_1NEGATE` or `OP_1`..`OP_16` for a single byte that is
/// such a number, `OP_0` for no data, else `OP_DATA_n`, `OP_PUSHDATA1`, `OP_PUSHDATA2` or
/// `OP_PUSHDATA4` (with a little-endian length) by the length, followed by the data.
pub open spec fn push_encoding(data: Seq<u8>) -> Seq<u8> {
    let n = data.len();
    if n == 1 && data[0] == 0x81 {
        seq![0x4fu8]
    } else if n == 1 && 1 <= data[0] <= 16 {
        seq![(0x50 + data[0]) as u8]
    } else if n == 0 {
        seq![0x00u8]
    } else if n <= 75 {
        seq![n as u8] + data
    } else if n <= 255 {
        seq![0x4cu8, n as u8] + data
    } else if n <= 65535 {
        seq![0x4du8, (n % 256) as u8, (n / 256) as u8] + data
    } else {
        seq![
            0x4eu8,
            (n % 256) as u8,
            ((n / 256) % 256) as u8,
            ((n / 65536) % 256) as u8,
            ((n / 16777216) % 256) as u8,
        ] + data
    }
}

/// `ScriptBuilder::new` from kaspa-txscript.
///
/// Trusted: a new builder holds the empty script.
#[verifier::external_body]
fn builder_new() -> (b: ScriptBuilder)
    ensures
        builder_script(b) == Seq::<u8>::empty(),
{
    ScriptBuilder::new()
}

/// `ScriptBuilder::add_op` from kaspa-txscript.
///
/// Trusted: the opcode is appended when the script is shorter than the size limit;
/// otherwise the call fails and the script is left as it was.
#[verifier::external_body]
fn builder_add_op(b: &mut ScriptBuilder, opcode: u8) -> (r: Result<(), ScriptBuilderError>)
    ensures
        r is Ok <==> builder_script(*old(b)).len() < MAX_SCRIPTS_SIZE,
        r is Ok ==> builder_script(*final(b)) == builder_script(*old(b)).push(opcode),
        r is Err ==> builder_script(*final(b)) == builder_script(*old(b)),
{
    match b.add_op(opcode) {
        Ok(_) => Ok(()),
        Err(e) => Err(e),
    }
}

/// `ScriptBuilder::add_data` from kaspa-txscript.
///
/// Trusted: the canonical push of the data is appended when the script stays within the
/// size limit and the data within the element limit; otherwise the call fails and the
/// script is left as it was.
#[verifier::external_body]
fn builder_add_data(b: &mut ScriptBuilder, data: &[u8]) -> (r: Result<(), ScriptBuilderError>)
    ensures
        r is Ok <==> (builder_script(*old(b)).len() + push_encoding(data@).len()
            <= MAX_SCRIPTS_SIZE && data@.len() <= MAX_SCRIPT_ELEMENT_SIZE),
        r is Ok ==> builder_script(*final(b)) == builder_script(*old(b)) + push_encoding(data@),
        r is Err ==> builder_script(*final(b)) == builder_script(*old(b)),
{
    match b.add_data(data) {
        Ok(_) => Ok(()),
        Err(e) => Err(e),
    }
}

/// `ScriptBuilder::drain` from kaspa-txscript.
///
/// Trusted: hands out the script built so far and leaves the builder empty.
#[verifier::external_body]
fn builder_drain(b: &mut ScriptBuilder) -> (r: Vec<u8>)
    ensures
        r@ == builder_script(*old(b)),
        builder_script(*final(b)) == Seq::<u8>::empty(),
{
    b.drain()
}

/// The inscription envelope: a signature check against the owner's key, then a branch that
/// never runs (`OP_FALSE OP_IF .. OP_ENDIF`) holding the `kasplex` marker, a zero
/// separator byte and the inscribed script.
pub open spec fn inscription_envelope(address_payload: Seq<u8>, redeem_script: Seq<u8>) -> Seq<u8> {
    push_encoding(address_payload) + seq![0xacu8, 0x00u8, 0x63u8] + push_encoding(
        kasplex_header_lc(),
    ) + push_encoding(seq![0x00u8]) + push_encoding(redeem_script) + seq![0x68u8]
}

/// A canonical push is at least one byte long and no shorter than the data it pushes.
pub proof fn lemma_push_encoding_len(data: Seq<u8>)
    ensures
        push_encoding(data).len() >= data.len(),
        push_encoding(data).len() >= 1,
{
}

/// Builds the inscription envelope around `redeem_script` for the owner whose address
/// payload (public key) is given. It fails exactly when the envelope would exceed the
/// script size limit.
pub fn build_test_inscription_redeem_script(redeem_script: &[u8], address_payload: &[u8]) -> (r:
    Result<Vec<u8>, ScriptBuilderError>)
    ensures
        r is Ok <==> inscription_envelope(address_payload@, redeem_script@).len()
            <= MAX_SCRIPTS_SIZE,
        r matches Ok(v) ==> v@ == inscription_envelope(address_payload@, redeem_script@),
{
    let namespace: [u8; 7] = KASPLEX_HEADER;
    let separator: [u8; 1] = [0u8];
    assert(namespace@ == kasplex_header_lc());
    assert(separator@ == seq![0x00u8]);
    let ghost p1 = push_encoding(address_payload@);
    let ghost p2 = push_encoding(kasplex_header_lc());
    let ghost p3 = push_encoding(seq![0x00u8]);
    let ghost p4 = push_encoding(redeem_script@);
    proof {
        lemma_push_encoding_len(address_payload@);
        lemma_push_encoding_len(kasplex_header_lc());
        lemma_push_encoding_len(seq![0x00u8]);
        lemma_push_encoding_len(redeem_script@);
    }
    let ghost total = inscription_envelope(address_payload@, redeem_script@);
    assert(total.len() == p1.len() + 3 + p2.len() + p3.len() + p4.len() + 1);
    let mut b = builder_new();
    if let Err(e) = builder_add_data(&mut b, address_payload) {
        return Err(e);
    }
    if let Err(e) = builder_add_op(&mut b, 0xac) {
        return Err(e);
    }
    if let Err(e) = builder_add_op(&mut b, 0x00) {
        return Err(e);
    }
    if let Err(e) = builder_add_op(&mut b, 0x63) {
        return Err(e);
    }
    if let Err(e) = builder_add_data(&mut b, namespace.as_slice()) {
        return Err(e);
    }
    if let Err(e) = builder_add_data(&mut b, separator.as_slice()) {
        return Err(e);
    }
    if let Err(e) = builder_add_data(&mut b, redeem_script) {
        return Err(e);
    }
    if let Err(e) = builder_add_op(&mut b, 0x68) {
        return Err(e);
    }
    let v = builder_drain(&mut b);
    assert(v@ =~= total);
    Ok(v)
}

#[verifier::external_type_specification]
#[verifier::external_body]
pub struct ExUtf8Error(core::str::Utf8Error);

/// The lower-case hexadecimal digit of a value below sixteen.
pub open spec fn hex_digit(d: u8) -> u8 {
    if d < 10 {
        (0x30 + d) as u8
    } else {
        (0x61 + d - 10) as u8
    }
}

/// The ASCII escape of a byte: `\t`, `\r`, `\n`, `\'`, `\"` and `\\` for those bytes, the
/// byte itself for the other printable ASCII bytes, and `\xNN` in lower-case hexadecimal
/// for every other byte.
pub open spec fn escaped_byte(b: u8) -> Seq<u8> {
    if b == 0x09 {
        seq![0x5cu8, 0x74u8]
    } else if b == 0x0d {
        seq![0x5cu8, 0x72u8]
    } else if b == 0x0a {
        seq![0x5cu8, 0x6eu8]
    } else if b == 0x27 || b == 0x22 || b == 0x5c {
        seq![0x5cu8, b]
    } else if 0x20 <= b <= 0x7e {
        seq![b]
    } else {
        seq![0x5cu8, 0x78u8, hex_digit(b / 16), hex_digit(b % 16)]
    }
}

/// The characters of the escape of a byte.
pub open spec fn escaped_chars(b: u8) -> Seq<char> {
    escaped_byte(b).map_values(|x: u8| x as char)
}

/// The escapes of all the bytes, one after another, as text.
pub open spec fn escaped_text(bytes: Seq<u8>) -> Seq<char>
    decreases bytes.len(),
{
    if bytes.len() == 0 {
        seq![]
    } else {
        escaped_text(bytes.drop_last()) + escaped_chars(bytes.last())
    }
}

/// `core::ascii::escape_default`, collected into bytes.
///
/// Trusted: the bytes are the escape that the function's documentation gives for the byte.
#[verifier::external_body]
fn escape_default(b: u8) -> (r: Vec<u8>)
    ensures
        r@ == escaped_byte(b),
{
    core::ascii::escape_default(b).collect()
}

/// `core::str::from_utf8`.
///
/// Trusted: succeeds exactly on valid UTF-8, with a string whose encoding is the bytes.
#[verifier::external_body]
fn utf8_str(v: &[u8]) -> (r: Result<&str, core::str::Utf8Error>)
    ensures
        r is Ok <==> valid_utf8(v@),
        r matches Ok(s) ==> encode_utf8(s@) == v@,
{
    core::str::from_utf8(v)
}

/// The bytes read as text with every byte that is not printable ASCII escaped.
pub fn bytes_as_string_format(bs: &[u8]) -> (visible: String)
    ensures
        visible@ == escaped_text(bs@),
{
    let mut visible = String::new();
    let n = bs.len();
    let mut i: usize = 0;
    while i < n
        invariant
            n == bs@.len(),
            i <= n,
            visible@ == escaped_text(bs@.take(i as int)),
        decreases n - i,
    {
        let b = bs[i];
        let part: Vec<u8> = escape_default(b);
        let ghost c = escaped_chars(b);
        proof {
            assert(is_ascii_chars(c));
            vstd::utf8::is_ascii_chars_encode_utf8(c);
            assert(encode_utf8(c) =~= part@);
            vstd::utf8::encode_utf8_valid_utf8(c);
        }
        let s = utf8_str(part.as_slice()).unwrap();
        proof {
            vstd::utf8::encode_utf8_decode_utf8(c);
            vstd::utf8::encode_utf8_decode_utf8(s@);
        }
        visible.append(s);
        assert(bs@.take(i + 1).drop_last() =~= bs@.take(i as int));
        i = i + 1;
    }
    assert(bs@.take(n as int) =~= bs@);
    visible
}

proof fn lemma_marker_push()
    ensures
        push_encoding(kasplex_header_lc()) == seq![7u8] + kasplex_header_lc(),
{
    assert(push_encoding(kasplex_header_lc()) =~= seq![7u8] + kasplex_header_lc());
}

/// The envelope carries the `kasplex` marker, so the scan of a script that holds it does
/// not stop at the marker check.
pub proof fn lemma_envelope_has_marker(address_payload: Seq<u8>, redeem_script: Seq<u8>)
    ensures
        has_kasplex_header(inscription_envelope(address_payload, redeem_script)),
{
    let marker = kasplex_header_lc();
    lemma_marker_push();
    let before = push_encoding(address_payload) + seq![0xacu8, 0x00u8, 0x63u8] + seq![7u8];
    let after = push_encoding(seq![0x00u8]) + push_encoding(redeem_script) + seq![0x68u8];
    let e = inscription_envelope(address_payload, redeem_script);
    assert(e =~= before + marker + after);
    let k = before.len() as int;
    assert(e.subrange(k, k + 7) =~= marker);
    assert(occurs_at(e, marker, k));
}

/// A redeem script that holds the `KRC-20` header keeps it inside the envelope.
pub proof fn lemma_envelope_keeps_header(address_payload: Seq<u8>, redeem_script: Seq<u8>)
    requires
        has_krc20_header(redeem_script),
    ensures
        has_krc20_header(inscription_envelope(address_payload, redeem_script)),
{
    let enc = push_encoding(redeem_script);
    let n = redeem_script.len();
    let head = enc.subrange(0, enc.len() - n);
    assert(n >= 2);
    assert(enc =~= head + redeem_script);
    lemma_header_detection_is_positional_free(redeem_script, head);
    let before = push_encoding(address_payload) + seq![0xacu8, 0x00u8, 0x63u8] + push_encoding(
        kasplex_header_lc(),
    ) + push_encoding(seq![0x00u8]);
    let after = seq![0x68u8];
    lemma_header_detection_is_positional_free(enc, before);
    lemma_header_detection_is_positional_free(before + enc, after);
    assert(inscription_envelope(address_payload, redeem_script) =~= before + enc + after);
}

/// Escaping works byte by byte: the escape of two byte strings one after the other is the
/// escape of the first followed by the escape of the second.
pub proof fn lemma_escaped_text_concat(a: Seq<u8>, b: Seq<u8>)
    ensures
        escaped_text(a + b) == escaped_text(a) + escaped_text(b),
    decreases b.len(),
{
    if b.len() == 0 {
        assert(a + b =~= a);
        assert(escaped_text(a) + escaped_text(b) =~= escaped_text(a));
    } else {
        lemma_escaped_text_concat(a, b.drop_last());
        assert((a + b).drop_last() =~= a + b.drop_last());
        assert((a + b).last() == b.last());
        assert(escaped_text(a + b) =~= escaped_text(a) + escaped_text(b.drop_last())
            + escaped_chars(b.last()));
    }
}

/// A byte that escaping leaves as it is: printable ASCII other than `'`, `"` and `\`.
pub open spec fn is_plain_byte(b: u8) -> bool {
    0x20 <= b <= 0x7e && b != 0x22 && b != 0x27 && b != 0x5c
}

/// Plain text stands for itself: bytes that are all printable ASCII other than `'`, `"` and
/// `\` read as the same characters, and any other byte is written as an escape that starts
/// with a backslash and is two to four characters long.
pub proof fn lemma_plain_text_unescaped(bytes: Seq<u8>)
    ensures
        (forall|i: int| 0 <= i < bytes.len() ==> is_plain_byte(#[trigger] bytes[i]))
            ==> escaped_text(bytes) == bytes.map_values(|b: u8| b as char),
        bytes.len() == 1 && !is_plain_byte(bytes[0]) ==> {
            let t = escaped_text(bytes);
            &&& 2 <= t.len() <= 4
            &&& t[0] == '\\'
        },
    decreases bytes.len(),
{
    if bytes.len() > 0 {
        lemma_plain_text_unescaped(bytes.drop_last());
        if forall|i: int| 0 <= i < bytes.len() ==> is_plain_byte(#[trigger] bytes[i]) {
            assert forall|i: int| 0 <= i < bytes.drop_last().len() implies is_plain_byte(
                #[trigger] bytes.drop_last()[i],
            ) by {
                assert(bytes.drop_last()[i] == bytes[i]);
            }
            assert(is_plain_byte(bytes[bytes.len() - 1]));
            assert(escaped_text(bytes) =~= bytes.map_values(|b: u8| b as char));
        }
        if bytes.len() == 1 && !is_plain_byte(bytes[0]) {
            assert(bytes.drop_last() =~= Seq::<u8>::empty());
            assert(escaped_text(bytes.drop_last()) =~= Seq::<char>::empty());
            assert(escaped_text(bytes) =~= escaped_chars(bytes[0]));
            assert(('\\' as u8) == 0x5cu8);
        }
    } else {
        assert(escaped_text(bytes) =~= bytes.map_values(|b: u8| b as char));
    }
}

} // verus!
