use vstd::prelude::*;

use crate::constants::{KASPLEX_HEADER_LC, KASPLEX_HEADER_UC, KRC20_HEADER_LC, KRC20_HEADER_UC};
use crate::script::{parse_script, script_ops, Opcode, OpcodeView};

verus! {

/// `needle` stands in `haystack` starting at position `i`.
pub open spec fn occurs_at(haystack: Seq<u8>, needle: Seq<u8>, i: int) -> bool {
    0 <= i && i + needle.len() <= haystack.len() && haystack.subrange(i, i + needle.len()) == needle
}

/// `needle` stands somewhere in `haystack` as a contiguous run of bytes.
pub open spec fn contains_bytes(haystack: Seq<u8>, needle: Seq<u8>) -> bool {
    exists|i: int| #[trigger] occurs_at(haystack, needle, i)
}

/// The byte sequences of the two spellings of each header.
pub open spec fn krc20_header_lc() -> Seq<u8> {
    seq![0x6bu8, 0x72u8, 0x63u8, 0x2du8, 0x32u8, 0x30u8]
}

pub open spec fn krc20_header_uc() -> Seq<u8> {
    seq![0x4bu8, 0x52u8, 0x43u8, 0x2du8, 0x32u8, 0x30u8]
}

pub open spec fn kasplex_header_lc() -> Seq<u8> {
    seq![0x6bu8, 0x61u8, 0x73u8, 0x70u8, 0x6cu8, 0x65u8, 0x78u8]
}

pub open spec fn kasplex_header_uc() -> Seq<u8> {
    seq![0x4bu8, 0x41u8, 0x53u8, 0x50u8, 0x4cu8, 0x45u8, 0x58u8]
}

/// The bytes hold `KRC-20` or `krc-20`.
pub open spec fn has_krc20_header(bytes: Seq<u8>) -> bool {
    contains_bytes(bytes, krc20_header_uc()) || contains_bytes(bytes, krc20_header_lc())
}

/// The bytes hold `kasplex` or `KASPLEX`.
pub open spec fn has_kasplex_header(bytes: Seq<u8>) -> bool {
    contains_bytes(bytes, kasplex_header_lc()) || contains_bytes(bytes, kasplex_header_uc())
}

/// Whether `haystack[start..start + needle.len()]` equals `needle`.
fn window_matches(haystack: &[u8], needle: &[u8], start: usize) -> (r: bool)
    requires
        start + needle@.len() <= haystack@.len(),
    ensures
        r == occurs_at(haystack@, needle@, start as int),
{
    let n = needle.len();
    let hl = haystack.len();
    let mut k: usize = 0;
    while k < n
        invariant
            n == needle@.len(),
            k <= n,
            start + n <= haystack@.len(),
            hl == haystack@.len(),
            forall|j: int| 0 <= j < k ==> haystack@[start + j] == needle@[j],
        decreases n - k,
    {
        if haystack[start + k] != needle[k] {
            assert(haystack@.subrange(start as int, start + n)[k as int] != needle@[k as int]);
            return false;
        }
        k = k + 1;
    }
    assert(haystack@.subrange(start as int, start + n) =~= needle@);
    true
}

/// The first position at which `needle` occurs in `haystack`, if any.
pub fn window_find(haystack: &[u8], needle: &[u8]) -> (r: Option<usize>)
    requires
        needle@.len() > 0,
    ensures
        match r {
            Some(p) => occurs_at(haystack@, needle@, p as int) && forall|j: int|
                0 <= j < p ==> !#[trigger] occurs_at(haystack@, needle@, j),
            None => !contains_bytes(haystack@, needle@),
        },
{
    let n = needle.len();
    let h = haystack.len();
    if n > h {
        assert forall|j: int| !#[trigger] occurs_at(haystack@, needle@, j) by {}
        return None;
    }
    let last = h - n;
    let mut p: usize = 0;
    while p <= last
        invariant
            n == needle@.len(),
            h == haystack@.len(),
            0 < n <= h,
            last == h - n,
            p <= last + 1,
            forall|j: int| 0 <= j < p ==> !#[trigger] occurs_at(haystack@, needle@, j),
        decreases last + 1 - p,
    {
        if window_matches(haystack, needle, p) {
            return Some(p);
        }
        p = p + 1;
    }
    assert forall|j: int| !#[trigger] occurs_at(haystack@, needle@, j) by {
        if 0 <= j && j < p {
        }
    }
    None
}

/// Whether the bytes hold the token protocol marker, `KRC-20` or `krc-20`.
pub fn detect_krc20_header(haystack: &[u8]) -> (r: bool)
    ensures
        r == has_krc20_header(haystack@),
{
    let uc: [u8; 6] = KRC20_HEADER_UC;
    let lc: [u8; 6] = KRC20_HEADER_LC;
    assert(uc@ == krc20_header_uc());
    assert(lc@ == krc20_header_lc());
    window_find(haystack, uc.as_slice()).is_some() || window_find(haystack, lc.as_slice()).is_some()
}

/// Whether the bytes hold the envelope marker, `kasplex` or `KASPLEX`.
pub fn detect_kasplex_header(haystack: &[u8]) -> (r: bool)
    ensures
        r == has_kasplex_header(haystack@),
{
    let lc: [u8; 7] = KASPLEX_HEADER_LC;
    let uc: [u8; 7] = KASPLEX_HEADER_UC;
    assert(lc@ == kasplex_header_lc());
    assert(uc@ == kasplex_header_uc());
    window_find(haystack, lc.as_slice()).is_some() || window_find(haystack, uc.as_slice()).is_some()
}

/// The data an opcode pushes, where it is a push of at least one byte.
pub open spec fn pushed_data(op: OpcodeView) -> Option<Seq<u8>> {
    if !op.is_empty && op.is_push {
        Some(op.data)
    } else {
        None
    }
}

/// Within the data of an envelope push, the data pushed by the second-to-last opcode: the
/// place of the inscription, before the closing push.
pub open spec fn second_to_last_push(data: Seq<u8>) -> Option<Seq<u8>> {
    let ops = script_ops(data);
    if ops.len() >= 2 {
        pushed_data(ops[ops.len() - 2])
    } else {
        None
    }
}

/// The inscription that an outer opcode carries: for a non-empty push whose data hold the
/// `KRC-20` header, the second-to-last push inside those data.
pub open spec fn carried_inscription(op: OpcodeView) -> Option<Seq<u8>> {
    if !op.is_empty && op.is_push && has_krc20_header(op.data) {
        second_to_last_push(op.data)
    } else {
        None
    }
}

/// An opcode at which the scan of a signature script stops.
pub open spec fn stops_scan(op: OpcodeView) -> bool {
    op.is_disabled || op.always_illegal
}

pub open spec fn option_as_seq(o: Option<Seq<u8>>) -> Seq<Seq<u8>> {
    match o {
        Some(d) => seq![d],
        None => seq![],
    }
}

/// The inscriptions carried by `ops[i..]`, in order, up to and including the first opcode
/// that stops the scan.
pub open spec fn inscriptions_from(ops: Seq<OpcodeView>, i: int) -> Seq<Seq<u8>>
    decreases ops.len() - i,
{
    if i < 0 || i >= ops.len() {
        seq![]
    } else if stops_scan(ops[i]) {
        option_as_seq(carried_inscription(ops[i]))
    } else {
        option_as_seq(carried_inscription(ops[i])) + inscriptions_from(ops, i + 1)
    }
}

/// The candidate inscriptions of a signature script, in script order: none unless the
/// script holds the `kasplex` marker.
pub open spec fn inscription_candidates(script: Seq<u8>) -> Seq<Seq<u8>> {
    if has_kasplex_header(script) {
        inscriptions_from(script_ops(script), 0)
    } else {
        seq![]
    }
}

pub open spec fn bytes_views(v: Seq<Vec<u8>>) -> Seq<Seq<u8>> {
    v.map_values(|b: Vec<u8>| b@)
}

/// The data pushed by the second-to-last opcode of `data`, if it pushes any.
fn second_to_last_pushed(data: &[u8]) -> (r: Option<Vec<u8>>)
    ensures
        match r {
            Some(d) => second_to_last_push(data@) == Some(d@),
            None => second_to_last_push(data@) is None,
        },
{
    let ops = parse_script(data);
    let ghost views = ops@.map_values(|op: Opcode| op@);
    let n = ops.len();
    if n < 2 {
        return None;
    }
    let op = &ops[n - 2];
    assert(views[n - 2] == op@);
    if !op.is_empty && op.is_push {
        Some(op.data.clone())
    } else {
        None
    }
}

/// The inscription that one outer opcode carries.
fn opcode_inscription(op: &Opcode) -> (r: Option<Vec<u8>>)
    ensures
        match r {
            Some(d) => carried_inscription(op@) == Some(d@),
            None => carried_inscription(op@) is None,
        },
{
    if !op.is_empty && op.is_push && detect_krc20_header(op.data.as_slice()) {
        second_to_last_pushed(op.data.as_slice())
    } else {
        None
    }
}

/// Scans a signature script for KRC-20 inscriptions: where the script holds the `kasplex`
/// marker, each push whose data hold the `KRC-20` header carries, as the second-to-last push
/// inside it, a candidate inscription. The scan ends at the end of the script, at a malformed
/// opcode, or after a disabled or illegal opcode. The candidates come in script order; the
/// inscription of the script is the last of them that reads as an operation.
pub fn krc20_inscription_candidates(signature_script: &[u8]) -> (r: Vec<Vec<u8>>)
    ensures
        bytes_views(r@) == inscription_candidates(signature_script@),
{
    let mut found: Vec<Vec<u8>> = Vec::new();
    if !detect_kasplex_header(signature_script) {
        assert(bytes_views(found@) =~= Seq::<Seq<u8>>::empty());
        return found;
    }
    let ops = parse_script(signature_script);
    let ghost views = ops@.map_values(|op: Opcode| op@);
    let n = ops.len();
    let mut i: usize = 0;
    assert(bytes_views(found@) =~= Seq::<Seq<u8>>::empty());
    while i < n
        invariant
            n == ops@.len(),
            views == ops@.map_values(|op: Opcode| op@),
            views == script_ops(signature_script@),
            has_kasplex_header(signature_script@),
            i <= n,
            bytes_views(found@) + inscriptions_from(views, i as int) == inscriptions_from(
                views,
                0,
            ),
        decreases n - i,
    {
        let op = &ops[i];
        assert(views[i as int] == op@);
        let ghost before = bytes_views(found@);
        let here = opcode_inscription(op);
        match here {
            Some(d) => {
                found.push(d);
            },
            None => {},
        }
        assert(bytes_views(found@) =~= before + option_as_seq(carried_inscription(op@)));
        if op.is_disabled || op.always_illegal {
            return found;
        }
        i = i + 1;
    }
    assert(inscriptions_from(views, n as int) =~= Seq::<Seq<u8>>::empty());
    found
}

/// The last reading that succeeded.
pub open spec fn last_read<T>(readings: Seq<Option<T>>) -> Option<T>
    decreases readings.len(),
{
    if readings.len() == 0 {
        None
    } else {
        match readings.last() {
            Some(x) => Some(x),
            None => last_read(readings.drop_last()),
        }
    }
}

/// Of the readings of the candidates of a script, in script order, the inscription of the
/// script: the last candidate that read as an operation.
pub fn last_reading<T>(readings: Vec<Option<T>>) -> (r: Option<T>)
    ensures
        r == last_read(readings@),
{
    let ghost all = readings@;
    let mut rest = readings;
    assert(rest@ == all);
    loop
        invariant
            all == readings@,
            last_read(rest@) == last_read(all),
        decreases rest@.len(),
    {
        let ghost before = rest@;
        match rest.pop() {
            None => {
                assert(before.len() == 0);
                return None;
            },
            Some(Some(x)) => {
                assert(before.last() == Some(x));
                return Some(x);
            },
            Some(None) => {
                assert(rest@ == before.drop_last());
            },
        }
    }
}

/// A transaction whose first input carries a signature script.
pub trait ITransaction {
    fn signature_script(&self) -> &[u8];
}

/// An occurrence of `needle` in `a` is an occurrence in `a + b` at the same place and in
/// `b + a` shifted by the length of `b`.
pub proof fn lemma_occurs_in_extension(a: Seq<u8>, b: Seq<u8>, needle: Seq<u8>, i: int)
    requires
        occurs_at(a, needle, i),
    ensures
        occurs_at(a + b, needle, i),
        occurs_at(b + a, needle, i + b.len()),
{
    assert((a + b).subrange(i, i + needle.len()) =~= a.subrange(i, i + needle.len()));
    assert((b + a).subrange(i + b.len(), i + b.len() + needle.len()) =~= a.subrange(
        i,
        i + needle.len(),
    ));
}

/// Header detection looks at the bytes wherever they stand: bytes that hold a header still
/// hold it with anything written before or after them.
pub proof fn lemma_header_detection_is_positional_free(a: Seq<u8>, b: Seq<u8>)
    ensures
        has_krc20_header(a) ==> has_krc20_header(a + b) && has_krc20_header(b + a),
        has_kasplex_header(a) ==> has_kasplex_header(a + b) && has_kasplex_header(b + a),
{
    if has_krc20_header(a) {
        if contains_bytes(a, krc20_header_uc()) {
            let i = choose|i: int| occurs_at(a, krc20_header_uc(), i);
            lemma_occurs_in_extension(a, b, krc20_header_uc(), i);
        } else {
            let i = choose|i: int| occurs_at(a, krc20_header_lc(), i);
            lemma_occurs_in_extension(a, b, krc20_header_lc(), i);
        }
    }
    if has_kasplex_header(a) {
        if contains_bytes(a, kasplex_header_lc()) {
            let i = choose|i: int| occurs_at(a, kasplex_header_lc(), i);
            lemma_occurs_in_extension(a, b, kasplex_header_lc(), i);
        } else {
            let i = choose|i: int| occurs_at(a, kasplex_header_uc(), i);
            lemma_occurs_in_extension(a, b, kasplex_header_uc(), i);
        }
    }
}

/// A signature script without the `kasplex` marker carries no inscription.
pub proof fn lemma_no_marker_no_inscription(script: Seq<u8>)
    requires
        !has_kasplex_header(script),
    ensures
        inscription_candidates(script) == Seq::<Seq<u8>>::empty(),
{
}

} // verus!
