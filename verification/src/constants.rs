use vstd::prelude::*;

verus! {

/// Extra fee paid to deploy a token: one thousand KAS (a KAS is 100 000 000 sompi).
pub const FEE_DEPLOY: u64 = 100_000_000_000;

/// Extra fee paid to mint a token: one KAS.
pub const FEE_MINT: u64 = 100_000_000;

/// Protocol namespace written into the inscription envelope.
pub const PROTOCOL_NAMESPACE: &'static str = "kasplex";

/// Protocol identifier carried in the `p` field of every operation.
pub const PROTOCOL_ID: &'static str = "krc-20";

/// `kasplex`, the envelope marker.
pub const KASPLEX_HEADER: [u8; 7] = [0x6b, 0x61, 0x73, 0x70, 0x6c, 0x65, 0x78];

/// `kasplex` in lower case.
pub const KASPLEX_HEADER_LC: [u8; 7] = [0x6b, 0x61, 0x73, 0x70, 0x6c, 0x65, 0x78];

/// `KASPLEX` in upper case.
pub const KASPLEX_HEADER_UC: [u8; 7] = [0x4b, 0x41, 0x53, 0x50, 0x4c, 0x45, 0x58];

/// `krc-20` in lower case.
pub const KRC20_HEADER_LC: [u8; 6] = [0x6b, 0x72, 0x63, 0x2d, 0x32, 0x30];

/// `KRC-20` in upper case.
pub const KRC20_HEADER_UC: [u8; 6] = [0x4b, 0x52, 0x43, 0x2d, 0x32, 0x30];

} // verus!
