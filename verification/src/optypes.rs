use vstd::prelude::*;

use crate::constants::{FEE_DEPLOY, FEE_MINT};

verus! {

/// The error of reading an operation type from text: the text that was not one.
#[derive(Debug)]
pub enum KrcTwentyOpTypeError {
    InvalidOpType(String),
}

/// The three operations of the KRC-20 protocol.
#[derive(Debug, Clone, Copy, PartialEq, Eq, Structural)]
pub enum KrcTwentyOpType {
    Deploy,
    Mint,
    Transfer,
}

/// The fee, in sompi, that each operation adds to its transaction.
pub open spec fn spec_additional_fee(op: KrcTwentyOpType) -> nat {
    match op {
        KrcTwentyOpType::Deploy => 1000 * 100_000_000,
        KrcTwentyOpType::Mint => 100_000_000,
        KrcTwentyOpType::Transfer => 0,
    }
}

/// The name of each operation as it is written in an inscription.
pub open spec fn op_name(op: KrcTwentyOpType) -> Seq<char> {
    match op {
        KrcTwentyOpType::Deploy => "deploy"@,
        KrcTwentyOpType::Mint => "mint"@,
        KrcTwentyOpType::Transfer => "transfer"@,
    }
}

/// The operation that a lower-case name stands for.
pub open spec fn op_named(name: Seq<char>) -> Option<KrcTwentyOpType> {
    if name == "deploy"@ {
        Some(KrcTwentyOpType::Deploy)
    } else if name == "mint"@ {
        Some(KrcTwentyOpType::Mint)
    } else if name == "transfer"@ {
        Some(KrcTwentyOpType::Transfer)
    } else {
        None
    }
}

/// What `str::to_lowercase` gives for a string: its Unicode lower-case equivalent.
pub uninterp spec fn lowercase_of(s: Seq<char>) -> Seq<char>;

/// `str::to_lowercase` from std.
///
/// Trusted: the result is `lowercase_of` of the argument; what the lower-case mapping is,
/// character by character, is left to the name.
#[verifier::external_body]
fn to_lowercase(s: &str) -> (r: String)
    ensures
        r@ == lowercase_of(s@),
{
    s.to_lowercase()
}

impl KrcTwentyOpType {
    /// The fee, in sompi, that the operation adds to its transaction.
    pub fn additional_fee(&self) -> (fee: u64)
        ensures
            fee == spec_additional_fee(*self),
    {
        match self {
            KrcTwentyOpType::Deploy => FEE_DEPLOY,
            KrcTwentyOpType::Mint => FEE_MINT,
            KrcTwentyOpType::Transfer => 0,
        }
    }

    /// The name of the operation: `deploy`, `mint` or `transfer`.
    pub fn to_string(&self) -> (s: String)
        ensures
            s@ == op_name(*self),
    {
        match self {
            KrcTwentyOpType::Mint => "mint".to_owned(),
            KrcTwentyOpType::Deploy => "deploy".to_owned(),
            KrcTwentyOpType::Transfer => "transfer".to_owned(),
        }
    }

    /// The operation that an already lower-cased name stands for.
    pub fn from_lowercase_name(name: &String) -> (r: Option<KrcTwentyOpType>)
        ensures
            r == op_named(name@),
    {
        if *name == "deploy".to_owned() {
            Some(KrcTwentyOpType::Deploy)
        } else if *name == "mint".to_owned() {
            Some(KrcTwentyOpType::Mint)
        } else if *name == "transfer".to_owned() {
            Some(KrcTwentyOpType::Transfer)
        } else {
            None
        }
    }

    /// Reads an operation type from its name in any letter case; any other text is refused
    /// with that text.
    pub fn from_name(op_type: &str) -> (r: Result<KrcTwentyOpType, KrcTwentyOpTypeError>)
        ensures
            match r {
                Ok(op) => op_named(lowercase_of(op_type@)) == Some(op),
                Err(KrcTwentyOpTypeError::InvalidOpType(s)) => op_named(
                    lowercase_of(op_type@),
                ) is None && s@ == op_type@,
            },
    {
        let lower = to_lowercase(op_type);
        match Self::from_lowercase_name(&lower) {
            Some(op) => Ok(op),
            None => Err(KrcTwentyOpTypeError::InvalidOpType(op_type.to_owned())),
        }
    }
}

impl core::str::FromStr for KrcTwentyOpType {
    type Err = KrcTwentyOpTypeError;

    fn from_str(op_type: &str) -> (r: Result<Self, Self::Err>)
        ensures
            match r {
                Ok(op) => op_named(lowercase_of(op_type@)) == Some(op),
                Err(KrcTwentyOpTypeError::InvalidOpType(s)) => op_named(
                    lowercase_of(op_type@),
                ) is None && s@ == op_type@,
            },
    {
        Self::from_name(op_type)
    }
}

/// The name of each operation reads back as that operation.
pub proof fn lemma_op_name_reads_back(op: KrcTwentyOpType)
    ensures
        op_named(op_name(op)) == Some(op),
{
    reveal_strlit("deploy");
    reveal_strlit("mint");
    reveal_strlit("transfer");
    assert("deploy"@.len() == 6);
    assert("mint"@.len() == 4);
    assert("transfer"@.len() == 8);
}

/// Only the three operation names read as an operation: a name reads as an operation only
/// when it is exactly that operation's name.
pub proof fn lemma_only_operation_names_read(name: Seq<char>)
    ensures
        op_named(name) matches Some(op) ==> name == op_name(op),
        op_named(name) is None <==> (name != "deploy"@ && name != "mint"@ && name
            != "transfer"@),
{
}

/// Deploying costs a thousand times what minting costs, and a transfer costs nothing extra.
pub proof fn lemma_fee_schedule()
    ensures
        spec_additional_fee(KrcTwentyOpType::Deploy) == 1000 * spec_additional_fee(
            KrcTwentyOpType::Mint,
        ),
        spec_additional_fee(KrcTwentyOpType::Mint) == 100_000_000,
        spec_additional_fee(KrcTwentyOpType::Transfer) == 0,
{
}

} // verus!
