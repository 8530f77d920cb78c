use vstd::prelude::*;

use crate::optypes::{op_name, KrcTwentyOpType};

verus! {

/// The error of checking a ticker: the ticker that was refused.
#[derive(Debug)]
pub enum KrcTwentyOperationsError {
    InvalidTickerFormat(String),
}

/// The fields that any operation may carry.
pub struct BaseData {
    pub p: String,
    pub op: String,
    pub tick: String,
    pub max: Option<u64>,
    pub lim: Option<u64>,
    pub amt: Option<u64>,
    pub dec: Option<u8>,
}

pub struct BaseDataView {
    pub p: Seq<char>,
    pub op: Seq<char>,
    pub tick: Seq<char>,
    pub max: Option<u64>,
    pub lim: Option<u64>,
    pub amt: Option<u64>,
    pub dec: Option<u8>,
}

impl View for BaseData {
    type V = BaseDataView;

    open spec fn view(&self) -> BaseDataView {
        BaseDataView {
            p: self.p@,
            op: self.op@,
            tick: self.tick@,
            max: self.max,
            lim: self.lim,
            amt: self.amt,
            dec: self.dec,
        }
    }
}

impl Clone for BaseData {
    fn clone(&self) -> (r: Self)
        ensures
            r@ == self@,
    {
        BaseData {
            p: self.p.clone(),
            op: self.op.clone(),
            tick: self.tick.clone(),
            max: self.max,
            lim: self.lim,
            amt: self.amt,
            dec: self.dec,
        }
    }
}

/// The payload of a deploy: the supply cap, the limit per mint and the optional decimals.
pub struct DeployData {
    pub p: String,
    pub op: String,
    pub tick: String,
    pub max: u64,
    pub lim: u64,
    pub dec: Option<u8>,
}

/// The payload of a mint.
pub struct MintData {
    pub p: String,
    pub op: String,
    pub tick: String,
}

/// The payload of a transfer: the amount moved.
pub struct TransferData {
    pub p: String,
    pub op: String,
    pub tick: String,
    pub amt: u64,
}

impl DeployData {
    /// The deploy payload of a base whose cap and limit are set.
    pub fn from_base_data(val: BaseData) -> (r: DeployData)
        requires
            val.max is Some,
            val.lim is Some,
        ensures
            r.p@ == val.p@,
            r.op@ == val.op@,
            r.tick@ == val.tick@,
            r.max == val.max->0,
            r.lim == val.lim->0,
            r.dec == val.dec,
    {
        DeployData {
            p: val.p,
            op: val.op,
            tick: val.tick,
            max: val.max.unwrap(),
            lim: val.lim.unwrap(),
            dec: val.dec,
        }
    }
}

impl MintData {
    /// The mint payload of a base.
    pub fn from_base_data(val: BaseData) -> (r: MintData)
        ensures
            r.p@ == val.p@,
            r.op@ == val.op@,
            r.tick@ == val.tick@,
    {
        MintData { p: val.p, op: val.op, tick: val.tick }
    }
}

impl TransferData {
    /// The transfer payload of a base whose amount is set.
    pub fn from_base_data(val: BaseData) -> (r: TransferData)
        requires
            val.amt is Some,
        ensures
            r.p@ == val.p@,
            r.op@ == val.op@,
            r.tick@ == val.tick@,
            r.amt == val.amt->0,
    {
        TransferData { p: val.p, op: val.op, tick: val.tick, amt: val.amt.unwrap() }
    }
}

/// A ticker is four to six bytes, each a lower-case ASCII letter.
pub open spec fn valid_ticker(ticker: Seq<char>) -> bool {
    let b = vstd::utf8::encode_utf8(ticker);
    &&& 4 <= b.len() <= 6
    &&& forall|i: int| 0 <= i < b.len() ==> 0x61 <= #[trigger] b[i] <= 0x7a
}

/// Whether the fields an operation of this type needs are set: cap and limit for a deploy,
/// the amount for a transfer, nothing for a mint.
pub open spec fn spec_validate(op_type: KrcTwentyOpType, data: BaseDataView) -> bool {
    match op_type {
        KrcTwentyOpType::Deploy => data.max is Some && data.lim is Some,
        KrcTwentyOpType::Mint => true,
        KrcTwentyOpType::Transfer => data.amt is Some,
    }
}

/// The data of a fresh operation: protocol, name of the type and ticker, nothing else.
pub open spec fn fresh_data(op_type: KrcTwentyOpType, ticker: Seq<char>) -> BaseDataView {
    BaseDataView {
        p: "krc-20"@,
        op: op_name(op_type),
        tick: ticker,
        max: None,
        lim: None,
        amt: None,
        dec: None,
    }
}

/// An operation under construction: its type and the data it will carry.
pub struct Operation {
    op_type: KrcTwentyOpType,
    base_data: BaseData,
}

pub struct OperationView {
    pub op_type: KrcTwentyOpType,
    pub data: BaseDataView,
}

impl View for Operation {
    type V = OperationView;

    closed spec fn view(&self) -> OperationView {
        OperationView { op_type: self.op_type, data: self.base_data@ }
    }
}

impl Operation {
    /// Starts an operation of the given type on a ticker. The ticker is checked, and the
    /// outcome of the check is not acted on: the operation is made either way.
    pub fn new(operation_type: KrcTwentyOpType, ticker: String) -> (r: Self)
        ensures
            r@.op_type == operation_type,
            r@.data == fresh_data(operation_type, ticker@),
    {
        let _validated_ticker = Self::validate_ticker(ticker.clone());
        let base_data = BaseData {
            p: crate::constants::PROTOCOL_ID.to_owned(),
            op: operation_type.to_string(),
            tick: ticker,
            max: None,
            lim: None,
            dec: None,
            amt: None,
        };
        proof {
            reveal_strlit("krc-20");
        }
        Self { op_type: operation_type, base_data }
    }

    /// Accepts a ticker of four to six bytes, each a lower-case ASCII letter, and refuses
    /// any other with the ticker itself.
    pub fn validate_ticker(ticker: String) -> (r: Result<bool, KrcTwentyOperationsError>)
        ensures
            match r {
                Ok(b) => b && valid_ticker(ticker@),
                Err(KrcTwentyOperationsError::InvalidTickerFormat(t)) => !valid_ticker(ticker@)
                    && t@ == ticker@,
            },
    {
        let bytes = ticker.as_str().as_bytes();
        let n = bytes.len();
        let mut is_ascii_alpha = true;
        let mut i: usize = 0;
        while i < n
            invariant
                n == bytes@.len(),
                bytes@ == vstd::utf8::encode_utf8(ticker@),
                i <= n,
                is_ascii_alpha == forall|j: int| 0 <= j < i ==> 0x61 <= #[trigger] bytes@[j] <= 0x7a,
            decreases n - i,
        {
            let b = bytes[i];
            is_ascii_alpha = is_ascii_alpha && 0x61 <= b && b <= 0x7a;
            i = i + 1;
        }
        let is_4_to_6_chars_long = n >= 4 && n <= 6;
        if is_ascii_alpha && is_4_to_6_chars_long {
            Ok(true)
        } else {
            Err(KrcTwentyOperationsError::InvalidTickerFormat(ticker))
        }
    }

    /// The data of the operation, whether or not the fields its type needs are set.
    pub fn data(&self) -> (r: BaseData)
        ensures
            r@ == self@.data,
    {
        self.validate();
        self.base_data.clone()
    }

    /// Sets the supply cap.
    pub fn set_max(&mut self, cap: u64)
        ensures
            final(self)@ == (OperationView {
                data: BaseDataView { max: Some(cap), ..old(self)@.data },
                ..old(self)@
            }),
    {
        self.base_data.max = Some(cap);
    }

    /// Sets the limit per mint.
    pub fn set_lim(&mut self, mint_limit: u64)
        ensures
            final(self)@ == (OperationView {
                data: BaseDataView { lim: Some(mint_limit), ..old(self)@.data },
                ..old(self)@
            }),
    {
        self.base_data.lim = Some(mint_limit);
    }

    /// Sets the amount to transfer.
    pub fn set_amt(&mut self, transfer_amount: u64)
        ensures
            final(self)@ == (OperationView {
                data: BaseDataView { amt: Some(transfer_amount), ..old(self)@.data },
                ..old(self)@
            }),
    {
        self.base_data.amt = Some(transfer_amount);
    }

    /// Sets the number of decimals.
    pub fn set_dec(&mut self, decimals: u8)
        ensures
            final(self)@ == (OperationView {
                data: BaseDataView { dec: Some(decimals), ..old(self)@.data },
                ..old(self)@
            }),
    {
        self.base_data.dec = Some(decimals);
    }

    /// Whether the fields that the operation's type needs are set.
    pub fn validate(&self) -> (r: bool)
        ensures
            r == spec_validate(self@.op_type, self@.data),
    {
        match self.op_type {
            KrcTwentyOpType::Deploy => self.base_data.max.is_some() && self.base_data.lim.is_some(),
            KrcTwentyOpType::Mint => true,
            KrcTwentyOpType::Transfer => self.base_data.amt.is_some(),
        }
    }

    /// The payload that deploys a ticker with a supply cap, a limit per mint and, where
    /// given, a number of decimals.
    pub fn build_deploy(ticker: String, cap: u64, mint_limit: u64, decimals: Option<u8>) -> (r:
        DeployData)
        ensures
            r.p@ == "krc-20"@,
            r.op@ == "deploy"@,
            r.tick@ == ticker@,
            r.max == cap,
            r.lim == mint_limit,
            r.dec == decimals,
    {
        let mut operation = Self::new(KrcTwentyOpType::Deploy, ticker);
        operation.set_max(cap);
        operation.set_lim(mint_limit);
        if let Some(dec) = decimals {
            operation.set_dec(dec);
        }
        DeployData::from_base_data(operation.data())
    }

    /// The payload that mints a ticker.
    pub fn build_mint(ticker: String) -> (r: MintData)
        ensures
            r.p@ == "krc-20"@,
            r.op@ == "mint"@,
            r.tick@ == ticker@,
    {
        let operation = Self::new(KrcTwentyOpType::Mint, ticker);
        MintData::from_base_data(operation.data())
    }

    /// The payload that transfers an amount of a ticker.
    pub fn build_transfer(ticker: String, transfer_amount: u64) -> (r: TransferData)
        ensures
            r.p@ == "krc-20"@,
            r.op@ == "transfer"@,
            r.tick@ == ticker@,
            r.amt == transfer_amount,
    {
        let mut operation = Self::new(KrcTwentyOpType::Transfer, ticker);
        operation.set_amt(transfer_amount);
        TransferData::from_base_data(operation.data())
    }
}

/// A fresh operation is complete only when it is a mint; a deploy becomes complete once its
/// cap and limit are set, a transfer once its amount is set, whatever else is set.
pub proof fn lemma_operation_completeness(
    op_type: KrcTwentyOpType,
    ticker: Seq<char>,
    data: BaseDataView,
    cap: u64,
    mint_limit: u64,
    amount: u64,
)
    ensures
        spec_validate(op_type, fresh_data(op_type, ticker)) <==> op_type == KrcTwentyOpType::Mint,
        spec_validate(
            KrcTwentyOpType::Deploy,
            BaseDataView { max: Some(cap), lim: Some(mint_limit), ..data },
        ),
        spec_validate(KrcTwentyOpType::Transfer, BaseDataView { amt: Some(amount), ..data }),
{
}

/// An operation is complete exactly when the fields its type needs are set: a deploy needs
/// both its cap and its limit (a limit alone is not enough), a transfer its amount, a mint
/// nothing.
pub proof fn lemma_validate_needs_fields(data: BaseDataView, ticker: Seq<char>, limit: u64)
    ensures
        spec_validate(KrcTwentyOpType::Deploy, data) ==> data.max is Some && data.lim is Some,
        spec_validate(KrcTwentyOpType::Transfer, data) ==> data.amt is Some,
        spec_validate(KrcTwentyOpType::Mint, data),
        !spec_validate(
            KrcTwentyOpType::Deploy,
            BaseDataView { lim: Some(limit), ..fresh_data(KrcTwentyOpType::Deploy, ticker) },
        ),
{
}

/// Every ticker of four to six lower-case ASCII letters, `a` to `z` both included, is valid.
pub proof fn lemma_lowercase_letters_are_valid(ticker: Seq<char>)
    requires
        4 <= ticker.len() <= 6,
        forall|i: int| 0 <= i < ticker.len() ==> 'a' <= #[trigger] ticker[i] <= 'z',
    ensures
        valid_ticker(ticker),
{
    assert(vstd::utf8::is_ascii_chars(ticker));
    vstd::utf8::is_ascii_chars_encode_utf8(ticker);
    let b = vstd::utf8::encode_utf8(ticker);
    assert forall|i: int| 0 <= i < b.len() implies 0x61 <= #[trigger] b[i] <= 0x7a by {
        assert(ticker[i] as u8 == b[i]);
    }
}

} // verus!
