use krc20::operations::{KrcTwentyOperationsError, Operation};
use krc20::optypes::{KrcTwentyOpType, KrcTwentyOpTypeError};

#[test]
fn additional_fees() {
    assert_eq!(KrcTwentyOpType::Deploy.additional_fee(), 100_000_000_000);
    assert_eq!(KrcTwentyOpType::Mint.additional_fee(), 100_000_000);
    assert_eq!(KrcTwentyOpType::Transfer.additional_fee(), 0);
}

#[test]
fn op_type_names() {
    assert_eq!(KrcTwentyOpType::Deploy.to_string(), "deploy");
    assert_eq!(KrcTwentyOpType::Mint.to_string(), "mint");
    assert_eq!(KrcTwentyOpType::Transfer.to_string(), "transfer");
}

#[test]
fn op_type_from_name_any_case() {
    assert_eq!(KrcTwentyOpType::from_name("DEPLOY").unwrap(), KrcTwentyOpType::Deploy);
    assert_eq!(KrcTwentyOpType::from_name("Mint").unwrap(), KrcTwentyOpType::Mint);
    assert_eq!("transfer".parse::<KrcTwentyOpType>().unwrap(), KrcTwentyOpType::Transfer);
}

#[test]
fn op_type_from_unknown_name() {
    match KrcTwentyOpType::from_name("Burn") {
        Err(KrcTwentyOpTypeError::InvalidOpType(s)) => assert_eq!(s, "Burn"),
        _ => panic!("expected an error"),
    }
    assert!(KrcTwentyOpType::from_name("").is_err());
    assert!(KrcTwentyOpType::from_name(" mint").is_err());
}

#[test]
fn op_type_names_read_back() {
    for op in [KrcTwentyOpType::Deploy, KrcTwentyOpType::Mint, KrcTwentyOpType::Transfer] {
        assert_eq!(KrcTwentyOpType::from_name(&op.to_string()).unwrap(), op);
    }
}

#[test]
fn ticker_validation() {
    assert!(Operation::validate_ticker("test".to_string()).unwrap());
    assert!(Operation::validate_ticker("abcdef".to_string()).unwrap());
    for bad in ["abc", "abcdefg", "Test", "te5t", "tést", ""] {
        match Operation::validate_ticker(bad.to_string()) {
            Err(KrcTwentyOperationsError::InvalidTickerFormat(t)) => assert_eq!(t, bad),
            Ok(_) => panic!("accepted {bad}"),
        }
    }
}

#[test]
fn new_operation_data() {
    let op = Operation::new(KrcTwentyOpType::Deploy, "TOOLONGTICKER".to_string());
    let d = op.data();
    assert_eq!(d.p, "krc-20");
    assert_eq!(d.op, "deploy");
    assert_eq!(d.tick, "TOOLONGTICKER");
    assert_eq!(d.max, None);
    assert_eq!(d.lim, None);
    assert_eq!(d.amt, None);
    assert_eq!(d.dec, None);
    assert!(!op.validate());
}

#[test]
fn setters_and_validate() {
    let mut deploy = Operation::new(KrcTwentyOpType::Deploy, "test".to_string());
    deploy.set_max(21_000);
    assert!(!deploy.validate());
    deploy.set_lim(100);
    assert!(deploy.validate());
    deploy.set_dec(8);
    let d = deploy.data();
    assert_eq!((d.max, d.lim, d.dec, d.amt), (Some(21_000), Some(100), Some(8), None));

    let mint = Operation::new(KrcTwentyOpType::Mint, "test".to_string());
    assert!(mint.validate());

    let mut transfer = Operation::new(KrcTwentyOpType::Transfer, "test".to_string());
    assert!(!transfer.validate());
    transfer.set_amt(5);
    assert!(transfer.validate());
    assert_eq!(transfer.data().amt, Some(5));
}

#[test]
fn build_payloads() {
    let d = Operation::build_deploy("test".to_owned(), 21_000, 100, None);
    assert_eq!((d.p.as_str(), d.op.as_str(), d.tick.as_str()), ("krc-20", "deploy", "test"));
    assert_eq!((d.max, d.lim, d.dec), (21_000, 100, None));
    let d8 = Operation::build_deploy("test".to_owned(), 1, 2, Some(8));
    assert_eq!(d8.dec, Some(8));
    let m = Operation::build_mint("test".to_owned());
    assert_eq!((m.p.as_str(), m.op.as_str(), m.tick.as_str()), ("krc-20", "mint", "test"));
    let t = Operation::build_transfer("test".to_owned(), 1_000);
    assert_eq!((t.p.as_str(), t.op.as_str(), t.tick.as_str(), t.amt), ("krc-20", "transfer", "test", 1_000));
}
