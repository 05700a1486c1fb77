use txledger::account::Account;
use txledger::fields::format_amount;
use txledger::fields::parse_amount;
use txledger::fields::parse_client_id;
use txledger::fields::parse_record;
use txledger::fields::parse_tx_id;
use txledger::fields::parse_tx_type;
use txledger::fields::render_account;
use txledger::transaction::TransactionType;

#[test]
fn amounts_parse_to_fixed_point_units() {
    assert_eq!(parse_amount(b"10.0"), Some(100_000));
    assert_eq!(parse_amount(b"3"), Some(30_000));
    assert_eq!(parse_amount(b"0.0001"), Some(1));
    assert_eq!(parse_amount(b"1.5"), Some(15_000));
    assert_eq!(parse_amount(b"0"), Some(0));
    assert_eq!(parse_amount(b"007"), Some(70_000));
    assert_eq!(parse_amount(b"2.3456"), Some(23_456));
}

#[test]
fn amounts_allow_a_bare_dot_side() {
    assert_eq!(parse_amount(b"5."), Some(50_000));
    assert_eq!(parse_amount(b".5"), Some(5_000));
}

#[test]
fn bad_amounts_are_absent() {
    assert_eq!(parse_amount(b""), None);
    assert_eq!(parse_amount(b"."), None);
    assert_eq!(parse_amount(b"-3"), None);
    assert_eq!(parse_amount(b"1.00001"), None);
    assert_eq!(parse_amount(b"1.2.3"), None);
    assert_eq!(parse_amount(b"abc"), None);
    assert_eq!(parse_amount(b"1e3"), None);
    assert_eq!(parse_amount(b"3 "), None);
}

#[test]
fn amounts_stop_at_sixty_four_bits() {
    assert_eq!(parse_amount(b"1844674407370955.1615"), Some(u64::MAX));
    assert_eq!(parse_amount(b"1844674407370955.1616"), None);
    assert_eq!(parse_amount(b"1844674407370956"), None);
    assert_eq!(parse_amount(b"99999999999999999999"), None);
}

#[test]
fn client_ids_parse_within_their_domain() {
    assert_eq!(parse_client_id(b"0"), Some(0));
    assert_eq!(parse_client_id(b"65535"), Some(65_535));
    assert_eq!(parse_client_id(b"65536"), None);
    assert_eq!(parse_client_id(b""), None);
    assert_eq!(parse_client_id(b"12a"), None);
    assert_eq!(parse_client_id(b"-1"), None);
    assert_eq!(parse_client_id(b"0000000000000000001"), Some(1));
}

#[test]
fn tx_ids_parse_within_their_domain() {
    assert_eq!(parse_tx_id(b"0"), Some(0));
    assert_eq!(parse_tx_id(b"4294967295"), Some(4_294_967_295));
    assert_eq!(parse_tx_id(b"4294967296"), None);
    assert_eq!(parse_tx_id(b"7.5"), None);
}

#[test]
fn the_five_kind_names_parse() {
    assert_eq!(parse_tx_type(b"deposit"), Some(TransactionType::Deposit));
    assert_eq!(parse_tx_type(b"withdrawal"), Some(TransactionType::Withdrawal));
    assert_eq!(parse_tx_type(b"dispute"), Some(TransactionType::Dispute));
    assert_eq!(parse_tx_type(b"resolve"), Some(TransactionType::Resolve));
    assert_eq!(parse_tx_type(b"chargeback"), Some(TransactionType::Chargeback));
    assert_eq!(parse_tx_type(b"Deposit"), None);
    assert_eq!(parse_tx_type(b"deposits"), None);
    assert_eq!(parse_tx_type(b""), None);
}

#[test]
fn rows_parse_into_records() {
    let r = parse_record(b"deposit", b"1", b"10", b"2.5").unwrap();
    assert!(matches!(r.tx_type, TransactionType::Deposit));
    assert_eq!(r.client_id, 1);
    assert_eq!(r.tx_id, 10);
    assert_eq!(r.amount, Some(25_000));

    let r = parse_record(b"dispute", b"1", b"10", b"").unwrap();
    assert!(matches!(r.tx_type, TransactionType::Dispute));
    assert_eq!(r.amount, None);

    // an invalid amount leaves the amount absent, the row stands
    let r = parse_record(b"deposit", b"1", b"11", b"oops").unwrap();
    assert_eq!(r.amount, None);

    // a malformed kind, client or tx makes the row malformed
    assert!(parse_record(b"deposti", b"1", b"10", b"2.5").is_none());
    assert!(parse_record(b"deposit", b"70000", b"10", b"2.5").is_none());
    assert!(parse_record(b"deposit", b"1", b"x", b"2.5").is_none());
}

#[test]
fn amounts_render_with_four_decimals() {
    assert_eq!(format_amount(0), "0.0000");
    assert_eq!(format_amount(100_000), "10.0000");
    assert_eq!(format_amount(70_000), "7.0000");
    assert_eq!(format_amount(1), "0.0001");
    assert_eq!(format_amount(-5_000), "-0.5000");
    assert_eq!(format_amount(-100_000), "-10.0000");
    assert_eq!(format_amount(i64::MAX), "922337203685477.5807");
    assert_eq!(format_amount(i64::MIN), "-922337203685477.5808");
}

#[test]
fn accounts_render_as_output_rows() {
    let a = Account {
        id: 1,
        available: 70_000,
        held: 0,
        total: 70_000,
        frozen: false,
    };
    assert_eq!(render_account(&a), "1,7.0000,0.0000,7.0000,false");
    let b = Account {
        id: 65_535,
        available: -5,
        held: 10_000,
        total: 9_995,
        frozen: true,
    };
    assert_eq!(render_account(&b), "65535,-0.0005,1.0000,0.9995,true");
}

#[test]
fn parse_and_format_round_trip() {
    for s in ["0.0000", "10.0000", "0.0001", "922337203685477.5807", "3.1400"] {
        let v = parse_amount(s.as_bytes()).unwrap();
        assert_eq!(format_amount(v as i64), s);
    }
}
