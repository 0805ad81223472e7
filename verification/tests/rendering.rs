use tx_lineage::render::{format_btc, format_fee_line, format_hex, format_u64, render_report};
use tx_lineage::resolve::LineageReport;
use tx_lineage::types::Hash32;

#[test]
fn decimal_rendering() {
    assert_eq!(format_u64(0), "0");
    assert_eq!(format_u64(7), "7");
    assert_eq!(format_u64(102), "102");
    assert_eq!(format_u64(1_000_000), "1000000");
    assert_eq!(format_u64(u64::MAX), "18446744073709551615");
}

#[test]
fn whole_coin_rendering() {
    assert_eq!(format_btc(0), "0");
    assert_eq!(format_btc(100_000_000), "1");
    assert_eq!(format_btc(5_000_000_000), "50");
    assert_eq!(format_btc(2_000_000_000), "20");
    assert_eq!(format_btc(1), "0.00000001");
    assert_eq!(format_btc(123_456_789), "1.23456789");
    assert_eq!(format_btc(2_999_998_590), "29.9999859");
    assert_eq!(format_btc(250_000_000), "2.5");
}

#[test]
fn fee_line_rendering() {
    assert_eq!(format_fee_line(0), "-0.00e0");
    assert_eq!(format_fee_line(1410), "-1.41e-5");
    assert_eq!(format_fee_line(1), "-1.00e-8");
    assert_eq!(format_fee_line(155), "-1.55e-6");
    assert_eq!(format_fee_line(100_000_000), "-1.00e0");
    assert_eq!(format_fee_line(2_500_000_000), "-2.50e1");
}

#[test]
fn fee_line_rounds_half_up_at_third_digit() {
    assert_eq!(format_fee_line(19_999), "-2.00e-4");
    assert_eq!(format_fee_line(1414), "-1.41e-5");
    assert_eq!(format_fee_line(1415), "-1.42e-5");
    assert_eq!(format_fee_line(99_995), "-1.00e-3");
}

#[test]
fn hex_rendering() {
    let id = Hash32 { bytes: vec![0x00, 0x0f, 0xa0, 0xff] };
    assert_eq!(format_hex(&id), "000fa0ff");
}

#[test]
fn report_has_ten_lines_in_fixed_order() {
    let report = LineageReport {
        txid: Hash32 { bytes: vec![0xbb; 32] },
        funding_address: String::from("bcrt1qminerfunding"),
        funding_sats: 5_000_000_000,
        payment_address: String::from("bcrt1qtrader"),
        payment_sats: 2_000_000_000,
        change_address: String::from("bcrt1qminerchange"),
        change_sats: 2_999_998_590,
        fee_sats: 1410,
        block_height: 102,
        block_hash: Hash32 { bytes: vec![0x22; 32] },
    };
    let lines = render_report(&report);
    assert_eq!(lines.len(), 10);
    assert_eq!(lines[0], "bb".repeat(32));
    assert_eq!(lines[1], "bcrt1qminerfunding");
    assert_eq!(lines[2], "50");
    assert_eq!(lines[3], "bcrt1qtrader");
    assert_eq!(lines[4], "20");
    assert_eq!(lines[5], "bcrt1qminerchange");
    assert_eq!(lines[6], "29.9999859");
    assert_eq!(lines[7], "-1.41e-5");
    assert_eq!(lines[8], "102");
    assert_eq!(lines[9], "22".repeat(32));
}
