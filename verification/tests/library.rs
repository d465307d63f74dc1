use iela::decimal::{format_u128, parse_u128};
use iela::hex_text::{bytes_to_hex_str, decode_hex_str, strip_hex_prefix};
use iela::inscription::{
    inscription_payload, inscription_payload_from_hex, InscriptionDeploy, InscriptionMint,
};
use iela::mint_rules::{is_allow_mint, MintTally};
use iela::records::{Deployment, Mint, NewDeployment, NewMint, TxRecord};
use iela::sync::{BlockFetch, SyncAction, SyncCursor, SyncStep, RETRY_WAIT_SECS};
use iela::text::{utf8_text, wallet_key};

fn s(v: &str) -> String {
    v.to_string()
}

fn deployment(max: &str, minted: &str, lim: &str) -> Deployment {
    Deployment {
        id: 1,
        p: s("ierc-20"),
        op: s("deploy"),
        tick: s("ethi"),
        max: s(max),
        lim: s(lim),
        input_data: s("data:,{}"),
        minted: s(minted),
        holders: 0,
        trx_hash: s("0x01"),
        chain_id: 1,
        from_address: s("0xaa"),
        to_address: s("0xbb"),
        height: 10,
        timestamp: 20,
    }
}

fn mint_inscription(p: &str, op: &str, amt: &str) -> InscriptionMint {
    InscriptionMint { p: s(p), op: s(op), tick: s("ethi"), id: s("1"), amt: s(amt) }
}

fn mint_row(chain_id: i64, tick: &str) -> Mint {
    Mint {
        id: 3,
        p: s("ierc-20"),
        op: s("mint"),
        tick: s(tick),
        tick_id: s("1"),
        amt: s("1000"),
        input_data: s("data:,{}"),
        trx_hash: s("0x02"),
        chain_id,
        from_address: s("0xaa"),
        to_address: s("0xbb"),
        height: 11,
        timestamp: 21,
    }
}

#[test]
fn hex_text_of_bytes() {
    assert_eq!(bytes_to_hex_str(&[]), "0x");
    assert_eq!(bytes_to_hex_str(&[0xab, 0x01]), "0xab01");
    assert_eq!(bytes_to_hex_str(&[0x00, 0xff, 0x10]), "0x00ff10");
}

#[test]
fn hex_text_decoding() {
    assert_eq!(decode_hex_str("0xab01"), Some(vec![0xab, 0x01]));
    assert_eq!(decode_hex_str("0x0xAB"), Some(vec![0xab]));
    assert_eq!(decode_hex_str("aBcD"), Some(vec![0xab, 0xcd]));
    assert_eq!(decode_hex_str(""), Some(vec![]));
    assert_eq!(decode_hex_str("0x"), Some(vec![]));
    assert_eq!(decode_hex_str("0xabc"), None);
    assert_eq!(decode_hex_str("zz"), None);
    assert_eq!(decode_hex_str("0X12"), None);
    assert_eq!(decode_hex_str("éé"), None);
}

#[test]
fn hex_prefix_stripping() {
    assert_eq!(strip_hex_prefix("0x0x12"), "12");
    assert_eq!(strip_hex_prefix("x0x"), "x0x");
    assert_eq!(strip_hex_prefix("0x"), "");
    assert_eq!(strip_hex_prefix("00x1"), "00x1");
}

#[test]
fn hex_round_trip_on_values() {
    let bytes: Vec<u8> = vec![0x00, 0x0f, 0x78, 0xff, 0x30];
    assert_eq!(decode_hex_str(&bytes_to_hex_str(&bytes)), Some(bytes.clone()));
    assert_eq!(decode_hex_str(&bytes_to_hex_str(&[])), Some(vec![]));
}

#[test]
fn decimal_parsing() {
    assert_eq!(parse_u128("123"), Some(123));
    assert_eq!(parse_u128("+5"), Some(5));
    assert_eq!(parse_u128("007"), Some(7));
    assert_eq!(parse_u128("-5"), None);
    assert_eq!(parse_u128(""), None);
    assert_eq!(parse_u128("+"), None);
    assert_eq!(parse_u128("12a"), None);
    assert_eq!(parse_u128(" 1"), None);
    assert_eq!(parse_u128("340282366920938463463374607431768211455"), Some(u128::MAX));
    assert_eq!(parse_u128("340282366920938463463374607431768211456"), None);
    assert_eq!(parse_u128("1000000000000000000000000000000000000000x"), None);
}

#[test]
fn decimal_formatting() {
    assert_eq!(format_u128(0), "0");
    assert_eq!(format_u128(7), "7");
    assert_eq!(format_u128(1234), "1234");
    assert_eq!(format_u128(u128::MAX), u128::MAX.to_string());
}

#[test]
fn decimal_round_trip_on_values() {
    for n in [0u128, 9, 10, 99, 100, 21_000_000, u128::MAX - 1, u128::MAX] {
        assert_eq!(parse_u128(&format_u128(n)), Some(n));
    }
}

#[test]
fn utf8_input_text() {
    assert_eq!(utf8_text(&b"data:,{}".to_vec()), Some(s("data:,{}")));
    assert_eq!(utf8_text(&vec![0xe2, 0x82, 0xac]), Some(s("\u{20ac}")));
    assert_eq!(utf8_text(&vec![0xff, 0x00]), None);
}

#[test]
fn wallet_key_is_lower_case() {
    assert_eq!(wallet_key("0xABCdef12"), "0xabcdef12");
    assert_eq!(wallet_key("0xabc"), "0xabc");
}

#[test]
fn inscription_framing() {
    assert_eq!(inscription_payload(&b"data:,{}".to_vec()), Some(b"{}".to_vec()));
    assert_eq!(
        inscription_payload(&b"data:,{\"p\":\"ierc-20\"}".to_vec()),
        Some(b"{\"p\":\"ierc-20\"}".to_vec())
    );
    assert_eq!(inscription_payload(&b"data:,{".to_vec()), None);
    assert_eq!(inscription_payload(&b"data;,{}".to_vec()), None);
    assert_eq!(inscription_payload(&b"xdata:,{}".to_vec()), None);
    assert_eq!(inscription_payload(&vec![]), None);
}

#[test]
fn inscription_framing_from_hex() {
    let hex = bytes_to_hex_str(b"data:,{}");
    assert_eq!(inscription_payload_from_hex(&hex), Some(b"{}".to_vec()));
    assert_eq!(inscription_payload_from_hex("646174613a2c7b7d"), Some(b"{}".to_vec()));
    assert_eq!(inscription_payload_from_hex("0x646174613a2c7b"), None);
    assert_eq!(inscription_payload_from_hex("0x6461zz"), None);
}

#[test]
fn transaction_record() {
    let rec = TxRecord::new(&b"data:,{}".to_vec(), &[0x12, 0xab], &[0x01], &[0x00, 0x02], 5, 100, 1700)
        .unwrap();
    assert_eq!(rec.input_data, "data:,{}");
    assert_eq!(rec.trx_hash, "0x12ab");
    assert_eq!(rec.from_address, "0x01");
    assert_eq!(rec.to_address, "0x0002");
    assert_eq!(rec.chain_id, 5);
    assert_eq!(rec.height, 100);
    assert_eq!(rec.timestamp, 1700);
    assert!(TxRecord::new(&vec![0xff], &[], &[], &[], 1, 1, 1).is_none());
}

#[test]
fn new_deployment_starts_empty() {
    let rec = TxRecord::new(&b"data:,{}".to_vec(), &[0x01], &[0x02], &[0x03], 1, 2, 3).unwrap();
    let data = InscriptionDeploy {
        p: s("ierc-20"),
        op: s("deploy"),
        tick: s("ethi"),
        max: s("21000000"),
        lim: s("1000"),
    };
    let row: NewDeployment = NewDeployment::from_inscription(&data, &rec);
    assert_eq!(row.minted, "0");
    assert_eq!(row.holders, 0);
    assert_eq!(row.tick, "ethi");
    assert_eq!(row.max, "21000000");
    assert_eq!(row.lim, "1000");
    assert_eq!(row.trx_hash, "0x01");
    assert_eq!(row.from_address, "0x02");
    assert_eq!(row.to_address, "0x03");
    assert_eq!(row.height, 2);
    assert_eq!(row.timestamp, 3);
}

#[test]
fn new_mint_keeps_id_as_tick_id() {
    let rec = TxRecord::new(&b"data:,{}".to_vec(), &[0x01], &[0x02], &[0x03], 1, 2, 3).unwrap();
    let data = InscriptionMint {
        p: s("ierc-20"),
        op: s("mint"),
        tick: s("ethi"),
        id: s("42"),
        amt: s("1000"),
    };
    let row: NewMint = NewMint::from_inscription(&data, &rec);
    assert_eq!(row.tick_id, "42");
    assert_eq!(row.amt, "1000");
    assert_eq!(row.op, "mint");
    assert_eq!(row.chain_id, 1);
    assert_eq!(row.input_data, "data:,{}");
}

#[test]
fn mint_rules_acceptance() {
    let d = deployment("21000000", "0", "1000");
    assert!(is_allow_mint(Some(&d), &mint_inscription("ierc-20", "mint", "1000")));
    assert!(!is_allow_mint(None, &mint_inscription("ierc-20", "mint", "1000")));
    assert!(!is_allow_mint(Some(&d), &mint_inscription("ierc-20", "deploy", "1000")));
    assert!(!is_allow_mint(Some(&d), &mint_inscription("ierc-20", "mint", "999")));
    assert!(!is_allow_mint(Some(&d), &mint_inscription("ierc-21", "mint", "1000")));
    let bad_max = deployment("lots", "0", "1000");
    assert!(!is_allow_mint(Some(&bad_max), &mint_inscription("ierc-20", "mint", "1000")));
    let bad_minted = deployment("100", "x", "1000");
    assert!(!is_allow_mint(Some(&bad_minted), &mint_inscription("ierc-20", "mint", "1000")));
    let full = deployment("21000000", "21000000", "1000");
    assert!(!is_allow_mint(Some(&full), &mint_inscription("ierc-20", "mint", "1000")));
    let almost = deployment("21000000", "20999999", "1000");
    assert!(is_allow_mint(Some(&almost), &mint_inscription("ierc-20", "mint", "1000")));
}

#[test]
fn first_mint_of_owner() {
    let d = deployment("100", "0", "10");
    assert!(d.is_first_mint(&vec![]));
    assert!(d.is_first_mint(&vec![mint_row(2, "ethi"), mint_row(1, "other")]));
    assert!(!d.is_first_mint(&vec![mint_row(2, "ethi"), mint_row(1, "ethi")]));
}

#[test]
fn tally_of_mints() {
    let d = deployment("100", "40", "10");
    match d.tally_mint(&vec![], 10) {
        MintTally::Update { minted, add_holder } => {
            assert_eq!(minted, "50");
            assert_eq!(add_holder, 1);
        }
        other => panic!("unexpected {:?}", other),
    }
    match d.tally_mint(&vec![mint_row(1, "ethi")], 10) {
        MintTally::Update { minted, add_holder } => {
            assert_eq!(minted, "50");
            assert_eq!(add_holder, 0);
        }
        other => panic!("unexpected {:?}", other),
    }
    let bad = deployment("100", "forty", "10");
    assert!(matches!(bad.tally_mint(&vec![], 10), MintTally::BadMinted));
    let top = deployment("100", "340282366920938463463374607431768211455", "10");
    assert!(matches!(top.tally_mint(&vec![], 1), MintTally::Overflow));
}

#[test]
fn sync_cursor_steps() {
    let c = SyncCursor::new(5, 6);
    assert_eq!(c.next_action(), SyncAction::Fetch(5));
    assert_eq!(
        c.step(BlockFetch::Missing),
        SyncStep::Continue { cursor: c, wait_secs: RETRY_WAIT_SECS }
    );
    assert_eq!(
        c.step(BlockFetch::Failed),
        SyncStep::Continue { cursor: c, wait_secs: 30 }
    );
    assert_eq!(
        c.step(BlockFetch::Found),
        SyncStep::Continue { cursor: SyncCursor::new(6, 6), wait_secs: 0 }
    );
    assert_eq!(SyncCursor::new(7, 6).next_action(), SyncAction::Finished);
    assert_eq!(SyncCursor::new(3, 2).next_action(), SyncAction::Finished);
    let last = SyncCursor::new(u64::MAX, u64::MAX);
    assert_eq!(last.step(BlockFetch::Found), SyncStep::HeightOverflow);
}

#[test]
fn sync_run_processes_blocks_in_order() {
    let outcomes = [
        BlockFetch::Failed,
        BlockFetch::Found,
        BlockFetch::Missing,
        BlockFetch::Missing,
        BlockFetch::Found,
        BlockFetch::Failed,
        BlockFetch::Found,
        BlockFetch::Found,
    ];
    let mut cursor = SyncCursor::new(10, 12);
    let mut processed = Vec::new();
    let mut waited = 0u64;
    for outcome in outcomes {
        match cursor.next_action() {
            SyncAction::Finished => break,
            SyncAction::Fetch(h) => {
                if outcome == BlockFetch::Found {
                    processed.push(h);
                }
                match cursor.step(outcome) {
                    SyncStep::Continue { cursor: next, wait_secs } => {
                        cursor = next;
                        waited += wait_secs;
                    }
                    SyncStep::HeightOverflow => panic!("overflow"),
                }
            }
        }
    }
    assert_eq!(processed, vec![10, 11, 12]);
    assert_eq!(waited, 4 * RETRY_WAIT_SECS);
    assert_eq!(cursor.next_action(), SyncAction::Finished);
}
