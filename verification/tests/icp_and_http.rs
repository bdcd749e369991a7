use synexai::http::{transform_response, HttpHeader, HttpResponse, TransformArgs};
use synexai::icp::{icp_balance_answer, icp_lookup_start};

const ACCOUNT: &str = "582a244c0102030405060708090a0b0c0d0e0f101112131415161718191a1b1c";

#[test]
fn account_must_be_64_bytes() {
    assert_eq!(icp_lookup_start("abc"), Err("Account must be 64 characters long".to_string()));
    let multibyte = format!("{}é", "a".repeat(62));
    assert_eq!(multibyte.chars().count(), 63);
    assert_eq!(icp_lookup_start(&multibyte), Err("Invalid account".to_string()));
}

#[test]
fn bad_checksum_or_hex_is_invalid() {
    let bad_checksum = format!("00{}", &ACCOUNT[2..]);
    assert_eq!(icp_lookup_start(&bad_checksum), Err("Invalid account".to_string()));
    let not_hex = "zz".repeat(32);
    assert_eq!(icp_lookup_start(&not_hex), Err("Invalid account".to_string()));
}

#[test]
fn valid_account_gives_its_bytes() {
    let bytes = icp_lookup_start(ACCOUNT).unwrap();
    assert_eq!(bytes.len(), 32);
    assert_eq!(bytes[0], 0x58);
    assert_eq!(bytes[31], 0x1c);
    let upper = ACCOUNT.to_uppercase();
    assert_eq!(icp_lookup_start(&upper).unwrap(), bytes);
}

#[test]
fn balance_answer_shows_account_in_lower_case() {
    let bytes = icp_lookup_start(&ACCOUNT.to_uppercase()).unwrap();
    assert_eq!(
        icp_balance_answer(&bytes, 123_456_789),
        format!("Balance of {} is 1.23456789 ICP", ACCOUNT)
    );
    assert_eq!(
        icp_balance_answer(&bytes, 0),
        format!("Balance of {} is 0.00000000 ICP", ACCOUNT)
    );
    assert_eq!(
        icp_balance_answer(&bytes, 100_000_000),
        format!("Balance of {} is 1.00000000 ICP", ACCOUNT)
    );
}

#[test]
fn transform_drops_headers() {
    let raw = TransformArgs {
        response: HttpResponse {
            status: candid::Nat::from(200u64),
            headers: vec![HttpHeader { name: "Date".to_string(), value: "now".to_string() }],
            body: b"hello".to_vec(),
        },
        context: vec![1, 2],
    };
    let res = transform_response(raw);
    assert_eq!(res.status, candid::Nat::from(200u64));
    assert!(res.headers.is_empty());
    assert_eq!(res.body, b"hello".to_vec());
}
