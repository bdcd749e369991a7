use synexai::http::{HttpOutcome, HttpPost};
use synexai::sui::{
    balance_request, balances_answer, coin_line, shorten_coin_type, sui_lookup_begin,
    sui_lookup_step, sui_reply_defined, BalanceLine, SuiAction, SuiLookup, SuiOutcome,
};

fn address() -> String {
    format!("0x{}", "2b4d".repeat(16))
}

fn lookup() -> SuiLookup {
    SuiLookup { address: address() }
}

fn reply(body: &str) -> HttpOutcome {
    HttpOutcome::Reply { status: Some(200), body: body.as_bytes().to_vec() }
}

fn entry(coin: &str, total: &str) -> String {
    format!(r#"{{"coinType":"{}","totalBalance":"{}"}}"#, coin, total)
}

fn balances(items: &[String]) -> String {
    format!(r#"{{"jsonrpc":"2.0","id":1,"result":[{}]}}"#, items.join(","))
}

fn message(action: SuiAction) -> String {
    match action {
        SuiAction::Finish(SuiOutcome::Message(m)) => m,
        _ => panic!("expected a message"),
    }
}

fn fetched(action: SuiAction) -> HttpPost {
    match action {
        SuiAction::Fetch(req) => req,
        _ => panic!("expected a request"),
    }
}

fn all_failed() -> String {
    format!("Failed to get balance for {} from all Sui endpoints", address())
}

fn step_message(outcome: HttpOutcome) -> String {
    let (state, action) = sui_lookup_step(lookup(), outcome);
    assert_eq!(state.address, address());
    message(action)
}

#[test]
fn invalid_format_is_reported_with_byte_length() {
    let (_, action) = sui_lookup_begin("0x1234");
    assert_eq!(
        message(action),
        "Invalid Sui address format. Must be 66 characters starting with 0x. Received: 0x1234 (length: 6)"
    );
    let (_, action) = sui_lookup_begin("");
    assert_eq!(
        message(action),
        "Invalid Sui address format. Must be 66 characters starting with 0x. Received:  (length: 0)"
    );
}

#[test]
fn non_hex_address_is_reported() {
    let bad = format!("0x{}z", "a".repeat(63));
    let (_, action) = sui_lookup_begin(&bad);
    assert_eq!(message(action), "Invalid Sui address. Contains non-hexadecimal characters");
}

#[test]
fn valid_address_asks_testnet() {
    let (state, action) = sui_lookup_begin(&address());
    assert_eq!(state.address, address());
    let req = fetched(action);
    assert_eq!(req.url, "https://fullnode.testnet.sui.io");
    assert_eq!(
        req.body,
        format!(
            r#"{{"jsonrpc":"2.0","id":1,"method":"suix_getAllBalances","params":["{}"]}}"#,
            address()
        )
    );
    assert_eq!(req.max_response_bytes, 8192);
    assert_eq!(req.cycles, 25_000_000_000);
    assert_eq!(req.headers.len(), 1);
    assert_eq!(req.headers[0].name, "Content-Type");
    assert_eq!(req.headers[0].value, "application/json");
}

#[test]
fn balance_request_goes_to_testnet() {
    let req = balance_request("0xabc");
    assert_eq!(req.url, "https://fullnode.testnet.sui.io");
    assert!(req.body.contains(r#""params":["0xabc"]"#));
}

#[test]
fn failed_call_gives_up() {
    assert_eq!(step_message(HttpOutcome::Failed), all_failed());
}

#[test]
fn bad_status_non_utf8_empty_and_non_json_bodies_give_up() {
    let ok_body = balances(&[entry("0x2::sui::SUI", "1")]);
    let not_found = HttpOutcome::Reply { status: Some(404), body: ok_body.as_bytes().to_vec() };
    assert_eq!(step_message(not_found), all_failed());
    let no_status = HttpOutcome::Reply { status: None, body: ok_body.as_bytes().to_vec() };
    assert_eq!(step_message(no_status), all_failed());
    let bad_utf8 = HttpOutcome::Reply { status: Some(200), body: vec![0xff, 0xfe] };
    assert_eq!(step_message(bad_utf8), all_failed());
    assert_eq!(step_message(reply("")), all_failed());
    assert_eq!(step_message(reply("not json {")), all_failed());
    let ok_299 = HttpOutcome::Reply { status: Some(299), body: ok_body.as_bytes().to_vec() };
    assert!(matches!(sui_lookup_step(lookup(), ok_299).1, SuiAction::Finish(SuiOutcome::Balances { .. })));
}

#[test]
fn rpc_error_is_reported() {
    let error = r#"{"jsonrpc":"2.0","error":{"code":-32000,"message":"boom"}}"#;
    assert_eq!(step_message(reply(error)), "RPC Error from testnet -32000: boom");
    let bare = r#"{"error":{}}"#;
    assert_eq!(step_message(reply(bare)), "RPC Error from testnet -1: Unknown RPC error");
    let odd = r#"{"error":{"code":"x","message":7}}"#;
    assert_eq!(step_message(reply(odd)), "RPC Error from testnet -1: Unknown RPC error");
}

#[test]
fn invalid_params_error_gives_up() {
    let by_code = r#"{"error":{"code":-32602,"message":"bad"}}"#;
    assert_eq!(step_message(reply(by_code)), all_failed());
    let by_text = r#"{"error":{"code":1,"message":"x Invalid params y"}}"#;
    assert_eq!(step_message(reply(by_text)), all_failed());
}

#[test]
fn no_balances_on_testnet() {
    assert_eq!(
        step_message(reply(&balances(&[]))),
        format!("Address {} has no balances on Sui testnet", address())
    );
}

#[test]
fn result_that_is_not_an_array_gives_up() {
    assert_eq!(step_message(reply(r#"{"result":"x"}"#)), all_failed());
    assert_eq!(step_message(reply("{}")), all_failed());
    assert_eq!(step_message(reply("[1,2]")), all_failed());
}

#[test]
fn balances_are_listed() {
    let long = format!("0x{}::coin::COIN", "a".repeat(60));
    let items = [
        entry("0x2::sui::SUI", "1500000000"),
        r#"{"coinType":"0x9::x::X"}"#.to_string(),
        entry(&long, "+42"),
    ];
    let (_, action) = sui_lookup_step(lookup(), reply(&balances(&items)));
    match action {
        SuiAction::Finish(SuiOutcome::Balances { network, lines }) => {
            assert_eq!(network, "testnet");
            assert_eq!(lines.len(), 2);
            assert!(matches!(lines[0], BalanceLine::Sui { mist: 1500000000 }));
            match &lines[1] {
                BalanceLine::Coin { amount, coin } => {
                    assert_eq!(*amount, 42);
                    assert_eq!(coin, &format!("{}...{}", &long[..20], &long[long.len() - 10..]));
                }
                _ => panic!("expected a coin line"),
            }
        }
        _ => panic!("expected balances"),
    }
}

#[test]
fn unparsable_balance_is_reported() {
    let items = [entry("0x2::sui::SUI", "12"), entry("0x3::a::A", "abc"), entry("0x4::b::B", "x")];
    assert_eq!(
        step_message(reply(&balances(&items))),
        "Error parsing balance value 'abc': invalid digit found in string"
    );
    assert_eq!(
        step_message(reply(&balances(&[entry("0x2::sui::SUI", "-1")]))),
        "Error parsing balance value '-1': invalid digit found in string"
    );
    assert_eq!(
        step_message(reply(&balances(&[entry("0x2::sui::SUI", "18446744073709551616")]))),
        "Error parsing balance value '18446744073709551616': number too large to fit in target type"
    );
    assert_eq!(
        step_message(reply(&balances(&[entry("0x2::sui::SUI", "")]))),
        "Error parsing balance value '': cannot parse integer from empty string"
    );
}

#[test]
fn entries_without_strings_are_not_parsed() {
    let items = [r#"{"coinType":"0x2::sui::SUI"}"#.to_string(), r#""x""#.to_string(), r#"{"coinType":"0x2::sui::SUI","totalBalance":5}"#.to_string()];
    assert_eq!(
        step_message(reply(&balances(&items))),
        format!("Address {} has balances but couldn't parse them on testnet", address())
    );
}

#[test]
fn coin_type_cut_inside_a_character_is_flagged() {
    let coin = format!("{}é{}", "a".repeat(19), "b".repeat(40));
    let outcome = reply(&balances(&[entry(&coin, "1")]));
    assert!(!sui_reply_defined(&outcome));
    let fine = reply(&balances(&[entry(&"c".repeat(60), "1")]));
    assert!(sui_reply_defined(&fine));
    assert!(sui_reply_defined(&HttpOutcome::Failed));
    assert!(sui_reply_defined(&reply("not json")));
}

#[test]
fn short_coin_types_are_kept() {
    assert_eq!(shorten_coin_type("0x2::coin::USDC"), "0x2::coin::USDC");
    let exactly = "d".repeat(50);
    assert_eq!(shorten_coin_type(&exactly), exactly);
    let longer = format!("{}{}", "e".repeat(41), "0123456789");
    assert_eq!(shorten_coin_type(&longer), format!("{}...0123456789", "e".repeat(20)));
}

#[test]
fn balance_answer_text() {
    let rendered = vec!["1.500000 SUI".to_string(), coin_line(42, "0x3::a::A")];
    assert_eq!(
        balances_answer("0xabc", "mainnet", &rendered),
        "Balances for 0xabc on Sui mainnet: 1.500000 SUI, 42 0x3::a::A"
    );
    assert_eq!(balances_answer("0xabc", "testnet", &vec![]), "Balances for 0xabc on Sui testnet: ");
}
