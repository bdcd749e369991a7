//! Looking up the balances of a Sui address over the Sui JSON-RPC interface,
//! as a state machine: the library decides which request to send next and
//! what to answer; the caller sends the requests and reports their outcomes.
use vstd::prelude::*;
use vstd::string::StringSliceAdditionalSpecFns;
use vstd::utf8::{
    decode_utf8, encode_utf8, encode_utf8_decode_utf8, is_char_boundary, valid_utf8,
};
use crate::address::is_sui_address;
use crate::http::{HttpHeader, HttpOutcome, HttpPost};
use crate::json::{json_get, json_i64, json_items, json_text, parse_json, parsed_document, JsonValue};
use std::num::ParseIntError;
use vstd::string::to_string_from_display_ensures;
use crate::text::{
    all_hex, chars_of, contains_text, decimal, has_substring, parse_u64, parsed_u64, u64_parse_error,
    push_decimal, push_signed_decimal, signed_decimal, utf8_text,
};

verus! {

/// The byte limit on a Sui reply.
pub const SUI_MAX_RESPONSE_BYTES: u64 = 8192;

/// The cycles attached to each Sui request.
pub const SUI_REQUEST_CYCLES: u128 = 25_000_000_000;

/// One balance of an address: SUI in MIST, or an amount of another coin
/// with its (shortened) coin type.
pub enum BalanceLine {
    Sui { mist: u64 },
    Coin { amount: u64, coin: String },
}

/// The answer of a lookup: a message, or the balances found on a network.
pub enum SuiOutcome {
    Message(String),
    Balances { network: String, lines: Vec<BalanceLine> },
}

/// What to do next: send a request, or answer.
pub enum SuiAction {
    Fetch(HttpPost),
    Finish(SuiOutcome),
}

/// A lookup in progress, for the address it looks up.
pub struct SuiLookup {
    pub address: String,
}

/// A balance line, as values.
pub enum LineView {
    Sui(u64),
    Coin(u64, Seq<char>),
}

/// What a reply decides: no answer came (the lookup failed), answer with a
/// message, answer with the failure to parse the given balance value, or
/// answer with balances.
pub enum SuiDecision {
    NoAnswer,
    Reply(Seq<char>),
    ParseFailure(Seq<char>),
    Lines(Seq<LineView>),
}

pub open spec fn line_view(l: BalanceLine) -> LineView {
    match l {
        BalanceLine::Sui { mist } => LineView::Sui(mist),
        BalanceLine::Coin { amount, coin } => LineView::Coin(amount, coin@),
    }
}

pub open spec fn lines_view(ls: Seq<BalanceLine>) -> Seq<LineView> {
    ls.map_values(|l: BalanceLine| line_view(l))
}

/// The URL of the Sui testnet JSON-RPC endpoint, which every lookup asks.
pub open spec fn endpoint_url() -> Seq<char> {
    "https://fullnode.testnet.sui.io"@
}

/// The name of the network that is asked.
pub open spec fn network_name() -> Seq<char> {
    "testnet"@
}

/// The JSON-RPC call that asks for all balances of `address`.
pub open spec fn request_body(address: Seq<char>) -> Seq<char> {
    "{\"jsonrpc\":\"2.0\",\"id\":1,\"method\":\"suix_getAllBalances\",\"params\":[\""@ + address
        + "\"]}"@
}

/// `req` asks the testnet endpoint for all balances of `address`.
pub open spec fn is_balance_request(req: HttpPost, address: Seq<char>) -> bool {
    &&& req.url@ == endpoint_url()
    &&& req.body@ == request_body(address)
    &&& req.max_response_bytes == SUI_MAX_RESPONSE_BYTES
    &&& req.headers@.len() == 1
    &&& req.headers@[0].name@ == "Content-Type"@
    &&& req.headers@[0].value@ == "application/json"@
    &&& req.cycles == SUI_REQUEST_CYCLES
}

/// `address` starts with `0x` and is 66 bytes long in UTF-8.
pub open spec fn sui_format_ok(address: &str) -> bool {
    address@.len() >= 2 && address@[0] == '0' && address@[1] == 'x' && address.len() == 66
}

/// The answer to an address that does not start with `0x` or is not 66 bytes long.
pub open spec fn invalid_format_text(address: &str) -> Seq<char> {
    "Invalid Sui address format. Must be 66 characters starting with 0x. Received: "@ + address@
        + " (length: "@ + decimal(address.len() as nat) + ")"@
}

pub open spec fn non_hex_text() -> Seq<char> {
    "Invalid Sui address. Contains non-hexadecimal characters"@
}

pub open spec fn rpc_error_text(network: Seq<char>, code: int, message: Seq<char>) -> Seq<char> {
    "RPC Error from "@ + network + " "@ + signed_decimal(code) + ": "@ + message
}

pub open spec fn no_balances_text(address: Seq<char>, network: Seq<char>) -> Seq<char> {
    "Address "@ + address + " has no balances on Sui "@ + network
}

pub open spec fn unparsed_text(address: Seq<char>, network: Seq<char>) -> Seq<char> {
    "Address "@ + address + " has balances but couldn't parse them on "@ + network
}

pub open spec fn parse_failure_prefix(value: Seq<char>) -> Seq<char> {
    "Error parsing balance value '"@ + value + "': "@
}

/// `m` says that the total balance `value` is not a `u64`: the prefix, then
/// the text that the error of parsing `value` as a `u64` displays.
pub open spec fn parse_failure_text(value: Seq<char>, m: Seq<char>) -> bool {
    exists|d: String|
        #[trigger] to_string_from_display_ensures::<ParseIntError>(&u64_parse_error(value), d)
            && m == parse_failure_prefix(value) + d@
}

pub open spec fn all_failed_text(address: Seq<char>) -> Seq<char> {
    "Failed to get balance for "@ + address + " from all Sui endpoints"@
}

/// `a` answers with the message `m`.
pub open spec fn answers(a: SuiAction, m: Seq<char>) -> bool {
    match a {
        SuiAction::Finish(SuiOutcome::Message(x)) => x@ == m,
        _ => false,
    }
}

/// `a` asks the testnet endpoint for all balances of `address`.
pub open spec fn fetches(a: SuiAction, address: Seq<char>) -> bool {
    match a {
        SuiAction::Fetch(req) => is_balance_request(req, address),
        _ => false,
    }
}

/// A lookup is under way for a valid address.
pub open spec fn lookup_wf(s: SuiLookup) -> bool {
    is_sui_address(s.address@)
}

fn text_from(parts: &str) -> (s: String)
    ensures
        s@ == parts@,
{
    String::from_str(parts)
}

/// The request for all balances of `address`, to the testnet endpoint.
pub fn balance_request(address: &str) -> (req: HttpPost)
    ensures
        is_balance_request(req, address@),
{
    let url = text_from("https://fullnode.testnet.sui.io");
    let mut body = text_from(
        "{\"jsonrpc\":\"2.0\",\"id\":1,\"method\":\"suix_getAllBalances\",\"params\":[\"",
    );
    body.append(address);
    body.append("\"]}");
    let mut headers: Vec<HttpHeader> = Vec::new();
    headers.push(
        HttpHeader { name: text_from("Content-Type"), value: text_from("application/json") },
    );
    HttpPost {
        url,
        body,
        max_response_bytes: SUI_MAX_RESPONSE_BYTES,
        headers,
        cycles: SUI_REQUEST_CYCLES,
    }
}

/// The name of the network that is asked.
pub fn network_of() -> (n: String)
    ensures
        n@ == network_name(),
{
    text_from("testnet")
}

/// Starts a lookup for `address`: asks the Sui testnet when the address is
/// `0x` and 64 hexadecimal digits, and otherwise answers why it is not.
pub fn sui_lookup_begin(address: &str) -> (r: (SuiLookup, SuiAction))
    ensures
        !sui_format_ok(address) ==> answers(r.1, invalid_format_text(address)),
        sui_format_ok(address) && !is_sui_address(address@) ==> answers(r.1, non_hex_text()),
        is_sui_address(address@) ==> lookup_wf(r.0) && fetches(r.1, address@),
        r.0.address@ == address@,
{
    let state = SuiLookup { address: String::from_str(address) };
    let chars = chars_of(address);
    let byte_len = address.len();
    proof {
        if address@.len() >= 2 && address@[0] == '0' && address@[1] == 'x' {
            crate::address::lemma_sui_address_byte_length(address@);
            if all_hex(address@.subrange(2, address@.len() as int)) {
                assert(encode_utf8(address@).len() == chars@.len());
            }
        }
    }
    if chars.len() < 2 || chars[0] != '0' || chars[1] != 'x' || byte_len != 66 {
        let mut m = text_from(
            "Invalid Sui address format. Must be 66 characters starting with 0x. Received: ",
        );
        m.append(address);
        m.append(" (length: ");
        push_decimal(&mut m, byte_len as u64);
        m.append(")");
        assert(m@ =~= invalid_format_text(address));
        return (state, SuiAction::Finish(SuiOutcome::Message(m)));
    }
    if !crate::address::all_hex_from(&chars, 2) {
        return (state, SuiAction::Finish(SuiOutcome::Message(text_from(
            "Invalid Sui address. Contains non-hexadecimal characters",
        ))));
    }
    let req = balance_request(address);
    (state, SuiAction::Fetch(req))
}

/// The coin type of SUI itself.
pub open spec fn sui_coin_type() -> Seq<char> {
    "0x2::sui::SUI"@
}

/// A coin type as shown: when it is longer than 50 bytes, its first 20 bytes,
/// `...`, and its last 10 bytes.
pub open spec fn short_coin_type(coin: Seq<char>) -> Seq<char> {
    let b = encode_utf8(coin);
    if b.len() > 50 {
        decode_utf8(b.subrange(0, 20)) + "..."@ + decode_utf8(b.subrange(b.len() - 10, b.len() as int))
    } else {
        coin
    }
}

/// Cutting a long coin type falls on character boundaries (elsewhere the cut
/// traps).
pub open spec fn short_coin_type_defined(coin: Seq<char>) -> bool {
    let b = encode_utf8(coin);
    b.len() > 50 ==> is_char_boundary(b, 20) && is_char_boundary(b, b.len() - 10)
}

/// The coin type and total balance of a balance entry, when both are strings.
pub open spec fn entry_strings(v: JsonValue) -> Option<(Seq<char>, Seq<char>)> {
    match (json_text(json_get(v, "coinType"@)), json_text(json_get(v, "totalBalance"@))) {
        (Some(c), Some(t)) => Some((c, t)),
        _ => None,
    }
}

/// The balance lines of the balance entries, in order, skipping entries that
/// lack a coin type or total balance; or the first total balance that is not
/// a `u64` numeral.
pub open spec fn collect_lines(items: Seq<JsonValue>) -> Result<Seq<LineView>, Seq<char>>
    decreases items.len(),
{
    if items.len() == 0 {
        Ok(Seq::empty())
    } else {
        match collect_lines(items.drop_last()) {
            Err(t) => Err(t),
            Ok(prev) => match entry_strings(items.last()) {
                None => Ok(prev),
                Some((c, t)) => match parsed_u64(t) {
                    None => Err(t),
                    Some(v) => if c == sui_coin_type() {
                        Ok(prev.push(LineView::Sui(v)))
                    } else {
                        Ok(prev.push(LineView::Coin(v, short_coin_type(c))))
                    },
                },
            },
        }
    }
}

/// Collecting the balance lines cuts no coin type inside a character.
pub open spec fn lines_defined(items: Seq<JsonValue>) -> bool
    decreases items.len(),
{
    if items.len() == 0 {
        true
    } else {
        &&& lines_defined(items.drop_last())
        &&& collect_lines(items.drop_last()) is Ok ==> match entry_strings(items.last()) {
            Some((c, t)) => (parsed_u64(t) is Some && c != sui_coin_type())
                ==> short_coin_type_defined(c),
            None => true,
        }
    }
}

proof fn lemma_lines_defined_prefix(items: Seq<JsonValue>, k: int)
    requires
        lines_defined(items),
        0 <= k <= items.len(),
    ensures
        lines_defined(items.take(k)),
    decreases items.len() - k,
{
    if k < items.len() {
        lemma_lines_defined_prefix(items, k + 1);
        assert(items.take(k + 1).drop_last() =~= items.take(k));
    } else {
        assert(items.take(k) =~= items);
    }
}

/// A coin type as shown (see `short_coin_type`).
pub fn shorten_coin_type(coin: &str) -> (r: String)
    requires
        short_coin_type_defined(coin@),
    ensures
        r@ == short_coin_type(coin@),
{
    let n = coin.as_bytes().len();
    proof {
        assert(coin.spec_bytes() == encode_utf8(coin@));
        assert(n == encode_utf8(coin@).len());
    }
    if n > 50 {
        let (head, _) = coin.split_at(20);
        let (_, tail) = coin.split_at(n - 10);
        proof {
            encode_utf8_decode_utf8(head@);
            encode_utf8_decode_utf8(tail@);
            assert(head@ == decode_utf8(encode_utf8(coin@).subrange(0, 20)));
        }
        let mut r = String::from_str(head);
        r.append("...");
        r.append(tail);
        r
    } else {
        String::from_str(coin)
    }
}

/// The balance lines of `items` (see `collect_lines`); on a total balance that
/// is not a `u64` numeral, the message that says so.
pub fn collect_balance_lines(items: &Vec<JsonValue>) -> (r: Result<Vec<BalanceLine>, String>)
    requires
        lines_defined(items@),
    ensures
        match collect_lines(items@) {
            Ok(ls) => r matches Ok(v) && lines_view(v@) == ls,
            Err(t) => r matches Err(m) && parse_failure_text(t, m@),
        },
{
    let mut lines: Vec<BalanceLine> = Vec::new();
    let mut k: usize = 0;
    let sui = text_from("0x2::sui::SUI");
    assert(items@.take(0) =~= Seq::<JsonValue>::empty());
    assert(lines_view(lines@) =~= Seq::<LineView>::empty());
    while k < items.len()
        invariant
            k <= items.len(),
            sui@ == sui_coin_type(),
            lines_defined(items@),
            collect_lines(items@.take(k as int)) == Ok::<Seq<LineView>, Seq<char>>(
                lines_view(lines@),
            ),
        decreases items.len() - k,
    {
        let ghost prefix = items@.take(k + 1);
        proof {
            lemma_lines_defined_prefix(items@, k + 1);
            assert(prefix.drop_last() =~= items@.take(k as int));
            assert(prefix.last() == items@[k as int]);
        }
        let item = &items[k];
        let coin = match item.get("coinType") {
            Some(v) => v.as_text(),
            None => None,
        };
        let total = match item.get("totalBalance") {
            Some(v) => v.as_text(),
            None => None,
        };
        match (coin, total) {
            (Some(c), Some(t)) => {
                match parse_u64(t.as_str()) {
                    Ok(v) => {
                        if *c == sui {
                            lines.push(BalanceLine::Sui { mist: v });
                        } else {
                            let short = shorten_coin_type(c.as_str());
                            lines.push(BalanceLine::Coin { amount: v, coin: short });
                        }
                    },
                    Err(e) => {
                        let mut m = text_from("Error parsing balance value '");
                        m.append(t.as_str());
                        m.append("': ");
                        let detail = e.to_string();
                        let ghost before = m@;
                        m.append(detail.as_str());
                        proof {
                            assert(before == parse_failure_prefix(t@));
                            assert(to_string_from_display_ensures::<ParseIntError>(&e, detail));
                            assert(m@ == parse_failure_prefix(t@) + detail@);
                            assert(collect_lines(items@) == Err::<Seq<LineView>, Seq<char>>(t@))
                                by {
                                lemma_collect_err_persists(items@, k + 1, t@);
                            }
                        }
                        return Err(m);
                    },
                }
            },
            _ => {},
        }
        proof {
            assert(lines_view(lines@) =~= match collect_lines(prefix) {
                Ok(ls) => ls,
                Err(_) => Seq::empty(),
            });
        }
        k = k + 1;
    }
    assert(items@.take(k as int) =~= items@);
    Ok(lines)
}

/// Once collecting fails on a prefix, it fails on the whole with the same value.
proof fn lemma_collect_err_persists(items: Seq<JsonValue>, k: int, t: Seq<char>)
    requires
        0 <= k <= items.len(),
        collect_lines(items.take(k)) == Err::<Seq<LineView>, Seq<char>>(t),
    ensures
        collect_lines(items) == Err::<Seq<LineView>, Seq<char>>(t),
    decreases items.len() - k,
{
    if k < items.len() {
        assert(items.take(k + 1).drop_last() =~= items.take(k));
        lemma_collect_err_persists(items, k + 1, t);
    } else {
        assert(items.take(k) =~= items);
    }
}

/// What a parsed reply document decides.
pub open spec fn document_decision(address: Seq<char>, j: JsonValue) -> SuiDecision {
    let network = network_name();
    match json_get(j, "error"@) {
        Some(e) => {
            let message = match json_text(json_get(e, "message"@)) {
                Some(m) => m,
                None => "Unknown RPC error"@,
            };
            let code: int = match json_i64(json_get(e, "code"@)) {
                Some(c) => c as int,
                None => -1,
            };
            if code == -32602 || has_substring(message, "Invalid params"@) {
                SuiDecision::NoAnswer
            } else {
                SuiDecision::Reply(rpc_error_text(network, code, message))
            }
        },
        None => match json_items(json_get(j, "result"@)) {
            None => SuiDecision::NoAnswer,
            Some(items) => if items.len() == 0 {
                SuiDecision::Reply(no_balances_text(address, network))
            } else {
                match collect_lines(items) {
                    Err(t) => SuiDecision::ParseFailure(t),
                    Ok(ls) => if ls.len() == 0 {
                        SuiDecision::Reply(unparsed_text(address, network))
                    } else {
                        SuiDecision::Lines(ls)
                    },
                }
            },
        },
    }
}

/// The status is a success (2xx).
pub open spec fn status_ok(status: Option<u64>) -> bool {
    status matches Some(s) && 200 <= s < 300
}

/// What the outcome of the request decides: a failed call, a status other
/// than 2xx, a body that is not UTF-8, an empty body, or a body that is not a
/// JSON document gives no answer; otherwise the document, parsed from the
/// decoded body, decides.
pub open spec fn reply_decision(address: Seq<char>, outcome: HttpOutcome) -> SuiDecision {
    match outcome {
        HttpOutcome::Failed => SuiDecision::NoAnswer,
        HttpOutcome::Reply { status, body } => {
            if !status_ok(status) || !valid_utf8(body@) || decode_utf8(body@).len() == 0 {
                SuiDecision::NoAnswer
            } else {
                match parsed_document(decode_utf8(body@)) {
                    None => SuiDecision::NoAnswer,
                    Some(j) => document_decision(address, j),
                }
            }
        },
    }
}

/// Handling the document cuts no coin type inside a character.
pub open spec fn document_defined(j: JsonValue) -> bool {
    json_get(j, "error"@) is None ==> match json_items(json_get(j, "result"@)) {
        Some(items) => items.len() > 0 ==> lines_defined(items),
        None => true,
    }
}

/// Handling the outcome cuts no coin type inside a character.
pub open spec fn reply_defined(outcome: HttpOutcome) -> bool {
    match outcome {
        HttpOutcome::Failed => true,
        HttpOutcome::Reply { status, body } => (status_ok(status) && valid_utf8(body@)
            && decode_utf8(body@).len() != 0) ==> match parsed_document(decode_utf8(body@)) {
            Some(j) => document_defined(j),
            None => true,
        },
    }
}

/// The answer `o` is what decision `d` calls for (`None`: no answer came).
pub open spec fn outcome_fits(o: Option<SuiOutcome>, d: SuiDecision) -> bool {
    match d {
        SuiDecision::NoAnswer => o is None,
        SuiDecision::Reply(m) => match o {
            Some(SuiOutcome::Message(x)) => x@ == m,
            _ => false,
        },
        SuiDecision::ParseFailure(t) => match o {
            Some(SuiOutcome::Message(x)) => parse_failure_text(t, x@),
            _ => false,
        },
        SuiDecision::Lines(ls) => match o {
            Some(SuiOutcome::Balances { network, lines }) => network@ == network_name()
                && lines_view(lines@) == ls,
            _ => false,
        },
    }
}

fn judge_document(address: &String, j: &JsonValue) -> (o: Option<SuiOutcome>)
    requires
        document_defined(*j),
    ensures
        outcome_fits(o, document_decision(address@, *j)),
{
    let network = network_of();
    match j.get("error") {
        Some(e) => {
            let message = match e.get("message") {
                Some(m) => match m.as_text() {
                    Some(t) => t.clone(),
                    None => text_from("Unknown RPC error"),
                },
                None => text_from("Unknown RPC error"),
            };
            let code: i64 = match e.get("code") {
                Some(c) => match c.as_i64() {
                    Some(v) => v,
                    None => -1,
                },
                None => -1,
            };
            if code == -32602 || contains_text(message.as_str(), "Invalid params") {
                return None;
            }
            let mut m = text_from("RPC Error from ");
            m.append(network.as_str());
            m.append(" ");
            push_signed_decimal(&mut m, code);
            m.append(": ");
            m.append(message.as_str());
            assert(m@ =~= rpc_error_text(network@, code as int, message@));
            Some(SuiOutcome::Message(m))
        },
        None => match j.get("result") {
            Some(r) => match r.as_array() {
                Some(items) => {
                    if items.len() == 0 {
                        let mut m = text_from("Address ");
                        m.append(address.as_str());
                        m.append(" has no balances on Sui ");
                        m.append(network.as_str());
                        assert(m@ =~= no_balances_text(address@, network@));
                        return Some(SuiOutcome::Message(m));
                    }
                    match collect_balance_lines(items) {
                        Err(m) => Some(SuiOutcome::Message(m)),
                        Ok(lines) => {
                            if lines.len() == 0 {
                                let mut m = text_from("Address ");
                                m.append(address.as_str());
                                m.append(" has balances but couldn't parse them on ");
                                m.append(network.as_str());
                                assert(m@ =~= unparsed_text(address@, network@));
                                Some(SuiOutcome::Message(m))
                            } else {
                                Some(SuiOutcome::Balances { network, lines })
                            }
                        },
                    }
                },
                None => None,
            },
            None => None,
        },
    }
}

fn judge_reply(address: &String, outcome: HttpOutcome) -> (o: Option<SuiOutcome>)
    requires
        reply_defined(outcome),
    ensures
        outcome_fits(o, reply_decision(address@, outcome)),
{
    match outcome {
        HttpOutcome::Failed => None,
        HttpOutcome::Reply { status, body } => {
            let ok = match status {
                Some(s) => 200 <= s && s < 300,
                None => false,
            };
            if !ok {
                return None;
            }
            let text = match utf8_text(body) {
                Some(t) => t,
                None => {
                    return None;
                },
            };
            if text.as_str().is_empty() {
                return None;
            }
            match parse_json(text.as_str()) {
                Some(j) => judge_document(address, &j),
                None => None,
            }
        },
    }
}

/// `a` answers `address`'s lookup as decision `d` calls for; when no answer
/// came, it says that the lookup failed.
pub open spec fn finishes_as(a: SuiAction, d: SuiDecision, address: Seq<char>) -> bool {
    match d {
        SuiDecision::NoAnswer => answers(a, all_failed_text(address)),
        _ => match a {
            SuiAction::Finish(o) => outcome_fits(Some(o), d),
            SuiAction::Fetch(_) => false,
        },
    }
}

/// Takes in the outcome of the request to the testnet endpoint and answers
/// as the reply calls for, or says that the lookup failed.
pub fn sui_lookup_step(state: SuiLookup, outcome: HttpOutcome) -> (r: (SuiLookup, SuiAction))
    requires
        lookup_wf(state),
        reply_defined(outcome),
    ensures
        r.0.address@ == state.address@,
        finishes_as(r.1, reply_decision(state.address@, outcome), state.address@),
{
    match judge_reply(&state.address, outcome) {
        Some(o) => (state, SuiAction::Finish(o)),
        None => {
            let mut m = text_from("Failed to get balance for ");
            m.append(state.address.as_str());
            m.append(" from all Sui endpoints");
            assert(m@ =~= all_failed_text(state.address@));
            (state, SuiAction::Finish(SuiOutcome::Message(m)))
        },
    }
}

/// Whether cutting the coin type would fall on character boundaries.
fn short_coin_type_check(coin: &str) -> (b: bool)
    ensures
        b == short_coin_type_defined(coin@),
{
    let n = coin.as_bytes().len();
    if n > 50 {
        coin.is_char_boundary(20) && coin.is_char_boundary(n - 10)
    } else {
        true
    }
}

/// Whether collecting the balance lines of `items` cuts no coin type inside a
/// character.
fn lines_defined_check(items: &Vec<JsonValue>) -> (b: bool)
    ensures
        b == lines_defined(items@),
{
    let mut failed = false;
    let mut k: usize = 0;
    let sui = text_from("0x2::sui::SUI");
    assert(items@.take(0) =~= Seq::<JsonValue>::empty());
    while k < items.len()
        invariant
            k <= items.len(),
            sui@ == sui_coin_type(),
            lines_defined(items@.take(k as int)),
            failed == collect_lines(items@.take(k as int)) is Err,
        decreases items.len() - k,
    {
        let ghost prefix = items@.take(k + 1);
        proof {
            assert(prefix.drop_last() =~= items@.take(k as int));
            assert(prefix.last() == items@[k as int]);
        }
        if !failed {
            let item = &items[k];
            let coin = match item.get("coinType") {
                Some(v) => v.as_text(),
                None => None,
            };
            let total = match item.get("totalBalance") {
                Some(v) => v.as_text(),
                None => None,
            };
            match (coin, total) {
                (Some(c), Some(t)) => {
                    match parse_u64(t.as_str()) {
                        Ok(_) => {
                            if *c != sui && !short_coin_type_check(c.as_str()) {
                                proof {
                                    if lines_defined(items@) {
                                        lemma_lines_defined_prefix(items@, k + 1);
                                    }
                                }
                                return false;
                            }
                        },
                        Err(_) => {
                            failed = true;
                        },
                    }
                },
                _ => {},
            }
        }
        k = k + 1;
    }
    assert(items@.take(k as int) =~= items@);
    true
}

/// Whether handling `outcome` cuts no coin type inside a character; where it
/// would, `sui_lookup_step` may not be called, and the lookup traps.
pub fn sui_reply_defined(outcome: &HttpOutcome) -> (b: bool)
    ensures
        b == reply_defined(*outcome),
{
    match outcome {
        HttpOutcome::Failed => true,
        HttpOutcome::Reply { status, body } => {
            let ok = match status {
                Some(s) => 200 <= *s && *s < 300,
                None => false,
            };
            if !ok {
                return true;
            }
            let text = match utf8_text(body.clone()) {
                Some(t) => t,
                None => {
                    return true;
                },
            };
            if text.as_str().is_empty() {
                return true;
            }
            match parse_json(text.as_str()) {
                Some(j) => match j.get("error") {
                    Some(_) => true,
                    None => match j.get("result") {
                        Some(r) => match r.as_array() {
                            Some(items) => items.len() == 0 || lines_defined_check(items),
                            None => true,
                        },
                        None => true,
                    },
                },
                None => true,
            }
        },
    }
}

/// The texts of `list` joined by `sep`.
pub open spec fn joined(list: Seq<Seq<char>>, sep: Seq<char>) -> Seq<char>
    decreases list.len(),
{
    if list.len() == 0 {
        Seq::empty()
    } else if list.len() == 1 {
        list[0]
    } else {
        joined(list.drop_last(), sep) + sep + list.last()
    }
}

/// The total length of the texts of `list`.
pub open spec fn lines_len(list: Seq<Seq<char>>) -> int
    decreases list.len(),
{
    if list.len() == 0 {
        0
    } else {
        lines_len(list.drop_last()) + list.last().len()
    }
}

proof fn lemma_lines_len_nonneg(list: Seq<Seq<char>>)
    ensures
        lines_len(list) >= 0,
    decreases list.len(),
{
    if list.len() > 0 {
        lemma_lines_len_nonneg(list.drop_last());
    }
}

proof fn lemma_lines_len_prefix(list: Seq<Seq<char>>, k: int)
    requires
        0 <= k <= list.len(),
    ensures
        0 <= lines_len(list.take(k)) <= lines_len(list),
        k < list.len() ==> lines_len(list.take(k + 1)) == lines_len(list.take(k)) + list[k].len(),
    decreases list.len() - k,
{
    lemma_lines_len_nonneg(list.take(k));
    if k < list.len() {
        assert(list.take(k + 1).drop_last() =~= list.take(k));
        lemma_lines_len_prefix(list, k + 1);
    } else {
        assert(list.take(k) =~= list);
    }
}

/// Where the `k`-th text starts when the texts of `list` are laid out with
/// two characters between each two of them.
pub open spec fn line_start(list: Seq<Seq<char>>, k: int) -> int {
    lines_len(list.take(k)) + 2 * k
}

proof fn lemma_joined_len(list: Seq<Seq<char>>, sep: Seq<char>)
    requires
        sep.len() == 2,
    ensures
        list.len() > 0 ==> joined(list, sep).len() == lines_len(list) + 2 * (list.len() - 1),
    decreases list.len(),
{
    if list.len() > 1 {
        lemma_joined_len(list.drop_last(), sep);
    } else if list.len() == 1 {
        assert(list.drop_last().len() == 0);
        assert(lines_len(list.drop_last()) == 0);
        assert(list.last() == list[0]);
    }
}

/// Joining with a two-character separator puts the `k`-th text at
/// `line_start(list, k)`, preceded by the separator unless it is the first.
proof fn lemma_joined_at(list: Seq<Seq<char>>, sep: Seq<char>, k: int)
    requires
        sep.len() == 2,
        0 <= k < list.len(),
    ensures
        joined(list, sep).subrange(line_start(list, k), line_start(list, k) + list[k].len())
            == list[k],
        k > 0 ==> joined(list, sep).subrange(line_start(list, k) - 2, line_start(list, k)) == sep,
    decreases list.len(),
{
    let n = list.len();
    let j = joined(list, sep);
    if n == 1 {
        assert(list.take(0).len() == 0);
        assert(j.subrange(0, list[0].len() as int) =~= list[0]);
    } else {
        let dl = list.drop_last();
        let jd = joined(dl, sep);
        lemma_joined_len(dl, sep);
        assert(j == jd + sep + list.last());
        assert(list.take(k) =~= dl.take(k));
        let a = line_start(list, k);
        if k < n - 1 {
            lemma_joined_at(dl, sep, k);
            assert(dl[k] == list[k]);
            lemma_lines_len_prefix(dl, k + 1);
            lemma_lines_len_prefix(dl, k);
            assert(j.subrange(a, a + list[k].len()) =~= jd.subrange(a, a + list[k].len()));
            if k > 0 {
                assert(j.subrange(a - 2, a) =~= jd.subrange(a - 2, a));
            }
        } else {
            assert(dl.take(k) =~= dl);
            assert(a == jd.len() + 2);
            assert(j.subrange(a, a + list[k].len()) =~= list.last());
            assert(j.subrange(a - 2, a) =~= sep);
        }
    }
}

/// The balances answer shows every rendered line, in order: the header
/// `Balances for <address> on Sui <network>: `, then the lines one after the
/// other with `, ` between each two of them, and nothing else. The `k`-th
/// line starts after the header, the lines before it and `k` separators, and
/// the length is the header's, plus the lines', plus two per separator.
pub proof fn lemma_balances_text_lists_every_line(
    address: Seq<char>,
    network: Seq<char>,
    rendered: Seq<Seq<char>>,
)
    ensures
        balances_text(address, network, rendered).subrange(0, balances_header(address, network).len() as int)
            == balances_header(address, network),
        rendered.len() == 0 ==> balances_text(address, network, rendered) == balances_header(address, network),
        rendered.len() > 0 ==> balances_text(address, network, rendered).len() == balances_header(address, network).len()
            + lines_len(rendered) + 2 * (rendered.len() - 1),
        forall|k: int|
            #![trigger rendered[k]]
            0 <= k < rendered.len() ==> balances_text(address, network, rendered).subrange(
                balances_header(address, network).len() + line_start(rendered, k),
                balances_header(address, network).len() + line_start(rendered, k) + rendered[k].len(),
            ) == rendered[k],
        forall|k: int|
            #![trigger line_start(rendered, k)]
            0 < k < rendered.len() ==> balances_text(address, network, rendered).subrange(
                balances_header(address, network).len() + line_start(rendered, k) - 2,
                balances_header(address, network).len() + line_start(rendered, k),
            ) == ", "@,
{
    reveal_strlit(", ");
    let h = balances_header(address, network);
    assert(balances_text(address, network, rendered) =~= h + joined(rendered, ", "@));
    lemma_header_then_lines(h, rendered, ", "@);
}

/// `h` followed by the texts of `rendered` joined with the two-character
/// `sep`: `h`, then each text at its place, the separator before each but the
/// first.
proof fn lemma_header_then_lines(h: Seq<char>, rendered: Seq<Seq<char>>, sep: Seq<char>)
    requires
        sep.len() == 2,
    ensures
        (h + joined(rendered, sep)).subrange(0, h.len() as int) == h,
        rendered.len() == 0 ==> h + joined(rendered, sep) == h,
        rendered.len() > 0 ==> (h + joined(rendered, sep)).len() == h.len() + lines_len(rendered) + 2 * (
        rendered.len() - 1),
        forall|k: int|
            #![trigger rendered[k]]
            0 <= k < rendered.len() ==> (h + joined(rendered, sep)).subrange(
                h.len() + line_start(rendered, k),
                h.len() + line_start(rendered, k) + rendered[k].len(),
            ) == rendered[k],
        forall|k: int|
            #![trigger line_start(rendered, k)]
            0 < k < rendered.len() ==> (h + joined(rendered, sep)).subrange(
                h.len() + line_start(rendered, k) - 2,
                h.len() + line_start(rendered, k),
            ) == sep,
{
    let j = joined(rendered, sep);
    let t = h + j;
    lemma_all_lines_after_header(h, rendered, sep);
    lemma_joined_len(rendered, sep);
    assert(t.subrange(0, h.len() as int) =~= h);
    if rendered.len() == 0 {
        assert(t =~= h);
    }
}

proof fn lemma_all_lines_after_header(h: Seq<char>, rendered: Seq<Seq<char>>, sep: Seq<char>)
    requires
        sep.len() == 2,
    ensures
        forall|k: int|
            #![trigger rendered[k]]
            0 <= k < rendered.len() ==> (h + joined(rendered, sep)).subrange(
                h.len() + line_start(rendered, k),
                h.len() + line_start(rendered, k) + rendered[k].len(),
            ) == rendered[k],
        forall|k: int|
            #![trigger line_start(rendered, k)]
            0 < k < rendered.len() ==> (h + joined(rendered, sep)).subrange(
                h.len() + line_start(rendered, k) - 2,
                h.len() + line_start(rendered, k),
            ) == sep,
{
    assert forall|k: int| #![trigger rendered[k]] 0 <= k < rendered.len() implies (h + joined(
        rendered,
        sep,
    )).subrange(
        h.len() + line_start(rendered, k),
        h.len() + line_start(rendered, k) + rendered[k].len(),
    ) == rendered[k] by {
        lemma_line_after_header(h, rendered, sep, k);
    }
    assert forall|k: int| #![trigger line_start(rendered, k)] 0 < k < rendered.len() implies (h
        + joined(rendered, sep)).subrange(
        h.len() + line_start(rendered, k) - 2,
        h.len() + line_start(rendered, k),
    ) == sep by {
        lemma_line_after_header(h, rendered, sep, k);
    }
}

/// The opening of the balances answer.
pub open spec fn balances_header(address: Seq<char>, network: Seq<char>) -> Seq<char> {
    "Balances for "@ + address + " on Sui "@ + network + ": "@
}

proof fn lemma_line_after_header(h: Seq<char>, rendered: Seq<Seq<char>>, sep: Seq<char>, k: int)
    requires
        0 <= k < rendered.len(),
        sep.len() == 2,
    ensures
        (h + joined(rendered, sep)).subrange(
            h.len() + line_start(rendered, k),
            h.len() + line_start(rendered, k) + rendered[k].len(),
        ) == rendered[k],
        k > 0 ==> (h + joined(rendered, sep)).subrange(
            h.len() + line_start(rendered, k) - 2,
            h.len() + line_start(rendered, k),
        ) == sep,
{
    let j = joined(rendered, sep);
    let t = h + j;
    let a = line_start(rendered, k);
    lemma_joined_at(rendered, sep, k);
    lemma_joined_len(rendered, sep);
    lemma_lines_len_prefix(rendered, k);
    lemma_lines_len_prefix(rendered, k + 1);
    assert(t.subrange(h.len() + a, h.len() + a + rendered[k].len()) =~= j.subrange(
        a,
        a + rendered[k].len(),
    ));
    if k > 0 {
        assert(t.subrange(h.len() + a - 2, h.len() + a) =~= j.subrange(a - 2, a));
    }
}

/// The views of a list of strings.
pub open spec fn texts(list: Seq<String>) -> Seq<Seq<char>> {
    list.map_values(|s: String| s@)
}

/// The line of a coin other than SUI: the amount and the coin type.
pub open spec fn coin_line_text(amount: u64, coin: Seq<char>) -> Seq<char> {
    decimal(amount as nat) + " "@ + coin
}

/// The answer that lists the balances of `address` on `network`.
pub open spec fn balances_text(address: Seq<char>, network: Seq<char>, rendered: Seq<Seq<char>>) -> Seq<char> {
    "Balances for "@ + address + " on Sui "@ + network + ": "@ + joined(rendered, ", "@)
}

/// The line of a coin other than SUI.
pub fn coin_line(amount: u64, coin: &str) -> (r: String)
    ensures
        r@ == coin_line_text(amount, coin@),
{
    let mut r = String::new();
    push_decimal(&mut r, amount);
    r.append(" ");
    r.append(coin);
    assert(r@ =~= coin_line_text(amount, coin@));
    r
}

/// The answer that lists the balances of `address` on `network`, given the
/// text of each balance line in order.
pub fn balances_answer(address: &str, network: &str, rendered: &Vec<String>) -> (r: String)
    ensures
        r@ == balances_text(address@, network@, texts(rendered@)),
{
    let mut r = text_from("Balances for ");
    r.append(address);
    r.append(" on Sui ");
    r.append(network);
    r.append(": ");
    let ghost head = r@;
    let mut k: usize = 0;
    assert(texts(rendered@).take(0) =~= Seq::<Seq<char>>::empty());
    while k < rendered.len()
        invariant
            k <= rendered.len(),
            head == "Balances for "@ + address@ + " on Sui "@ + network@ + ": "@,
            r@ == head + joined(texts(rendered@).take(k as int), ", "@),
        decreases rendered.len() - k,
    {
        let ghost t = texts(rendered@).take(k + 1);
        proof {
            assert(t.drop_last() =~= texts(rendered@).take(k as int));
            assert(t.last() == rendered@[k as int]@);
        }
        if k > 0 {
            r.append(", ");
        }
        r.append(rendered[k].as_str());
        proof {
            if k == 0 {
                assert(texts(rendered@).take(k as int).len() == 0);
            }
        }
        k = k + 1;
        assert(r@ =~= head + joined(texts(rendered@).take(k as int), ", "@));
    }
    assert(texts(rendered@).take(k as int) =~= texts(rendered@));
    r
}

} // verus!
