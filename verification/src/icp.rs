//! Looking up the balance of an ICP account on the ledger: the library checks
//! the account text and words the answer; the caller queries the ledger.
use vstd::prelude::*;
use crate::text::{
    all_hex, decimal, digit_char, hex_lower, is_hex_digit, push_hex_lower, zero_padded,
};

verus! {

/// The value of a hexadecimal digit.
pub open spec fn hex_value(c: char) -> nat {
    if '0' <= c <= '9' {
        ((c as int) - ('0' as int)) as nat
    } else if 'a' <= c <= 'f' {
        ((c as int) - ('a' as int) + 10) as nat
    } else {
        ((c as int) - ('A' as int) + 10) as nat
    }
}

/// The bytes that an even-length run of hexadecimal digits encodes, two
/// digits per byte, the high half first.
pub open spec fn hex_decode(s: Seq<char>) -> Seq<u8> {
    Seq::new(s.len() / 2, |i: int| (hex_value(s[2 * i]) * 16 + hex_value(s[2 * i + 1])) as u8)
}

/// The views of an outcome with text as its error.
pub open spec fn bytes_or_text(r: Result<Vec<u8>, String>) -> Result<Seq<u8>, Seq<char>> {
    match r {
        Ok(b) => Ok(b@),
        Err(e) => Err(e@),
    }
}

/// What `AccountIdentifier::from_hex` gives for a text: the identifier's 32
/// bytes, or an error message.
pub uninterp spec fn account_from_hex_result(hex: Seq<char>) -> Result<Seq<u8>, Seq<char>>;

/// `ic_ledger_types::AccountIdentifier::from_hex`, giving the identifier's
/// bytes. Per its source (through `hex::decode`): it succeeds only on an
/// even-length text of hexadecimal digits, and for 64 digits (32 bytes, whose
/// CRC-32 checksum it checks) the bytes are the decoded ones. Which texts pass
/// the checksum is left to the name.
#[verifier::external_body]
fn account_from_hex(hex: &str) -> (r: Result<Vec<u8>, String>)
    ensures
        bytes_or_text(r) == account_from_hex_result(hex@),
        r is Ok ==> all_hex(hex@) && hex@.len() % 2 == 0,
        r is Ok && hex@.len() == 64 ==> r->Ok_0@ == hex_decode(hex@),
{
    match ic_ledger_types::AccountIdentifier::from_hex(hex) {
        Ok(a) => Ok(a.as_bytes().to_vec()),
        Err(e) => Err(e),
    }
}

/// How `Tokens` displays an amount of `e8s` hundred-millionths: the whole
/// part, a point, and the fraction in eight digits.
pub open spec fn tokens_display(e8s: u64) -> Seq<char> {
    decimal((e8s / 100_000_000) as nat) + seq!['.'] + zero_padded(
        decimal((e8s % 100_000_000) as nat),
        8,
    )
}

/// The display of `ic_ledger_types::Tokens::from_e8s(e8s)`, which writes
/// `"{}.{:08}"` of the whole and fractional parts.
#[verifier::external_body]
fn tokens_text(e8s: u64) -> (t: String)
    ensures
        t@ == tokens_display(e8s),
{
    format!("{}", ic_ledger_types::Tokens::from_e8s(e8s))
}

/// The answer to an account text that is not 64 bytes long.
pub open spec fn icp_length_text() -> Seq<char> {
    "Account must be 64 characters long"@
}

/// The answer to an account text that is not an account identifier.
pub open spec fn icp_invalid_text() -> Seq<char> {
    "Invalid account"@
}

/// The answer that gives the balance of an account.
pub open spec fn icp_balance_text(account: Seq<u8>, e8s: u64) -> Seq<char> {
    "Balance of "@ + hex_lower(account) + " is "@ + tokens_display(e8s) + " ICP"@
}

/// Checks an account text before the ledger is asked: it must be 64 bytes
/// long and denote an account identifier. Gives the identifier's bytes, or
/// the answer to give instead.
pub fn icp_lookup_start(account: &str) -> (r: Result<Vec<u8>, String>)
    ensures
        account.len() != 64 ==> bytes_or_text(r) == Err::<Seq<u8>, Seq<char>>(icp_length_text()),
        account.len() == 64 ==> bytes_or_text(r) == match account_from_hex_result(account@) {
            Ok(b) => Ok(b),
            Err(_) => Err::<Seq<u8>, Seq<char>>(icp_invalid_text()),
        },
        r matches Ok(v) ==> v@ == hex_decode(account@) && is_icp_account_text(account@),
{
    let n = account.as_bytes().len();
    assert(n == account.len());
    if n != 64 {
        return Err(String::from_str("Account must be 64 characters long"));
    }
    match account_from_hex(account) {
        Ok(bytes) => {
            proof {
                lemma_hex_text_chars(account@);
            }
            Ok(bytes)
        },
        Err(_) => Err(String::from_str("Invalid account")),
    }
}

/// 64 hexadecimal digits.
pub open spec fn is_icp_account_text(s: Seq<char>) -> bool {
    s.len() == 64 && all_hex(s)
}

/// A text of hexadecimal digits has as many bytes as characters.
proof fn lemma_hex_text_chars(s: Seq<char>)
    requires
        all_hex(s),
    ensures
        vstd::utf8::encode_utf8(s).len() == s.len(),
{
    assert forall|i: int| 0 <= i < s.len() implies '\0' <= #[trigger] s[i] <= '\u{7f}' by {
        assert(is_hex_digit(s[i]));
    }
    vstd::utf8::is_ascii_chars_encode_utf8(s);
}

/// The answer that gives the balance of an account: its identifier in
/// lower-case hexadecimal and the amount as `Tokens` display it.
pub fn icp_balance_answer(account: &Vec<u8>, e8s: u64) -> (r: String)
    ensures
        r@ == icp_balance_text(account@, e8s),
{
    let mut r = String::from_str("Balance of ");
    push_hex_lower(&mut r, account);
    r.append(" is ");
    let t = tokens_text(e8s);
    r.append(t.as_str());
    r.append(" ICP");
    assert(r@ =~= icp_balance_text(account@, e8s));
    r
}

/// `c` in lower case, for an ASCII letter; otherwise `c` itself.
pub open spec fn ascii_lower(c: char) -> char {
    if 'A' <= c <= 'Z' {
        ((c as int) + 32) as char
    } else {
        c
    }
}

/// `s` with its ASCII letters in lower case.
pub open spec fn ascii_lowercase(s: Seq<char>) -> Seq<char> {
    s.map_values(|c: char| ascii_lower(c))
}

proof fn lemma_digit_round_trip(c: char)
    requires
        is_hex_digit(c),
    ensures
        hex_value(c) < 16,
        digit_char(hex_value(c)) == ascii_lower(c),
{
}

/// Decoding hexadecimal digits and writing the bytes back in lower-case
/// hexadecimal gives the digits in lower case.
pub proof fn lemma_hex_round_trip(s: Seq<char>)
    requires
        all_hex(s),
        s.len() % 2 == 0,
    ensures
        hex_lower(hex_decode(s)) == ascii_lowercase(s),
    decreases s.len(),
{
    if s.len() == 0 {
        assert(hex_decode(s) =~= Seq::<u8>::empty());
        assert(ascii_lowercase(s) =~= Seq::<char>::empty());
    } else {
        let n = s.len() as int;
        let t = s.take(n - 2);
        assert(all_hex(t)) by {
            assert forall|i: int| 0 <= i < t.len() implies is_hex_digit(#[trigger] t[i]) by {
                assert(t[i] == s[i]);
            }
        }
        lemma_hex_round_trip(t);
        let d = hex_decode(s);
        assert(d.drop_last() =~= hex_decode(t));
        let hi = s[n - 2];
        let lo = s[n - 1];
        assert(is_hex_digit(hi) && is_hex_digit(lo));
        lemma_digit_round_trip(hi);
        lemma_digit_round_trip(lo);
        let b = d.last();
        assert(b == (hex_value(hi) * 16 + hex_value(lo)) as u8);
        assert(b / 16 == hex_value(hi));
        assert(b % 16 == hex_value(lo));
        assert(ascii_lowercase(s) =~= ascii_lowercase(t).push(ascii_lower(hi)).push(ascii_lower(lo)));
    }
}

/// The identifier in the answer is the account text as given, in lower case.
pub proof fn lemma_answer_shows_account(account: Seq<char>, e8s: u64)
    requires
        is_icp_account_text(account),
    ensures
        icp_balance_text(hex_decode(account), e8s) == "Balance of "@ + ascii_lowercase(account)
            + " is "@ + tokens_display(e8s) + " ICP"@,
{
    lemma_hex_round_trip(account);
}

} // verus!
