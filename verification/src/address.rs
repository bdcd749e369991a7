//! Recognising Sui addresses and ICP account identifiers, and finding them in text.
use vstd::prelude::*;
use vstd::utf8::{encode_utf8, is_ascii_chars, is_ascii_chars_encode_utf8};
use crate::text::{
    all_hex, chars_of, is_ascii_hexdigit, is_hex_digit, is_white_space, lemma_words_of_joined,
    split_whitespace, word_spans, words,
};

verus! {

/// A Sui address: `0x` followed by 64 hexadecimal digits (66 characters).
pub open spec fn is_sui_address(w: Seq<char>) -> bool {
    &&& w.len() == 66
    &&& w[0] == '0'
    &&& w[1] == 'x'
    &&& all_hex(w.subrange(2, 66))
}

/// An ICP account identifier: 64 hexadecimal digits.
pub open spec fn is_icp_account(w: Seq<char>) -> bool {
    w.len() == 64 && all_hex(w)
}

/// The first of `ws` that is a Sui address.
pub open spec fn first_sui_address(ws: Seq<Seq<char>>) -> Option<Seq<char>>
    decreases ws.len(),
{
    if ws.len() == 0 {
        None
    } else if is_sui_address(ws[0]) {
        Some(ws[0])
    } else {
        first_sui_address(ws.drop_first())
    }
}

/// The first of `ws` that is an ICP account identifier.
pub open spec fn first_icp_account(ws: Seq<Seq<char>>) -> Option<Seq<char>>
    decreases ws.len(),
{
    if ws.len() == 0 {
        None
    } else if is_icp_account(ws[0]) {
        Some(ws[0])
    } else {
        first_icp_account(ws.drop_first())
    }
}

/// The view of an optional string.
pub open spec fn opt_view(o: Option<String>) -> Option<Seq<char>> {
    match o {
        Some(s) => Some(s@),
        None => None,
    }
}

/// Whether `chars[from..]` are all hexadecimal digits.
pub fn all_hex_from(chars: &Vec<char>, from: usize) -> (b: bool)
    requires
        from <= chars.len(),
    ensures
        b == all_hex(chars@.subrange(from as int, chars@.len() as int)),
{
    let mut i = from;
    while i < chars.len()
        invariant
            from <= i <= chars.len(),
            forall|k: int| from <= k < i ==> is_hex_digit(#[trigger] chars@[k]),
        decreases chars.len() - i,
    {
        if !is_ascii_hexdigit(chars[i]) {
            assert(chars@.subrange(from as int, chars@.len() as int)[i - from] == chars@[i as int]);
            return false;
        }
        i = i + 1;
    }
    assert forall|k: int| 0 <= k < chars@.len() - from implies is_hex_digit(
        #[trigger] chars@.subrange(from as int, chars@.len() as int)[k],
    ) by {
        assert(chars@.subrange(from as int, chars@.len() as int)[k] == chars@[from + k]);
    }
    true
}

/// Whether `w` is a Sui address.
pub fn sui_address_check(w: &str) -> (b: bool)
    ensures
        b == is_sui_address(w@),
{
    let chars = chars_of(w);
    if chars.len() != 66 || chars[0] != '0' || chars[1] != 'x' {
        return false;
    }
    all_hex_from(&chars, 2)
}

/// Whether `w` is an ICP account identifier.
pub fn icp_account_check(w: &str) -> (b: bool)
    ensures
        b == is_icp_account(w@),
{
    let chars = chars_of(w);
    if chars.len() != 64 {
        return false;
    }
    let b = all_hex_from(&chars, 0);
    assert(chars@.subrange(0, chars@.len() as int) =~= chars@);
    b
}

/// The first whitespace-separated word of `content` that is a Sui address
/// (`0x` and 64 hexadecimal digits), if there is one.
pub fn extract_sui_address(content: &str) -> (r: Option<String>)
    ensures
        opt_view(r) == first_sui_address(words(content@)),
{
    let ws = split_whitespace(content);
    let ghost all = words(content@);
    let mut k: usize = 0;
    assert(all.skip(0) =~= all);
    while k < ws.len()
        invariant
            ws@.len() == all.len(),
            all == words(content@),
            forall|j: int| 0 <= j < ws@.len() ==> (#[trigger] ws@[j])@ == all[j],
            k <= ws@.len(),
            first_sui_address(all) == first_sui_address(all.skip(k as int)),
        decreases ws@.len() - k,
    {
        assert(all.skip(k as int)[0] == all[k as int]);
        if sui_address_check(ws[k].as_str()) {
            return Some(ws[k].clone());
        }
        assert(all.skip(k as int).drop_first() =~= all.skip(k + 1));
        k = k + 1;
    }
    assert(all.skip(k as int).len() == 0);
    None
}

/// The first whitespace-separated word of `content` that is an ICP account
/// identifier (64 hexadecimal digits), if there is one.
pub fn extract_icp_account(content: &str) -> (r: Option<String>)
    ensures
        opt_view(r) == first_icp_account(words(content@)),
{
    let ws = split_whitespace(content);
    let ghost all = words(content@);
    let mut k: usize = 0;
    assert(all.skip(0) =~= all);
    while k < ws.len()
        invariant
            ws@.len() == all.len(),
            all == words(content@),
            forall|j: int| 0 <= j < ws@.len() ==> (#[trigger] ws@[j])@ == all[j],
            k <= ws@.len(),
            first_icp_account(all) == first_icp_account(all.skip(k as int)),
        decreases ws@.len() - k,
    {
        assert(all.skip(k as int)[0] == all[k as int]);
        if icp_account_check(ws[k].as_str()) {
            return Some(ws[k].clone());
        }
        assert(all.skip(k as int).drop_first() =~= all.skip(k + 1));
        k = k + 1;
    }
    assert(all.skip(k as int).len() == 0);
    None
}

/// A Sui address is exactly what the byte-level check accepts: a string that
/// starts with `0x`, is 66 bytes long in UTF-8, and has only hexadecimal
/// digits after the `0x`.
pub proof fn lemma_sui_address_byte_length(w: Seq<char>)
    requires
        w.len() >= 2,
    ensures
        is_sui_address(w) <==> (w[0] == '0' && w[1] == 'x' && encode_utf8(w).len() == 66 && all_hex(
            w.subrange(2, w.len() as int),
        )),
        w[0] == '0' && w[1] == 'x' && all_hex(w.subrange(2, w.len() as int)) ==> encode_utf8(w).len()
            == w.len(),
{
    if w[0] == '0' && w[1] == 'x' && all_hex(w.subrange(2, w.len() as int)) {
        assert forall|i: int| 0 <= i < w.len() implies '\0' <= #[trigger] w[i] <= '\u{7f}' by {
            if i >= 2 {
                assert(w.subrange(2, w.len() as int)[i - 2] == w[i]);
            }
        }
        assert(is_ascii_chars(w));
        is_ascii_chars_encode_utf8(w);
    }
}

/// An ICP account identifier is exactly what the byte-level check accepts: 64
/// bytes in UTF-8, all of them hexadecimal digits.
pub proof fn lemma_icp_account_byte_length(w: Seq<char>)
    ensures
        is_icp_account(w) <==> (encode_utf8(w).len() == 64 && all_hex(w)),
{
    if all_hex(w) {
        assert forall|i: int| 0 <= i < w.len() implies '\0' <= #[trigger] w[i] <= '\u{7f}' by {
            assert(is_hex_digit(w[i]));
        }
        is_ascii_chars_encode_utf8(w);
    }
}

/// No word is both a Sui address and an ICP account identifier.
pub proof fn lemma_address_kinds_disjoint(w: Seq<char>)
    ensures
        !(is_sui_address(w) && is_icp_account(w)),
{
}

/// What is found is one of the words, and it has the required form.
pub proof fn lemma_found_address_is_word(ws: Seq<Seq<char>>)
    ensures
        first_sui_address(ws) matches Some(a) ==> ws.contains(a) && is_sui_address(a),
        first_icp_account(ws) matches Some(a) ==> ws.contains(a) && is_icp_account(a),
    decreases ws.len(),
{
    if ws.len() > 0 {
        lemma_found_address_is_word(ws.drop_first());
        if let Some(a) = first_sui_address(ws.drop_first()) {
            if !is_sui_address(ws[0]) {
                let k = choose|k: int| 0 <= k < ws.drop_first().len() && ws.drop_first()[k] == a;
                assert(ws[k + 1] == a);
            }
        }
        if let Some(a) = first_icp_account(ws.drop_first()) {
            if !is_icp_account(ws[0]) {
                let k = choose|k: int| 0 <= k < ws.drop_first().len() && ws.drop_first()[k] == a;
                assert(ws[k + 1] == a);
            }
        }
    }
}

/// Searching `a` followed by `b` finds what `a` holds, or else what `b` holds.
proof fn lemma_first_of_concat(a: Seq<Seq<char>>, b: Seq<Seq<char>>)
    ensures
        first_sui_address(a + b) == match first_sui_address(a) {
            Some(w) => Some(w),
            None => first_sui_address(b),
        },
        first_icp_account(a + b) == match first_icp_account(a) {
            Some(w) => Some(w),
            None => first_icp_account(b),
        },
    decreases a.len(),
{
    if a.len() == 0 {
        assert(a + b =~= b);
    } else {
        lemma_first_of_concat(a.drop_first(), b);
        assert((a + b)[0] == a[0]);
        assert((a + b).drop_first() =~= a.drop_first() + b);
    }
}

/// In `x`, a space and `y`, each extractor finds what it finds in `x`, or
/// else what it finds in `y`.
pub proof fn lemma_extract_from_joined(x: Seq<char>, y: Seq<char>)
    ensures
        first_sui_address(words(x + " "@ + y)) == match first_sui_address(words(x)) {
            Some(a) => Some(a),
            None => first_sui_address(words(y)),
        },
        first_icp_account(words(x + " "@ + y)) == match first_icp_account(words(x)) {
            Some(a) => Some(a),
            None => first_icp_account(words(y)),
        },
{
    lemma_words_of_joined(x, y);
    lemma_first_of_concat(words(x), words(y));
}

/// A non-empty run of characters without white space is a single word.
pub proof fn lemma_single_word(w: Seq<char>)
    requires
        w.len() > 0,
        forall|i: int| 0 <= i < w.len() ==> !is_white_space(#[trigger] w[i]),
    ensures
        word_spans(w) == seq![(0int, w.len() as int)],
        words(w) == seq![w],
    decreases w.len(),
{
    let n = w.len() - 1;
    let t = w.take(n as int);
    if n > 0 {
        assert forall|i: int| 0 <= i < t.len() implies !is_white_space(#[trigger] t[i]) by {
            assert(t[i] == w[i]);
        }
        lemma_single_word(t);
        assert(word_spans(t) == seq![(0int, n)]);
        assert(!is_white_space(w[n - 1]));
    } else {
        assert(word_spans(t).len() == 0);
    }
    assert(!is_white_space(w[n]));
    assert(word_spans(w) =~= seq![(0int, w.len() as int)]);
    assert(w.subrange(0, w.len() as int) =~= w);
    assert(words(w) =~= seq![w]);
}

/// Hexadecimal digits and `x` are not white space.
proof fn lemma_address_chars_not_white(c: char)
    requires
        is_hex_digit(c) || c == 'x',
    ensures
        !is_white_space(c),
{
}

/// Looking for an address in a found address finds that address again.
pub proof fn lemma_extract_idempotent(a: Seq<char>)
    ensures
        is_sui_address(a) ==> first_sui_address(words(a)) == Some(a),
        is_icp_account(a) ==> first_icp_account(words(a)) == Some(a),
{
    if is_sui_address(a) || is_icp_account(a) {
        assert forall|i: int| 0 <= i < a.len() implies !is_white_space(#[trigger] a[i]) by {
            if is_sui_address(a) {
                if i >= 2 {
                    assert(a.subrange(2, 66)[i - 2] == a[i]);
                }
                lemma_address_chars_not_white(a[i]);
            } else {
                lemma_address_chars_not_white(a[i]);
            }
        }
        lemma_single_word(a);
        lemma_address_kinds_disjoint(a);
        assert(seq![a].drop_first().len() == 0);
    }
}

} // verus!
