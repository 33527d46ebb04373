use vstd::prelude::*;
use vstd::string::*;
use crate::text::{ascii, push_text, same_bytes};
use crate::types::{Address, Swap, SwapError};

verus! {

/// The decimal digit of a number below ten.
pub open spec fn digit(d: nat) -> u8 {
    ('0' as u8 + d) as u8
}

/// A number in decimal, without sign or leading zeros.
pub open spec fn decimal(n: nat) -> Seq<u8>
    decreases n,
{
    if n < 10 {
        seq![digit(n)]
    } else {
        decimal(n / 10).push(digit(n % 10))
    }
}

/// The items of a list in decimal, separated by commas, and the closing
/// bracket.
pub open spec fn items_text(items: Seq<u8>) -> Seq<u8>
    decreases items.len(),
{
    if items.len() == 0 {
        seq![']' as u8]
    } else if items.len() == 1 {
        decimal(items[0] as nat) + seq![']' as u8]
    } else {
        decimal(items[0] as nat) + (seq![',' as u8] + items_text(items.skip(1)))
    }
}

/// A list of bytes as a JSON array of numbers.
pub open spec fn list_text(items: Seq<u8>) -> Seq<u8> {
    seq!['[' as u8] + items_text(items)
}

/// The opening brace and the name of the first member.
pub open spec fn open_value_key() -> Seq<u8> {
    ascii("{\"open_value\":"@)
}

/// The comma and the name of the second member.
pub open spec fn open_trader_key() -> Seq<u8> {
    ascii(",\"open_trader\":"@)
}

/// The comma and the name of the third member.
pub open spec fn open_contract_address_key() -> Seq<u8> {
    ascii(",\"open_contract_address\":"@)
}

/// The comma and the name of the fourth member.
pub open spec fn close_value_key() -> Seq<u8> {
    ascii(",\"close_value\":"@)
}

/// The comma and the name of the fifth member.
pub open spec fn close_trader_key() -> Seq<u8> {
    ascii(",\"close_trader\":"@)
}

/// The comma and the name of the sixth member.
pub open spec fn close_contract_address_key() -> Seq<u8> {
    ascii(",\"close_contract_address\":"@)
}

/// The stored text of a record: a JSON object without white space, its six
/// members in the order of the fields, the numbers in decimal and each address
/// as an array of twenty numbers.
pub open spec fn record_text(swap: Swap) -> Seq<u8> {
    open_value_key() + (decimal(swap.open_value as nat)
        + (open_trader_key() + (list_text(swap.open_trader@)
        + (open_contract_address_key() + (list_text(swap.open_contract_address@)
        + (close_value_key() + (decimal(swap.close_value as nat)
        + (close_trader_key() + (list_text(swap.close_trader@)
        + (close_contract_address_key() + (list_text(swap.close_contract_address@)
        + seq!['}' as u8])))))))))))
}

/// The record that `bytes` is the stored text of; `DecodeFailed` where it is
/// the text of none.
pub open spec fn decoded(bytes: Seq<u8>) -> Result<Swap, SwapError> {
    if exists|swap: Swap| record_text(swap) == bytes {
        Ok(choose|swap: Swap| record_text(swap) == bytes)
    } else {
        Err(SwapError::DecodeFailed)
    }
}

/// The stored text of `value`. Every record has one: the result is `Ok`.
pub fn serialize(value: &Swap) -> (bytes: Result<Vec<u8>, SwapError>)
    ensures
        bytes is Ok,
        bytes->Ok_0@ == record_text(*value),
{
    Ok(write_record(value))
}

/// Writes the text of `value`, piece by piece.
fn write_record(value: &Swap) -> (out: Vec<u8>)
    ensures
        out@ == record_text(*value),
{
    let ghost whole = record_text(*value);
    let ghost t12 = seq!['}' as u8];
    let ghost t11 = list_text(value.close_contract_address@) + t12;
    let ghost t10 = close_contract_address_key() + t11;
    let ghost t9 = list_text(value.close_trader@) + t10;
    let ghost t8 = close_trader_key() + t9;
    let ghost t7 = decimal(value.close_value as nat) + t8;
    let ghost t6 = close_value_key() + t7;
    let ghost t5 = list_text(value.open_contract_address@) + t6;
    let ghost t4 = open_contract_address_key() + t5;
    let ghost t3 = list_text(value.open_trader@) + t4;
    let ghost t2 = open_trader_key() + t3;
    let ghost t1 = decimal(value.open_value as nat) + t2;
    let mut out: Vec<u8> = Vec::new();
    proof {
        reveal_strlit("{\"open_value\":");
        lemma_piece_written(whole, out@, open_value_key(), t1);
    }
    push_text(&mut out, "{\"open_value\":");
    proof {
        lemma_piece_written(whole, out@, decimal(value.open_value as nat), t2);
    }
    push_decimal(&mut out, value.open_value);
    proof {
        reveal_strlit(",\"open_trader\":");
        lemma_piece_written(whole, out@, open_trader_key(), t3);
    }
    push_text(&mut out, ",\"open_trader\":");
    proof {
        lemma_piece_written(whole, out@, list_text(value.open_trader@), t4);
    }
    push_list(&mut out, &value.open_trader);
    proof {
        reveal_strlit(",\"open_contract_address\":");
        lemma_piece_written(whole, out@, open_contract_address_key(), t5);
    }
    push_text(&mut out, ",\"open_contract_address\":");
    proof {
        lemma_piece_written(whole, out@, list_text(value.open_contract_address@), t6);
    }
    push_list(&mut out, &value.open_contract_address);
    proof {
        reveal_strlit(",\"close_value\":");
        lemma_piece_written(whole, out@, close_value_key(), t7);
    }
    push_text(&mut out, ",\"close_value\":");
    proof {
        lemma_piece_written(whole, out@, decimal(value.close_value as nat), t8);
    }
    push_decimal(&mut out, value.close_value);
    proof {
        reveal_strlit(",\"close_trader\":");
        lemma_piece_written(whole, out@, close_trader_key(), t9);
    }
    push_text(&mut out, ",\"close_trader\":");
    proof {
        lemma_piece_written(whole, out@, list_text(value.close_trader@), t10);
    }
    push_list(&mut out, &value.close_trader);
    proof {
        reveal_strlit(",\"close_contract_address\":");
        lemma_piece_written(whole, out@, close_contract_address_key(), t11);
    }
    push_text(&mut out, ",\"close_contract_address\":");
    proof {
        lemma_piece_written(whole, out@, list_text(value.close_contract_address@), t12);
    }
    push_list(&mut out, &value.close_contract_address);
    out.push('}' as u8);
    out
}

/// Reads a record back from its stored text.
///
/// Only the text that `serialize` writes is accepted: the values are read
/// where that text has them, and the text of what was read has to be the
/// input, byte for byte.
pub fn deserialize(b: &[u8]) -> (swap: Result<Swap, SwapError>)
    ensures
        swap == decoded(b@),
{
    match read_record(b) {
        Some(swap) => {
            let again = write_record(&swap);
            if same_bytes(again.as_slice(), b) {
                proof {
                    lemma_round_trip(swap);
                }
                Ok(swap)
            } else {
                proof {
                    assert forall|other: Swap| record_text(other) != b@ by {
                        if record_text(other) == b@ {
                            lemma_scan_text(other);
                            lemma_same_fields(other, swap);
                        }
                    }
                }
                Err(SwapError::DecodeFailed)
            }
        },
        None => {
            proof {
                assert forall|other: Swap| record_text(other) != b@ by {
                    if record_text(other) == b@ {
                        lemma_scan_text(other);
                    }
                }
            }
            Err(SwapError::DecodeFailed)
        },
    }
}

/// Reading back the stored text of a record gives that record.
pub proof fn lemma_round_trip(swap: Swap)
    ensures
        decoded(record_text(swap)) == Ok::<Swap, SwapError>(swap),
{
    let found = choose|other: Swap| record_text(other) == record_text(swap);
    lemma_record_text_injective(found, swap);
}

/// Two records with the same text are the same record.
pub proof fn lemma_record_text_injective(a: Swap, b: Swap)
    requires
        record_text(a) == record_text(b),
    ensures
        a == b,
{
    lemma_scan_text(a);
    lemma_scan_text(b);
    lemma_same_fields(a, b);
}

/// Appends `n` in decimal to `out`.
fn push_decimal(out: &mut Vec<u8>, n: u64)
    ensures
        final(out)@ == old(out)@ + decimal(n as nat),
    decreases n,
{
    if n >= 10 {
        push_decimal(out, n / 10);
    }
    out.push('0' as u8 + (n % 10) as u8);
}

/// Appends `items` as a JSON array of numbers to `out`.
fn push_list(out: &mut Vec<u8>, items: &Address)
    ensures
        final(out)@ == old(out)@ + list_text(items@),
{
    out.push('[' as u8);
    let ghost whole = old(out)@ + list_text(items@);
    let mut i: usize = 0;
    assert(items@.skip(0) == items@);
    while i < 20
        invariant
            i <= 20,
            i < 20 ==> whole == out@ + items_text(items@.skip(i as int)),
            i == 20 ==> whole == out@,
        decreases 20 - i,
    {
        assert(items@.skip(i as int).skip(1) == items@.skip(i + 1));
        push_decimal(out, items[i] as u64);
        if i < 19 {
            out.push(',' as u8);
            assert(whole == out@ + items_text(items@.skip(i + 1)));
        } else {
            out.push(']' as u8);
            assert(whole == out@);
        }
        i = i + 1;
    }
}

/// Moving a piece from the front of what is still to be written to the end of
/// what was written leaves the whole text as it was.
proof fn lemma_piece_written(whole: Seq<u8>, written: Seq<u8>, piece: Seq<u8>, rest: Seq<u8>)
    requires
        whole == written + (piece + rest),
    ensures
        whole == (written + piece) + rest,
{
}

/// Whether a byte is a decimal digit.
spec fn is_digit(c: u8) -> bool {
    '0' as u8 <= c && c <= '9' as u8
}

/// How many digits `s` starts with.
spec fn leading_digits(s: Seq<u8>) -> nat
    decreases s.len(),
{
    if s.len() > 0 && is_digit(s[0]) {
        1 + leading_digits(s.skip(1))
    } else {
        0
    }
}

/// The number that a sequence of digits stands for.
spec fn number_of(digits: Seq<u8>) -> nat
    decreases digits.len(),
{
    if digits.len() == 0 {
        0
    } else {
        number_of(digits.drop_last()) * 10 + (digits.last() - '0' as u8) as nat
    }
}

/// The number written at `pos` and the position behind it: the digits that
/// stand there, if there is one and their number is at most `limit`.
spec fn number_at(b: Seq<u8>, pos: int, limit: nat) -> Option<(u64, int)> {
    let count = leading_digits(b.skip(pos));
    let value = number_of(b.subrange(pos, pos + count));
    if count == 0 || value > limit {
        None
    } else {
        Some((value as u64, pos + count))
    }
}

/// The first `count` items written from `first` on, each a number of at most
/// 255 that one more byte follows, and the position behind the last of them.
spec fn items_at(b: Seq<u8>, first: int, count: nat) -> Option<(Seq<u8>, int)>
    decreases count,
{
    if count == 0 {
        Some((Seq::empty(), first))
    } else {
        match items_at(b, first, (count - 1) as nat) {
            None => None,
            Some((items, pos)) => if 0 <= pos <= b.len() {
                match number_at(b, pos, 255) {
                    Some((value, end)) => if end < b.len() {
                        Some((items.push(value as u8), end + 1))
                    } else {
                        None
                    },
                    None => None,
                }
            } else {
                None
            },
        }
    }
}

/// The list of twenty items written at `pos`, and the position behind it.
spec fn list_at(b: Seq<u8>, pos: int) -> Option<(Seq<u8>, int)> {
    if 0 <= pos < b.len() {
        items_at(b, pos + 1, 20)
    } else {
        None
    }
}

/// The number behind a key of `key_len` bytes at `pos`.
#[verifier::opaque]
spec fn number_member(b: Seq<u8>, pos: int, key_len: nat) -> Option<(u64, int)> {
    if 0 <= pos && pos + key_len <= b.len() {
        number_at(b, pos + key_len, u64::MAX as nat)
    } else {
        None
    }
}

/// The list behind a key of `key_len` bytes at `pos`.
#[verifier::opaque]
spec fn list_member(b: Seq<u8>, pos: int, key_len: nat) -> Option<(Seq<u8>, int)> {
    if 0 <= pos && pos + key_len <= b.len() {
        list_at(b, pos + key_len)
    } else {
        None
    }
}

/// The fields of a record as mathematical values.
struct Fields {
    open_value: u64,
    open_trader: Seq<u8>,
    open_contract_address: Seq<u8>,
    close_value: u64,
    close_trader: Seq<u8>,
    close_contract_address: Seq<u8>,
}

/// The fields of `swap`.
spec fn fields(swap: Swap) -> Fields {
    Fields {
        open_value: swap.open_value,
        open_trader: swap.open_trader@,
        open_contract_address: swap.open_contract_address@,
        close_value: swap.close_value,
        close_trader: swap.close_trader@,
        close_contract_address: swap.close_contract_address@,
    }
}

/// What stands in `b` where the text of a record has its six values.
spec fn scan(b: Seq<u8>) -> Option<Fields> {
    match number_member(b, 0, open_value_key().len()) {
        None => None,
        Some((open_value, first)) => match list_member(b, first, open_trader_key().len()) {
            None => None,
            Some((open_trader, second)) => match list_member(
                b,
                second,
                open_contract_address_key().len(),
            ) {
                None => None,
                Some((open_contract_address, third)) => match number_member(
                    b,
                    third,
                    close_value_key().len(),
                ) {
                    None => None,
                    Some((close_value, fourth)) => match list_member(
                        b,
                        fourth,
                        close_trader_key().len(),
                    ) {
                        None => None,
                        Some((close_trader, fifth)) => match list_member(
                            b,
                            fifth,
                            close_contract_address_key().len(),
                        ) {
                            None => None,
                            Some((close_contract_address, _)) => Some(
                                Fields {
                                    open_value,
                                    open_trader,
                                    open_contract_address,
                                    close_value,
                                    close_trader,
                                    close_contract_address,
                                },
                            ),
                        },
                    },
                },
            },
        },
    }
}

/// Reads the number written at `pos`.
fn read_number(b: &[u8], pos: usize, limit: u64) -> (read: Option<(u64, usize)>)
    requires
        pos <= b.len(),
    ensures
        match read {
            Some((value, end)) => number_at(b@, pos as int, limit as nat) == Some(
                (value, end as int),
            ) && end <= b.len(),
            None => number_at(b@, pos as int, limit as nat) is None,
        },
{
    let ghost s = b@.skip(pos as int);
    let mut i: usize = pos;
    let mut value: u64 = 0;
    while i < b.len() && '0' as u8 <= b[i] && b[i] <= '9' as u8
        invariant
            pos <= i <= b.len(),
            s == b@.skip(pos as int),
            forall|j: int| 0 <= j < i - pos ==> is_digit(#[trigger] s[j]),
            value == number_of(b@.subrange(pos as int, i as int)),
            value <= limit,
        decreases b.len() - i,
    {
        let d: u64 = (b[i] - '0' as u8) as u64;
        let ghost longer = b@.subrange(pos as int, i + 1);
        assert(longer.drop_last() == b@.subrange(pos as int, i as int));
        if d > limit || value > (limit - d) / 10 {
            proof {
                lemma_leading_digits(s, (i + 1 - pos) as nat);
                lemma_leading_digits_bound(s);
                let count = leading_digits(s);
                let all = b@.subrange(pos as int, pos + count);
                lemma_number_of_prefix(all, (i + 1 - pos) as nat);
                assert(all.take(i + 1 - pos) == longer);
            }
            return None;
        }
        value = value * 10 + d;
        i = i + 1;
    }
    proof {
        lemma_leading_digits(s, (i - pos) as nat);
    }
    if i == pos {
        None
    } else {
        Some((value, i))
    }
}

/// Reads the list of twenty items written at `pos`.
fn read_list(b: &[u8], pos: usize) -> (read: Option<(Address, usize)>)
    requires
        pos <= b.len(),
    ensures
        match read {
            Some((items, end)) => list_at(b@, pos as int) == Some((items@, end as int)) && end
                <= b.len(),
            None => list_at(b@, pos as int) is None,
        },
{
    if pos >= b.len() {
        return None;
    }
    let first: usize = pos + 1;
    let mut items: Address = [0u8; 20];
    let mut at: usize = first;
    let mut i: usize = 0;
    while i < 20
        invariant
            i <= 20,
            first == pos + 1,
            at <= b.len(),
            items_at(b@, first as int, i as nat) == Some((items@.take(i as int), at as int)),
        decreases 20 - i,
    {
        let ghost before = items@;
        match read_number(b, at, 255) {
            Some((value, end)) => {
                if end >= b.len() {
                    proof {
                        lemma_items_at_stops(b@, first as int, (i + 1) as nat, 20);
                    }
                    return None;
                }
                items[i] = value as u8;
                at = end + 1;
            },
            None => {
                proof {
                    lemma_items_at_stops(b@, first as int, (i + 1) as nat, 20);
                }
                return None;
            },
        }
        i = i + 1;
    }
    Some((items, at))
}

/// Reads the number behind the key at `pos`. The key itself is not looked at.
fn read_number_member(b: &[u8], pos: usize, key: &str) -> (read: Option<(u64, usize)>)
    requires
        pos <= b.len(),
        key.is_ascii(),
    ensures
        match read {
            Some((value, end)) => number_member(b@, pos as int, key@.len()) == Some(
                (value, end as int),
            ) && end <= b.len(),
            None => number_member(b@, pos as int, key@.len()) is None,
        },
{
    proof {
        reveal(number_member);
        is_ascii_spec_bytes(key);
    }
    let key_len: usize = key.as_bytes().len();
    if key_len > b.len() - pos {
        return None;
    }
    read_number(b, pos + key_len, u64::MAX)
}

/// Reads the list behind the key at `pos`. The key itself is not looked at.
fn read_list_member(b: &[u8], pos: usize, key: &str) -> (read: Option<(Address, usize)>)
    requires
        pos <= b.len(),
        key.is_ascii(),
    ensures
        match read {
            Some((items, end)) => list_member(b@, pos as int, key@.len()) == Some(
                (items@, end as int),
            ) && end <= b.len(),
            None => list_member(b@, pos as int, key@.len()) is None,
        },
{
    proof {
        reveal(list_member);
        is_ascii_spec_bytes(key);
    }
    let key_len: usize = key.as_bytes().len();
    if key_len > b.len() - pos {
        return None;
    }
    read_list(b, pos + key_len)
}

/// Reads the six values where the text of a record has them.
fn read_record(b: &[u8]) -> (read: Option<Swap>)
    ensures
        match read {
            Some(swap) => scan(b@) == Some(fields(swap)),
            None => scan(b@) is None,
        },
{
    proof {
        reveal_strlit("{\"open_value\":");
        reveal_strlit(",\"open_trader\":");
        reveal_strlit(",\"open_contract_address\":");
        reveal_strlit(",\"close_value\":");
        reveal_strlit(",\"close_trader\":");
        reveal_strlit(",\"close_contract_address\":");
    }
    let (open_value, first) = match read_number_member(b, 0, "{\"open_value\":") {
        Some(found) => found,
        None => {
            return None;
        },
    };
    let (open_trader, second) = match read_list_member(b, first, ",\"open_trader\":") {
        Some(found) => found,
        None => {
            return None;
        },
    };
    let (open_contract_address, third) = match read_list_member(
        b,
        second,
        ",\"open_contract_address\":",
    ) {
        Some(found) => found,
        None => {
            return None;
        },
    };
    let (close_value, fourth) = match read_number_member(b, third, ",\"close_value\":") {
        Some(found) => found,
        None => {
            return None;
        },
    };
    let (close_trader, fifth) = match read_list_member(b, fourth, ",\"close_trader\":") {
        Some(found) => found,
        None => {
            return None;
        },
    };
    let (close_contract_address, _) = match read_list_member(
        b,
        fifth,
        ",\"close_contract_address\":",
    ) {
        Some(found) => found,
        None => {
            return None;
        },
    };
    Some(
        Swap {
            open_value,
            open_trader,
            open_contract_address,
            close_value,
            close_trader,
            close_contract_address,
        },
    )
}

proof fn lemma_leading_digits_bound(s: Seq<u8>)
    ensures
        leading_digits(s) <= s.len(),
    decreases s.len(),
{
    if s.len() > 0 && is_digit(s[0]) {
        lemma_leading_digits_bound(s.skip(1));
    }
}

/// A sequence that starts with `k` digits starts with at least `k` digits, and
/// with exactly `k` if it ends there or goes on with another byte.
proof fn lemma_leading_digits(s: Seq<u8>, k: nat)
    requires
        k <= s.len(),
        forall|j: int| 0 <= j < k ==> is_digit(#[trigger] s[j]),
    ensures
        leading_digits(s) >= k,
        k == s.len() || !is_digit(s[k as int]) ==> leading_digits(s) == k,
    decreases k,
{
    if k > 0 {
        let tail = s.skip(1);
        assert forall|j: int| 0 <= j < k - 1 implies is_digit(#[trigger] tail[j]) by {
            assert(tail[j] == s[j + 1]);
        }
        lemma_leading_digits(tail, (k - 1) as nat);
    }
}

/// Digits that follow do not make a number smaller.
proof fn lemma_number_of_prefix(digits: Seq<u8>, k: nat)
    requires
        k <= digits.len(),
    ensures
        number_of(digits.take(k as int)) <= number_of(digits),
    decreases digits.len(),
{
    if k == digits.len() {
        assert(digits.take(k as int) == digits);
    } else {
        lemma_number_of_prefix(digits.drop_last(), k);
        assert(digits.drop_last().take(k as int) == digits.take(k as int));
    }
}

/// The digits of a number are digits, and the number they stand for is that
/// number.
proof fn lemma_decimal(n: nat)
    ensures
        decimal(n).len() >= 1,
        forall|j: int| 0 <= j < decimal(n).len() ==> is_digit(#[trigger] decimal(n)[j]),
        number_of(decimal(n)) == n,
    decreases n,
{
    if n < 10 {
        assert(number_of(decimal(n).drop_last()) == 0);
    } else {
        lemma_decimal(n / 10);
        assert(decimal(n).drop_last() == decimal(n / 10));
    }
}

/// Where the items stop, all later reading stops.
proof fn lemma_items_at_stops(b: Seq<u8>, first: int, count: nat, more: nat)
    requires
        count <= more,
        items_at(b, first, count) is None,
    ensures
        items_at(b, first, more) is None,
    decreases more,
{
    if count < more {
        lemma_items_at_stops(b, first, count, (more - 1) as nat);
    }
}

/// Behind the head of what stands at `pos` stands the tail.
proof fn lemma_behind(b: Seq<u8>, pos: int, head: Seq<u8>, tail: Seq<u8>)
    requires
        0 <= pos <= b.len(),
        b.skip(pos) == head + tail,
    ensures
        pos + head.len() <= b.len(),
        b.skip(pos + head.len()) == tail,
        b.subrange(pos, pos + head.len()) == head,
{
    assert(b.skip(pos).skip(head.len() as int) == tail);
}

/// Where a number stands in decimal and no digit follows, that number is
/// read.
proof fn lemma_number_at_text(b: Seq<u8>, pos: int, n: nat, rest: Seq<u8>, limit: nat)
    requires
        0 <= pos <= b.len(),
        b.skip(pos) == decimal(n) + rest,
        rest.len() == 0 || !is_digit(rest[0]),
        n <= limit <= u64::MAX,
    ensures
        number_at(b, pos, limit) == Some((n as u64, pos + decimal(n).len())),
        pos + decimal(n).len() <= b.len(),
        b.skip(pos + decimal(n).len()) == rest,
{
    let s = b.skip(pos);
    let d = decimal(n);
    lemma_decimal(n);
    lemma_behind(b, pos, d, rest);
    assert forall|j: int| 0 <= j < d.len() implies is_digit(#[trigger] s[j]) by {
        assert(s[j] == d[j]);
    }
    lemma_leading_digits(s, d.len());
}

/// Where the items of a list stand, they are read one by one.
proof fn lemma_items_at_text(b: Seq<u8>, first: int, items: Seq<u8>, rest: Seq<u8>, i: nat)
    requires
        0 <= first <= b.len(),
        items.len() >= 1,
        b.skip(first) == items_text(items) + rest,
        i <= items.len(),
    ensures
        items_at(b, first, i) matches Some((read, pos)) && read == items.take(i as int) && 0 <= pos
            <= b.len() && b.skip(pos) == (if i < items.len() {
            items_text(items.skip(i as int)) + rest
        } else {
            rest
        }),
    decreases i,
{
    if i == 0 {
        assert(items.skip(0) == items);
    } else {
        lemma_items_at_text(b, first, items, rest, (i - 1) as nat);
        let (read, pos) = items_at(b, first, (i - 1) as nat)->Some_0;
        let tail = items.skip(i - 1);
        let x = tail[0];
        let d = decimal(x as nat);
        if tail.len() == 1 {
            let close = seq![']' as u8];
            assert((d + close) + rest == d + (close + rest));
            lemma_number_at_text(b, pos, x as nat, close + rest, 255);
            lemma_behind(b, pos + d.len(), close, rest);
        } else {
            let comma = seq![',' as u8];
            let after = items_text(tail.skip(1));
            assert(tail.skip(1) == items.skip(i as int));
            assert((d + (comma + after)) + rest == d + (comma + (after + rest)));
            lemma_number_at_text(b, pos, x as nat, comma + (after + rest), 255);
            lemma_behind(b, pos + d.len(), comma, after + rest);
        }
    }
}

/// Where a number stands behind its key and no digit follows, it is read.
proof fn lemma_number_member_text(b: Seq<u8>, pos: int, key: Seq<u8>, n: u64, rest: Seq<u8>)
    requires
        0 <= pos <= b.len(),
        b.skip(pos) == key + (decimal(n as nat) + rest),
        rest.len() == 0 || !is_digit(rest[0]),
    ensures
        number_member(b, pos, key.len()) matches Some((value, end)) && value == n && 0 <= end
            <= b.len() && b.skip(end) == rest,
{
    reveal(number_member);
    lemma_behind(b, pos, key, decimal(n as nat) + rest);
    lemma_number_at_text(b, pos + key.len(), n as nat, rest, u64::MAX as nat);
}

/// Where a list of twenty items stands behind its key, it is read.
proof fn lemma_list_member_text(b: Seq<u8>, pos: int, key: Seq<u8>, items: Seq<u8>, rest: Seq<u8>)
    requires
        0 <= pos <= b.len(),
        items.len() == 20,
        b.skip(pos) == key + (list_text(items) + rest),
    ensures
        list_member(b, pos, key.len()) matches Some((read, end)) && read == items && 0 <= end
            <= b.len() && b.skip(end) == rest,
{
    reveal(list_member);
    let open = seq!['[' as u8];
    lemma_behind(b, pos, key, list_text(items) + rest);
    assert((open + items_text(items)) + rest == open + (items_text(items) + rest));
    lemma_behind(b, pos + key.len(), open, items_text(items) + rest);
    lemma_items_at_text(b, pos + key.len() + 1, items, rest, 20);
}

/// In the text of a record stand its fields.
proof fn lemma_scan_text(swap: Swap)
    ensures
        scan(record_text(swap)) == Some(fields(swap)),
{
    let b = record_text(swap);
    let t12 = seq!['}' as u8];
    let t10 = close_contract_address_key() + (list_text(swap.close_contract_address@) + t12);
    let t8 = close_trader_key() + (list_text(swap.close_trader@) + t10);
    let t6 = close_value_key() + (decimal(swap.close_value as nat) + t8);
    let t4 = open_contract_address_key() + (list_text(swap.open_contract_address@) + t6);
    let t2 = open_trader_key() + (list_text(swap.open_trader@) + t4);
    assert(b.skip(0) == b);
    assert(t2[0] == ',' as u8) by {
        reveal_strlit(",\"open_trader\":");
    }
    assert(t8[0] == ',' as u8) by {
        reveal_strlit(",\"close_trader\":");
    }
    lemma_number_member_text(b, 0, open_value_key(), swap.open_value, t2);
    let first = number_member(b, 0, open_value_key().len())->Some_0.1;
    lemma_list_member_text(b, first, open_trader_key(), swap.open_trader@, t4);
    let second = list_member(b, first, open_trader_key().len())->Some_0.1;
    lemma_list_member_text(
        b,
        second,
        open_contract_address_key(),
        swap.open_contract_address@,
        t6,
    );
    let third = list_member(b, second, open_contract_address_key().len())->Some_0.1;
    lemma_number_member_text(b, third, close_value_key(), swap.close_value, t8);
    let fourth = number_member(b, third, close_value_key().len())->Some_0.1;
    lemma_list_member_text(b, fourth, close_trader_key(), swap.close_trader@, t10);
    let fifth = list_member(b, fourth, close_trader_key().len())->Some_0.1;
    lemma_list_member_text(
        b,
        fifth,
        close_contract_address_key(),
        swap.close_contract_address@,
        t12,
    );
}

/// Two records with the same fields are the same record.
proof fn lemma_same_fields(a: Swap, b: Swap)
    requires
        fields(a) == fields(b),
    ensures
        a == b,
{
    assert(a.open_trader =~= b.open_trader);
    assert(a.open_contract_address =~= b.open_contract_address);
    assert(a.close_trader =~= b.close_trader);
    assert(a.close_contract_address =~= b.close_contract_address);
}

} // verus!
