//! The JSON form of the demo payload: an object with the height, the
//! timestamp and the data as an array of numbers, written without spaces
//! and with every number in its shortest decimal form.

use vstd::prelude::*;

verus! {

/// The byte of a decimal digit.
pub open spec fn digit_byte(d: nat) -> u8
    recommends
        d < 10,
{
    (48 + d) as u8
}

/// Whether a byte is a decimal digit.
pub open spec fn is_digit(b: u8) -> bool {
    48 <= b <= 57
}

/// The decimal numeral of a number, as bytes.
pub open spec fn decimal_bytes(n: nat) -> Seq<u8>
    decreases n,
{
    if n < 10 {
        seq![digit_byte(n)]
    } else {
        decimal_bytes(n / 10).push(digit_byte(n % 10))
    }
}

/// The number that decimal digits denote.
pub open spec fn digits_value(s: Seq<u8>) -> nat
    decreases s.len(),
{
    if s.len() == 0 {
        0
    } else {
        digits_value(s.drop_last()) * 10 + (s.last() - 48) as nat
    }
}

/// Whether all bytes are decimal digits.
pub open spec fn all_digits(s: Seq<u8>) -> bool {
    forall|i: int| 0 <= i < s.len() ==> is_digit(#[trigger] s[i])
}

/// Whether the bytes are a numeral in its shortest form: digits, at least
/// one, without a leading zero but for zero itself.
pub open spec fn canonical(s: Seq<u8>) -> bool {
    &&& s.len() > 0
    &&& all_digits(s)
    &&& s.len() > 1 ==> s[0] != 48
}

/// The numeral of a number is in shortest form and denotes the number.
pub proof fn lemma_decimal_denotes(n: nat)
    ensures
        canonical(decimal_bytes(n)),
        digits_value(decimal_bytes(n)) == n,
        n > 0 ==> decimal_bytes(n)[0] != 48,
    decreases n,
{
    if n < 10 {
        let s = decimal_bytes(n);
        assert(s.drop_last() =~= Seq::<u8>::empty());
        assert(digits_value(s.drop_last()) == 0);
    } else {
        lemma_decimal_denotes(n / 10);
        let head = decimal_bytes(n / 10);
        let s = decimal_bytes(n);
        assert(s.drop_last() =~= head);
        assert(s.last() == digit_byte(n % 10));
        assert(s[0] == head[0]);
        assert forall|i: int| 0 <= i < s.len() implies is_digit(#[trigger] s[i]) by {
            if i < head.len() {
                assert(s[i] == head[i]);
            }
        }
    }
}

/// A numeral in shortest form whose first digit is not zero denotes a
/// positive number.
pub proof fn lemma_value_positive(s: Seq<u8>)
    requires
        s.len() > 0,
        all_digits(s),
        s[0] != 48,
    ensures
        digits_value(s) > 0,
    decreases s.len(),
{
    if s.len() > 1 {
        let head = s.drop_last();
        assert forall|i: int| 0 <= i < head.len() implies is_digit(#[trigger] head[i]) by {
            assert(head[i] == s[i]);
        }
        assert(head[0] == s[0]);
        lemma_value_positive(head);
    } else {
        assert(s.drop_last() =~= Seq::<u8>::empty());
        assert(digits_value(s.drop_last()) == 0);
        assert(is_digit(s[0]));
    }
}

/// A numeral in shortest form is the numeral of the number it denotes.
pub proof fn lemma_canonical_is_decimal(s: Seq<u8>)
    requires
        canonical(s),
    ensures
        decimal_bytes(digits_value(s)) == s,
    decreases s.len(),
{
    let head = s.drop_last();
    assert(is_digit(s.last()));
    let d = (s.last() - 48) as nat;
    if s.len() == 1 {
        assert(head =~= Seq::<u8>::empty());
        assert(digits_value(head) == 0);
        assert(digits_value(s) == d);
        assert(decimal_bytes(d) =~= s);
    } else {
        assert forall|i: int| 0 <= i < head.len() implies is_digit(#[trigger] head[i]) by {
            assert(head[i] == s[i]);
        }
        assert(head[0] == s[0]);
        lemma_value_positive(head);
        lemma_canonical_is_decimal(head);
        let v = digits_value(head);
        assert(digits_value(s) == v * 10 + d);
        assert((v * 10 + d) / 10 == v && (v * 10 + d) % 10 == d) by (nonlinear_arith)
            requires
                d < 10,
        ;
        assert(decimal_bytes(v * 10 + d) =~= s);
    }
}

/// The digits that a prefix of digits denotes are at most what the whole
/// denotes.
pub proof fn lemma_value_grows(s: Seq<u8>, k: int)
    requires
        all_digits(s),
        0 <= k <= s.len(),
    ensures
        digits_value(s.take(k)) <= digits_value(s),
    decreases s.len() - k,
{
    if k < s.len() {
        let head = s.drop_last();
        assert forall|i: int| 0 <= i < head.len() implies is_digit(#[trigger] head[i]) by {
            assert(head[i] == s[i]);
        }
        assert(is_digit(s.last()));
        if k < head.len() {
            lemma_value_grows(head, k);
            assert(head.take(k) =~= s.take(k));
        } else {
            assert(s.take(k) =~= head);
        }
        assert(digits_value(head) <= digits_value(head) * 10) by (nonlinear_arith);
    } else {
        assert(s.take(k) =~= s);
    }
}

/// The number of digits at the start of the bytes.
pub open spec fn digit_run(s: Seq<u8>) -> nat
    decreases s.len(),
{
    if s.len() > 0 && is_digit(s[0]) {
        1 + digit_run(s.drop_first())
    } else {
        0
    }
}

/// The digits at the start of the bytes.
pub open spec fn leading_digits(s: Seq<u8>) -> Seq<u8> {
    s.take(digit_run(s) as int)
}

/// The number at the start of the bytes and the length of its numeral: the
/// digits there, if they are a numeral in shortest form.
pub open spec fn parse_number(s: Seq<u8>) -> Option<(nat, nat)> {
    if canonical(leading_digits(s)) {
        Some((digits_value(leading_digits(s)), digit_run(s)))
    } else {
        None
    }
}

/// The digits at the start are digits, and no more of them than bytes.
pub proof fn lemma_digit_run_bounds(s: Seq<u8>)
    ensures
        digit_run(s) <= s.len(),
        all_digits(leading_digits(s)),
        digit_run(s) < s.len() ==> !is_digit(s[digit_run(s) as int]),
    decreases s.len(),
{
    if s.len() > 0 && is_digit(s[0]) {
        let rest = s.drop_first();
        lemma_digit_run_bounds(rest);
        let run = leading_digits(s);
        assert forall|i: int| 0 <= i < run.len() implies is_digit(#[trigger] run[i]) by {
            if i > 0 {
                assert(run[i] == leading_digits(rest)[i - 1]);
            }
        }
        if digit_run(s) < s.len() {
            assert(s[digit_run(s) as int] == rest[digit_run(rest) as int]);
        }
    }
}

/// Digits that something else than a digit follows are the digits at the
/// start.
pub proof fn lemma_digit_run_is(s: Seq<u8>, k: int)
    requires
        0 <= k <= s.len(),
        forall|i: int| 0 <= i < k ==> is_digit(#[trigger] s[i]),
        k == s.len() || !is_digit(s[k]),
    ensures
        digit_run(s) == k,
    decreases k,
{
    if k > 0 {
        let rest = s.drop_first();
        assert(is_digit(s[0]));
        assert forall|i: int| 0 <= i < k - 1 implies is_digit(#[trigger] rest[i]) by {
            assert(rest[i] == s[i + 1]);
        }
        if k < s.len() {
            assert(rest[k - 1] == s[k]);
        }
        lemma_digit_run_is(rest, k - 1);
    }
}

/// As many digits as stand at the start are at least those that are known
/// to stand there.
pub proof fn lemma_digit_run_at_least(s: Seq<u8>, k: int)
    requires
        0 <= k <= s.len(),
        forall|i: int| 0 <= i < k ==> is_digit(#[trigger] s[i]),
    ensures
        digit_run(s) >= k,
    decreases k,
{
    if k > 0 {
        let rest = s.drop_first();
        assert(is_digit(s[0]));
        assert forall|i: int| 0 <= i < k - 1 implies is_digit(#[trigger] rest[i]) by {
            assert(rest[i] == s[i + 1]);
        }
        lemma_digit_run_at_least(rest, k - 1);
    }
}

/// A numeral, followed by something else than a digit, is parsed as the
/// number it denotes.
pub proof fn lemma_parse_decimal(n: nat, rest: Seq<u8>)
    requires
        rest.len() == 0 || !is_digit(rest[0]),
    ensures
        parse_number(decimal_bytes(n) + rest) == Some((n, decimal_bytes(n).len())),
{
    let numeral = decimal_bytes(n);
    let s = numeral + rest;
    lemma_decimal_denotes(n);
    assert forall|i: int| 0 <= i < numeral.len() implies is_digit(#[trigger] s[i]) by {
        assert(s[i] == numeral[i]);
        assert(is_digit(numeral[i]));
    }
    if numeral.len() < s.len() {
        assert(s[numeral.len() as int] == rest[0]);
    }
    lemma_digit_run_is(s, numeral.len() as int);
    assert(leading_digits(s) =~= numeral);
}

/// What was parsed as a number is the numeral of that number.
pub proof fn lemma_parsed_is_decimal(s: Seq<u8>)
    requires
        parse_number(s) is Some,
    ensures
        leading_digits(s) == decimal_bytes(parse_number(s).unwrap().0),
        parse_number(s).unwrap().1 == decimal_bytes(parse_number(s).unwrap().0).len(),
        parse_number(s).unwrap().1 <= s.len(),
        parse_number(s).unwrap().1 > 0,
        parse_number(s).unwrap().1 < s.len() ==> !is_digit(s[parse_number(s).unwrap().1 as int]),
{
    lemma_digit_run_bounds(s);
    lemma_canonical_is_decimal(leading_digits(s));
}

/// Reads the number that stands at a place in the bytes, if a numeral in
/// shortest form stands there and its number is at most the limit. Returns
/// the number and the place behind the numeral.
pub fn read_number(bytes: &[u8], at: usize, limit: u64) -> (found: Option<(u64, usize)>)
    requires
        at <= bytes.len(),
    ensures
        match parse_number(bytes@.skip(at as int)) {
            Some((value, length)) => if value <= limit {
                &&& found is Some
                &&& found.unwrap().0 == value
                &&& found.unwrap().1 == at + length
            } else {
                found is None
            },
            None => found is None,
        },
        found is Some ==> at < found.unwrap().1 <= bytes.len(),
{
    let ghost s = bytes@.skip(at as int);
    let mut i: usize = at;
    let mut value: u64 = 0;
    proof {
        assert(bytes@.subrange(at as int, at as int) =~= Seq::<u8>::empty());
    }
    while i < bytes.len() && bytes[i] >= 48 && bytes[i] <= 57
        invariant
            at <= i <= bytes.len(),
            s == bytes@.skip(at as int),
            forall|k: int| 0 <= k < i - at ==> is_digit(#[trigger] s[k]),
            value == digits_value(bytes@.subrange(at as int, i as int)),
            value <= limit,
            i - at > 1 ==> bytes[at as int] != 48,
        decreases bytes.len() - i,
    {
        let digit = bytes[i] - 48;
        let ghost seen = bytes@.subrange(at as int, i as int);
        let ghost more = bytes@.subrange(at as int, i + 1);
        proof {
            assert(more.drop_last() =~= seen);
            assert(more.last() == bytes[i as int]);
            assert(digits_value(more) == value * 10 + digit);
            assert(s[i - at] == bytes[i as int]);
            assert forall|k: int| 0 <= k < i + 1 - at implies is_digit(#[trigger] s[k]) by {
                if k == i - at {
                    assert(s[k] == bytes[i as int]);
                }
            }
            lemma_digit_run_at_least(s, i + 1 - at);
            lemma_digit_run_bounds(s);
            assert(more =~= leading_digits(s).take(i + 1 - at));
            lemma_value_grows(leading_digits(s), i + 1 - at);
        }
        if i == at + 1 && bytes[at] == 48 {
            proof {
                assert(leading_digits(s)[0] == s[0]);
                assert(s[0] == bytes[at as int]);
            }
            return None;
        }
        let next = (value as u128) * 10 + (digit as u128);
        if next > limit as u128 {
            return None;
        }
        value = next as u64;
        i = i + 1;
    }
    if i == at {
        proof {
            lemma_digit_run_is(s, 0);
            assert(leading_digits(s) =~= Seq::<u8>::empty());
        }
        return None;
    }
    proof {
        if i < bytes.len() {
            assert(s[i - at] == bytes[i as int]);
        }
        lemma_digit_run_is(s, i - at);
        assert(leading_digits(s) =~= bytes@.subrange(at as int, i as int));
        assert(leading_digits(s)[0] == bytes[at as int]);
        assert forall|k: int| 0 <= k < leading_digits(s).len() implies is_digit(
            #[trigger] leading_digits(s)[k],
        ) by {
            assert(leading_digits(s)[k] == s[k]);
        }
    }
    Some((value, i))
}

/// Appends the numeral of a number to a buffer.
pub fn write_number(buffer: &mut Vec<u8>, n: u64)
    ensures
        final(buffer)@ == old(buffer)@ + decimal_bytes(n as nat),
    decreases n,
{
    if n < 10 {
        buffer.push(48 + (n as u8));
        assert(buffer@ =~= old(buffer)@ + decimal_bytes(n as nat));
    } else {
        write_number(buffer, n / 10);
        buffer.push(48 + ((n % 10) as u8));
        assert(buffer@ =~= old(buffer)@ + decimal_bytes(n as nat));
    }
}

/// The byte of the comma between the items of an array.
pub const COMMA: u8 = 44;

/// The byte of the bracket that ends an array.
pub const ARRAY_END: u8 = 93;

/// The numerals of the items of an array that is not empty, with commas
/// between them.
pub open spec fn items_bytes(data: Seq<u8>) -> Seq<u8>
    decreases data.len(),
{
    if data.len() == 0 {
        Seq::empty()
    } else if data.len() == 1 {
        decimal_bytes(data[0] as nat)
    } else {
        decimal_bytes(data[0] as nat) + seq![COMMA] + items_bytes(data.drop_first())
    }
}

/// The items at the start of the bytes and the length of their text: one
/// numeral of at most 255, and further ones as long as a comma follows.
pub open spec fn parse_items(s: Seq<u8>) -> Option<(Seq<u8>, nat)>
    decreases s.len(),
{
    match parse_number(s) {
        Some((value, length)) => if value > 255 {
            None
        } else if length < s.len() && s[length as int] == COMMA {
            match parse_items(s.skip(length as int + 1)) {
                Some((rest, more)) => Some((seq![value as u8] + rest, length + 1 + more)),
                None => None,
            }
        } else {
            Some((seq![value as u8], length))
        },
        None => None,
    }
}

/// The items of the array whose text, behind the opening bracket, starts
/// the bytes, and the length of the text of the items.
pub open spec fn parse_list(s: Seq<u8>) -> Option<(Seq<u8>, nat)> {
    if s.len() > 0 && s[0] == ARRAY_END {
        Some((Seq::empty(), 0))
    } else {
        parse_items(s)
    }
}

/// Whether a byte can follow the last item of an array: it is neither a
/// digit nor a comma.
pub open spec fn ends_items(b: u8) -> bool {
    !is_digit(b) && b != COMMA
}

/// The text of items, followed by what ends them, is parsed as the items.
pub proof fn lemma_parse_items_bytes(data: Seq<u8>, rest: Seq<u8>)
    requires
        data.len() > 0,
        rest.len() == 0 || ends_items(rest[0]),
    ensures
        parse_items(items_bytes(data) + rest) == Some((data, items_bytes(data).len())),
    decreases data.len(),
{
    let first = decimal_bytes(data[0] as nat);
    let s = items_bytes(data) + rest;
    lemma_decimal_denotes(data[0] as nat);
    if data.len() == 1 {
        lemma_parse_decimal(data[0] as nat, rest);
        assert(s =~= first + rest);
        if first.len() < s.len() {
            assert(s[first.len() as int] == rest[0]);
        }
        assert(seq![data[0]] =~= data);
    } else {
        let tail = data.drop_first();
        let after = seq![COMMA] + items_bytes(tail) + rest;
        assert(s =~= first + after);
        assert(after[0] == COMMA);
        lemma_parse_decimal(data[0] as nat, after);
        assert(s[first.len() as int] == after[0]);
        assert(s.skip(first.len() as int + 1) =~= items_bytes(tail) + rest);
        lemma_parse_items_bytes(tail, rest);
        assert(seq![data[0]] + tail =~= data);
        assert(items_bytes(data).len() == first.len() + 1 + items_bytes(tail).len());
    }
}

/// What was parsed as items is the text of those items, and what follows
/// it ends the items.
pub proof fn lemma_parsed_items(s: Seq<u8>)
    requires
        parse_items(s) is Some,
    ensures
        parse_items(s).unwrap().0.len() > 0,
        parse_items(s).unwrap().1 <= s.len(),
        s.take(parse_items(s).unwrap().1 as int) == items_bytes(parse_items(s).unwrap().0),
        parse_items(s).unwrap().1 < s.len() ==> ends_items(s[parse_items(s).unwrap().1 as int]),
    decreases s.len(),
{
    let (value, length) = parse_number(s).unwrap();
    lemma_parsed_is_decimal(s);
    let first = decimal_bytes(value);
    assert(s.take(length as int) == first);
    if length < s.len() && s[length as int] == COMMA {
        let tail = s.skip(length as int + 1);
        lemma_parsed_items(tail);
        let (rest, more) = parse_items(tail).unwrap();
        let data = seq![value as u8] + rest;
        assert(data.drop_first() =~= rest);
        assert(data[0] == value as u8);
        assert(items_bytes(data) == first + seq![COMMA] + items_bytes(rest));
        assert(s.take(length as int + 1 + more) =~= first + seq![COMMA] + tail.take(more as int));
        if length + 1 + more < s.len() {
            assert(s[length as int + 1 + more] == tail[more as int]);
        }
    } else {
        let data = seq![value as u8];
        assert(items_bytes(data) == first);
    }
}

/// Reads the items of an array whose text stands at a place in the bytes.
/// Returns the items and the place behind their text.
#[verifier::spinoff_prover]
#[verifier::rlimit(60)]
pub fn read_list(bytes: &[u8], at: usize) -> (found: Option<(Vec<u8>, usize)>)
    requires
        at <= bytes.len(),
    ensures
        match parse_list(bytes@.skip(at as int)) {
            Some((items, length)) => found is Some && found.unwrap().0@ == items
                && found.unwrap().1 == at + length,
            None => found is None,
        },
        found is Some ==> at <= found.unwrap().1 <= bytes.len(),
{
    let mut items: Vec<u8> = Vec::new();
    if at < bytes.len() && bytes[at] == ARRAY_END {
        return Some((items, at));
    }
    let ghost whole = bytes@.skip(at as int);
    let mut i: usize = at;
    proof {
        if at < bytes.len() {
            assert(whole[0] == bytes[at as int]);
        }
        assert(items@ + parse_items(whole).unwrap().0 =~= parse_items(whole).unwrap().0);
    }
    loop
        invariant
            at <= i <= bytes.len(),
            whole == bytes@.skip(at as int),
            parse_list(whole) == parse_items(whole),
            match parse_items(bytes@.skip(i as int)) {
                Some((rest, more)) => parse_items(whole) == Some((items@ + rest, (i - at + more) as nat)),
                None => parse_items(whole) is None,
            },
        decreases bytes.len() - i,
    {
        let ghost here = bytes@.skip(i as int);
        let ghost before = items@;
        match read_number(bytes, i, 255) {
            None => {
                return None;
            },
            Some((value, end)) => {
                proof {
                    lemma_parsed_is_decimal(here);
                }
                items.push(value as u8);
                if end < bytes.len() && bytes[end] == COMMA {
                    proof {
                        assert(here[end - i] == bytes[end as int]);
                        assert(here.skip(end - i + 1) =~= bytes@.skip(end + 1));
                        match parse_items(bytes@.skip(end + 1)) {
                            Some((rest, more)) => {
                                assert(before + (seq![value as u8] + rest) =~= items@ + rest);
                            },
                            None => {},
                        }
                    }
                    i = end + 1;
                } else {
                    proof {
                        if end < bytes.len() {
                            assert(here[end - i] == bytes[end as int]);
                        }
                        assert(before + seq![value as u8] =~= items@);
                    }
                    return Some((items, end));
                }
            },
        }
    }
}

/// The text of items with one more item at the end is the text of the
/// items, a comma and the numeral of the item.
pub proof fn lemma_items_append(data: Seq<u8>, item: u8)
    requires
        data.len() > 0,
    ensures
        items_bytes(data.push(item)) == items_bytes(data) + seq![COMMA] + decimal_bytes(
            item as nat,
        ),
    decreases data.len(),
{
    let longer = data.push(item);
    assert(longer[0] == data[0]);
    if data.len() == 1 {
        assert(longer.drop_first() =~= seq![item]);
        assert(items_bytes(seq![item]) == decimal_bytes(item as nat));
    } else {
        let tail = data.drop_first();
        assert(longer.drop_first() =~= tail.push(item));
        lemma_items_append(tail, item);
        assert(items_bytes(longer) =~= items_bytes(data) + seq![COMMA] + decimal_bytes(
            item as nat,
        ));
    }
}

/// Appends the text of the items of an array to a buffer.
pub fn write_list(buffer: &mut Vec<u8>, data: &Vec<u8>)
    ensures
        final(buffer)@ == old(buffer)@ + items_bytes(data@),
{
    let mut i: usize = 0;
    proof {
        assert(data@.take(0) =~= Seq::<u8>::empty());
        assert(buffer@ + Seq::<u8>::empty() =~= buffer@);
    }
    while i < data.len()
        invariant
            i <= data.len(),
            buffer@ == old(buffer)@ + items_bytes(data@.take(i as int)),
        decreases data.len() - i,
    {
        let ghost written = data@.take(i as int);
        let ghost before = buffer@;
        if i > 0 {
            buffer.push(COMMA);
        }
        write_number(buffer, data[i] as u64);
        proof {
            assert(data@.take(i + 1) =~= written.push(data[i as int]));
            if i > 0 {
                lemma_items_append(written, data[i as int]);
                assert(buffer@ =~= old(buffer)@ + items_bytes(data@.take(i + 1)));
            } else {
                assert(written.push(data[i as int]).len() == 1);
                assert(buffer@ =~= old(buffer)@ + items_bytes(data@.take(i + 1)));
            }
        }
        i = i + 1;
    }
    proof {
        assert(data@.take(data.len() as int) =~= data@);
    }
}

/// The text that opens the object and names the height: `{"height":`.
pub open spec fn height_key() -> Seq<u8> {
    seq![123u8, 34, 104, 101, 105, 103, 104, 116, 34, 58]
}

/// The text that names the timestamp: `,"timestamp":`.
pub open spec fn timestamp_key() -> Seq<u8> {
    seq![44u8, 34, 116, 105, 109, 101, 115, 116, 97, 109, 112, 34, 58]
}

/// The text that names the data and opens its array: `,"data":[`.
pub open spec fn data_key() -> Seq<u8> {
    seq![44u8, 34, 100, 97, 116, 97, 34, 58, 91]
}

/// The text that closes the array and the object: `]}`.
pub open spec fn closing() -> Seq<u8> {
    seq![ARRAY_END, 125u8]
}

/// The JSON text of a payload with the height, the timestamp and the data.
pub open spec fn demo_json(height: u64, timestamp: u64, data: Seq<u8>) -> Seq<u8> {
    height_key() + decimal_bytes(height as nat) + timestamp_key() + decimal_bytes(
        timestamp as nat,
    ) + data_key() + items_bytes(data) + closing()
}

/// Whether the bytes start with the key.
pub open spec fn starts_with(s: Seq<u8>, key: Seq<u8>) -> bool {
    key.len() <= s.len() && s.take(key.len() as int) == key
}

/// The number of the field whose key and numeral start the bytes, and the
/// bytes behind the numeral.
pub open spec fn parse_field(s: Seq<u8>, key: Seq<u8>) -> Option<(nat, Seq<u8>)> {
    if starts_with(s, key) {
        match parse_number(s.skip(key.len() as int)) {
            Some((value, length)) => Some((value, s.skip(key.len() as int).skip(length as int))),
            None => None,
        }
    } else {
        None
    }
}

/// The items of the array whose key and items start the bytes, and the
/// bytes behind the items.
pub open spec fn parse_array(s: Seq<u8>) -> Option<(Seq<u8>, Seq<u8>)> {
    if starts_with(s, data_key()) {
        match parse_list(s.skip(data_key().len() as int)) {
            Some((data, length)) => Some(
                (data, s.skip(data_key().len() as int).skip(length as int)),
            ),
            None => None,
        }
    } else {
        None
    }
}

/// The height, the timestamp and the data that the bytes are the JSON text
/// of, if they are the text of a payload.
pub open spec fn parse_demo_json(s: Seq<u8>) -> Option<(u64, u64, Seq<u8>)> {
    match parse_field(s, height_key()) {
        Some((height, s1)) => match parse_field(s1, timestamp_key()) {
            Some((timestamp, s2)) => match parse_array(s2) {
                Some((data, s3)) => if height <= u64::MAX && timestamp <= u64::MAX && s3
                    == closing() {
                    Some((height as u64, timestamp as u64, data))
                } else {
                    None
                },
                None => None,
            },
            None => None,
        },
        None => None,
    }
}

/// A key, a numeral and what follows it, which is no digit, are parsed as
/// the field of the number.
pub proof fn lemma_parse_field(key: Seq<u8>, value: nat, rest: Seq<u8>)
    requires
        rest.len() == 0 || !is_digit(rest[0]),
    ensures
        parse_field(key + decimal_bytes(value) + rest, key) == Some((value, rest)),
{
    let numeral = decimal_bytes(value);
    let s = key + numeral + rest;
    assert(s.take(key.len() as int) =~= key);
    assert(s.skip(key.len() as int) =~= numeral + rest);
    lemma_parse_decimal(value, rest);
    assert((numeral + rest).skip(numeral.len() as int) =~= rest);
}

/// What was parsed as a field is the key, the numeral of the number and
/// the bytes behind it.
pub proof fn lemma_parsed_field(s: Seq<u8>, key: Seq<u8>)
    requires
        parse_field(s, key) is Some,
    ensures
        s == key + decimal_bytes(parse_field(s, key).unwrap().0) + parse_field(s, key).unwrap().1,
{
    let after = s.skip(key.len() as int);
    let (value, length) = parse_number(after).unwrap();
    lemma_parsed_is_decimal(after);
    assert(after =~= after.take(length as int) + after.skip(length as int));
    assert(s =~= s.take(key.len() as int) + after);
    assert(s =~= key + decimal_bytes(value) + after.skip(length as int));
}

/// The key of the data, the text of the items and what closes the array
/// are parsed as the array of the items.
pub proof fn lemma_parse_array(data: Seq<u8>, rest: Seq<u8>)
    requires
        rest.len() > 0,
        rest[0] == ARRAY_END,
    ensures
        parse_array(data_key() + items_bytes(data) + rest) == Some((data, rest)),
{
    let items = items_bytes(data);
    let s = data_key() + items + rest;
    let after = items + rest;
    assert(s.take(data_key().len() as int) =~= data_key());
    assert(s.skip(data_key().len() as int) =~= after);
    if data.len() == 0 {
        assert(after =~= rest);
        assert(after.skip(0) =~= rest);
    } else {
        lemma_decimal_denotes(data[0] as nat);
        let first = decimal_bytes(data[0] as nat);
        assert(is_digit(first[0]));
        assert(items[0] == first[0]);
        assert(after[0] == items[0]);
        lemma_parse_items_bytes(data, rest);
        assert(after.skip(items.len() as int) =~= rest);
    }
}

/// What was parsed as an array is the key of the data, the text of the
/// items and the bytes behind it.
pub proof fn lemma_parsed_array(s: Seq<u8>)
    requires
        parse_array(s) is Some,
    ensures
        s == data_key() + items_bytes(parse_array(s).unwrap().0) + parse_array(s).unwrap().1,
{
    let after = s.skip(data_key().len() as int);
    let (data, length) = parse_list(after).unwrap();
    if after.len() > 0 && after[0] == ARRAY_END {
        assert(after.take(0) =~= items_bytes(data));
    } else {
        lemma_parsed_items(after);
    }
    assert(after =~= after.take(length as int) + after.skip(length as int));
    assert(s =~= s.take(data_key().len() as int) + after);
    assert(s =~= data_key() + items_bytes(data) + after.skip(length as int));
}

/// The text of a payload is parsed as that payload.
pub proof fn lemma_parse_encoded(height: u64, timestamp: u64, data: Seq<u8>)
    ensures
        parse_demo_json(demo_json(height, timestamp, data)) == Some((height, timestamp, data)),
{
    let s3 = closing();
    let s2 = data_key() + items_bytes(data) + s3;
    let s1 = timestamp_key() + decimal_bytes(timestamp as nat) + s2;
    let s = height_key() + decimal_bytes(height as nat) + s1;
    assert(s =~= demo_json(height, timestamp, data));
    assert(s1[0] == 44);
    assert(s2[0] == 44);
    assert(s3[0] == ARRAY_END);
    lemma_parse_field(height_key(), height as nat, s1);
    lemma_parse_field(timestamp_key(), timestamp as nat, s2);
    lemma_parse_array(data, s3);
}

/// What was parsed as a payload is the text of that payload.
pub proof fn lemma_parsed_is_encoded(s: Seq<u8>)
    requires
        parse_demo_json(s) is Some,
    ensures
        s == demo_json(
            parse_demo_json(s).unwrap().0,
            parse_demo_json(s).unwrap().1,
            parse_demo_json(s).unwrap().2,
        ),
{
    let (height, s1) = parse_field(s, height_key()).unwrap();
    let (timestamp, s2) = parse_field(s1, timestamp_key()).unwrap();
    let (data, s3) = parse_array(s2).unwrap();
    lemma_parsed_field(s, height_key());
    lemma_parsed_field(s1, timestamp_key());
    lemma_parsed_array(s2);
    assert(s =~= demo_json(height as u64, timestamp as u64, data));
}

/// The bytes of `{"height":`.
fn opening_key() -> (key: [u8; 10])
    ensures
        key@ == height_key(),
{
    let key: [u8; 10] = [123, 34, 104, 101, 105, 103, 104, 116, 34, 58];
    assert(key@ =~= height_key());
    key
}

/// The bytes of `,"timestamp":`.
fn stamp_key() -> (key: [u8; 13])
    ensures
        key@ == timestamp_key(),
{
    let key: [u8; 13] = [44, 34, 116, 105, 109, 101, 115, 116, 97, 109, 112, 34, 58];
    assert(key@ =~= timestamp_key());
    key
}

/// The bytes of `,"data":[`.
fn array_key() -> (key: [u8; 9])
    ensures
        key@ == data_key(),
{
    let key: [u8; 9] = [44, 34, 100, 97, 116, 97, 34, 58, 91];
    assert(key@ =~= data_key());
    key
}

/// The bytes of `]}`.
fn closing_key() -> (key: [u8; 2])
    ensures
        key@ == closing(),
{
    let key: [u8; 2] = [ARRAY_END, 125];
    assert(key@ =~= closing());
    key
}

/// Appends bytes to a buffer.
fn write_bytes(buffer: &mut Vec<u8>, bytes: &[u8])
    ensures
        final(buffer)@ == old(buffer)@ + bytes@,
{
    let mut i: usize = 0;
    while i < bytes.len()
        invariant
            i <= bytes.len(),
            buffer@ == old(buffer)@ + bytes@.take(i as int),
        decreases bytes.len() - i,
    {
        buffer.push(bytes[i]);
        i = i + 1;
        assert(buffer@ =~= old(buffer)@ + bytes@.take(i as int));
    }
    assert(bytes@.take(bytes.len() as int) =~= bytes@);
}

/// Checks that the key stands at a place in the bytes, and returns the
/// place behind it.
fn expect(bytes: &[u8], at: usize, key: &[u8]) -> (behind: Option<usize>)
    requires
        at <= bytes.len(),
    ensures
        match behind {
            Some(place) => starts_with(bytes@.skip(at as int), key@) && place == at + key@.len(),
            None => !starts_with(bytes@.skip(at as int), key@),
        },
{
    let ghost s = bytes@.skip(at as int);
    if key.len() > bytes.len() - at {
        return None;
    }
    let mut i: usize = 0;
    while i < key.len()
        invariant
            i <= key.len(),
            key.len() <= bytes.len() - at,
            s == bytes@.skip(at as int),
            forall|k: int| 0 <= k < i ==> s[k] == key[k],
        decreases key.len() - i,
    {
        if bytes[at + i] != key[i] {
            proof {
                assert(s[i as int] == bytes[at + i]);
                assert(s.take(key@.len() as int)[i as int] == s[i as int]);
            }
            return None;
        }
        proof {
            assert(s[i as int] == bytes[at + i]);
        }
        i = i + 1;
    }
    assert(s.take(key@.len() as int) =~= key@);
    Some(at + key.len())
}

/// Writes the JSON text of a payload with the height, the timestamp and
/// the data.
pub fn encode_demo(height: u64, timestamp: u64, data: &Vec<u8>) -> (text: Vec<u8>)
    ensures
        text@ == demo_json(height, timestamp, data@),
{
    let opening = opening_key();
    let stamp = stamp_key();
    let array = array_key();
    let end = closing_key();
    let mut text: Vec<u8> = Vec::new();
    write_bytes(&mut text, opening.as_slice());
    write_number(&mut text, height);
    write_bytes(&mut text, stamp.as_slice());
    write_number(&mut text, timestamp);
    write_bytes(&mut text, array.as_slice());
    write_list(&mut text, data);
    write_bytes(&mut text, end.as_slice());
    assert(text@ =~= demo_json(height, timestamp, data@));
    text
}

/// Reads the field whose key stands at a place in the bytes: the number
/// and the place behind its numeral. A number above what 64 bits hold is
/// refused.
fn read_field(bytes: &[u8], at: usize, key: &[u8]) -> (found: Option<(u64, usize)>)
    requires
        at <= bytes.len(),
    ensures
        match parse_field(bytes@.skip(at as int), key@) {
            Some((value, rest)) => if value <= u64::MAX {
                &&& found is Some
                &&& found.unwrap().0 == value
                &&& found.unwrap().1 <= bytes.len()
                &&& rest == bytes@.skip(found.unwrap().1 as int)
            } else {
                found is None
            },
            None => found is None,
        },
{
    let behind = match expect(bytes, at, key) {
        Some(place) => place,
        None => {
            return None;
        },
    };
    proof {
        assert(bytes@.skip(at as int).skip(key@.len() as int) =~= bytes@.skip(behind as int));
    }
    let ghost s = bytes@.skip(at as int);
    let ghost after = bytes@.skip(behind as int);
    assert(s.skip(key@.len() as int) == after);
    match read_number(bytes, behind, u64::MAX) {
        Some((value, end)) => {
            proof {
                assert(parse_number(after) == Some((value as nat, (end - behind) as nat)));
                assert(after.skip(end - behind) =~= bytes@.skip(end as int));
            }
            Some((value, end))
        },
        None => None,
    }
}

/// Reads the array whose key stands at a place in the bytes: the items and
/// the place behind their text.
fn read_array(bytes: &[u8], at: usize, key: &[u8]) -> (found: Option<(Vec<u8>, usize)>)
    requires
        at <= bytes.len(),
        key@ == data_key(),
    ensures
        match parse_array(bytes@.skip(at as int)) {
            Some((data, rest)) => {
                &&& found is Some
                &&& found.unwrap().0@ == data
                &&& found.unwrap().1 <= bytes.len()
                &&& rest == bytes@.skip(found.unwrap().1 as int)
            },
            None => found is None,
        },
{
    let behind = match expect(bytes, at, key) {
        Some(place) => place,
        None => {
            return None;
        },
    };
    proof {
        assert(bytes@.skip(at as int).skip(key@.len() as int) =~= bytes@.skip(behind as int));
    }
    match read_list(bytes, behind) {
        Some((data, end)) => {
            proof {
                assert(bytes@.skip(behind as int).skip(end - behind) =~= bytes@.skip(end as int));
            }
            Some((data, end))
        },
        None => None,
    }
}

/// Reads the JSON text of a payload: the height, the timestamp and the
/// data, if the bytes are the text of a payload and nothing else.
#[verifier::spinoff_prover]
#[verifier::rlimit(60)]
pub fn decode_demo(bytes: &[u8]) -> (fields: Option<(u64, u64, Vec<u8>)>)
    ensures
        match parse_demo_json(bytes@) {
            Some((height, timestamp, data)) => fields is Some && fields.unwrap().0 == height
                && fields.unwrap().1 == timestamp && fields.unwrap().2@ == data,
            None => fields is None,
        },
{
    let opening = opening_key();
    let stamp = stamp_key();
    let array = array_key();
    assert(bytes@.skip(0) =~= bytes@);
    let (height, p1) = match read_field(bytes, 0, opening.as_slice()) {
        Some(found) => found,
        None => {
            return None;
        },
    };
    let (timestamp, p2) = match read_field(bytes, p1, stamp.as_slice()) {
        Some(found) => found,
        None => {
            return None;
        },
    };
    let (data, p3) = match read_array(bytes, p2, array.as_slice()) {
        Some(found) => found,
        None => {
            return None;
        },
    };
    let end = closing_key();
    let ghost s3 = bytes@.skip(p3 as int);
    match expect(bytes, p3, end.as_slice()) {
        Some(behind) => {
            if behind == bytes.len() {
                assert(s3.take(s3.len() as int) =~= s3);
                Some((height, timestamp, data))
            } else {
                None
            }
        },
        None => {
            proof {
                if s3 == closing() {
                    assert(s3.take(s3.len() as int) =~= s3);
                }
            }
            None
        },
    }
}

} // verus!
