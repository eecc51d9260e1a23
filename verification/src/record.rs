//! The oracle's record and the line of text that carries it.
//!
//! A body is read as fields separated by commas. The first four fields are the
//! class, the instance, the views and the votes, each in decimal notation.
//! Fields after the fourth are not looked at.

use crate::decimal::{
    all_digits, decimal_digits, decimal_u32, digits_value, is_digit, lemma_decimal_round_trip,
    magnitude, parse_u32, write_u32,
};
use vstd::prelude::*;
use vstd::slice::*;
use vstd::string::*;

verus! {

/// Identifier of a class of assets.
pub type ClassId = u32;

/// Identifier of an instance within its class.
pub type InstanceId = u32;

/// The byte `,`, which separates the fields of a body.
pub const COMMA: u8 = 0x2c;

/// What the oracle reports of one instance.
#[derive(Clone, Copy, Debug, PartialEq, Eq, Structural)]
pub struct OracleRecord {
    pub class_id: ClassId,
    pub instance_id: InstanceId,
    pub views: u32,
    pub votes: u32,
}

/// The number of bytes before the first comma, or the whole length where there is no comma.
pub open spec fn first_field_len(s: Seq<u8>) -> nat
    decreases s.len(),
{
    if s.len() == 0 || s[0] == 0x2c {
        0
    } else {
        1 + first_field_len(s.skip(1))
    }
}

/// The bytes before the first comma.
pub open spec fn first_field(s: Seq<u8>) -> Seq<u8> {
    s.take(first_field_len(s) as int)
}

/// The bytes after the first comma, if there is a comma.
pub open spec fn after_first_field(s: Seq<u8>) -> Option<Seq<u8>> {
    if first_field_len(s) < s.len() {
        Some(s.skip(first_field_len(s) as int + 1))
    } else {
        None
    }
}

/// The field at position `k`, counted from 0, if the body has that many fields.
pub open spec fn field(s: Seq<u8>, k: nat) -> Option<Seq<u8>>
    decreases k,
{
    if k == 0 {
        Some(first_field(s))
    } else {
        match after_first_field(s) {
            Some(rest) => field(rest, (k - 1) as nat),
            None => None,
        }
    }
}

/// The number in the field at position `k`, if the field is there and denotes one.
pub open spec fn number(s: Seq<u8>, k: nat) -> Option<u32> {
    match field(s, k) {
        Some(token) => decimal_u32(token),
        None => None,
    }
}

/// The record that a body carries: its first four fields, each read as a number.
pub open spec fn parse_record(s: Seq<u8>) -> Option<OracleRecord> {
    match (number(s, 0), number(s, 1), number(s, 2), number(s, 3)) {
        (Some(class_id), Some(instance_id), Some(views), Some(votes)) => Some(
            OracleRecord { class_id, instance_id, views, votes },
        ),
        _ => None,
    }
}

/// The four numbers of a record, in the order of the fields.
pub open spec fn as_tuple(record: Option<OracleRecord>) -> Option<(ClassId, InstanceId, u32, u32)> {
    match record {
        Some(r) => Some((r.class_id, r.instance_id, r.views, r.votes)),
        None => None,
    }
}

/// Whether no byte of the sequence is a comma.
pub open spec fn comma_free(s: Seq<u8>) -> bool {
    forall|i: int| 0 <= i < s.len() ==> #[trigger] s[i] != 0x2c
}

/// The number of commas in the sequence.
pub open spec fn commas(s: Seq<u8>) -> nat
    decreases s.len(),
{
    if s.len() == 0 {
        0
    } else if s[0] == 0x2c {
        1 + commas(s.skip(1))
    } else {
        commas(s.skip(1))
    }
}

/// The first field ends at `k` when no comma stands before `k` and one stands at `k`,
/// or the sequence ends there.
pub proof fn lemma_first_field_ends(s: Seq<u8>, k: int)
    requires
        0 <= k <= s.len(),
        comma_free(s.take(k)),
        k == s.len() || s[k] == 0x2c,
    ensures
        first_field_len(s) == k,
    decreases k,
{
    if k > 0 {
        assert(s.take(k)[0] == s[0]);
        let rest = s.skip(1);
        assert forall|i: int| 0 <= i < k - 1 implies #[trigger] rest.take(k - 1)[i] != 0x2c by {
            assert(s.take(k)[i + 1] == rest.take(k - 1)[i]);
        }
        lemma_first_field_ends(rest, k - 1);
    }
}

/// Finds where the field that begins at `start` ends.
fn field_end(bytes: &[u8], start: usize) -> (end: usize)
    requires
        start <= bytes@.len(),
    ensures
        start <= end <= bytes@.len(),
        end == start + first_field_len(bytes@.skip(start as int)),
{
    let n: usize = bytes.len();
    let mut i: usize = start;
    let ghost rest = bytes@.skip(start as int);
    while i < n && bytes[i] != COMMA
        invariant
            start <= i <= n,
            n == bytes@.len(),
            rest == bytes@.skip(start as int),
            comma_free(rest.take(i - start)),
        decreases n - i,
    {
        assert forall|j: int| 0 <= j < i + 1 - start implies #[trigger] rest.take(i + 1 - start)[j]
            != 0x2c by {
            if j < i - start {
                assert(rest.take(i - start)[j] == rest.take(i + 1 - start)[j]);
            }
        }
        i = i + 1;
    }
    proof {
        lemma_first_field_ends(rest, i - start);
    }
    i
}

/// Reads the field that begins at `start` as a number, and finds where the next field begins.
fn read_field(bytes: &[u8], start: usize) -> (r: (Option<u32>, Option<usize>))
    requires
        start <= bytes@.len(),
    ensures
        r.0 == decimal_u32(first_field(bytes@.skip(start as int))),
        match r.1 {
            Some(next) => next <= bytes@.len() && after_first_field(bytes@.skip(start as int))
                == Some(bytes@.skip(next as int)),
            None => after_first_field(bytes@.skip(start as int)) is None,
        },
{
    let end: usize = field_end(bytes, start);
    let token: &[u8] = slice_subrange(bytes, start, end);
    let ghost rest = bytes@.skip(start as int);
    assert(token@ =~= first_field(rest));
    let value: Option<u32> = parse_u32(token);
    if end < bytes.len() {
        assert(rest.skip(end - start + 1) =~= bytes@.skip(end + 1));
        (value, Some(end + 1))
    } else {
        (value, None)
    }
}

/// Reads a body, given as bytes, as a record.
///
/// Returns the record exactly when the body has at least four fields and each
/// of the first four denotes a number that fits in 32 bits.
pub fn parse_body(bytes: &[u8]) -> (r: Option<OracleRecord>)
    ensures
        r == parse_record(bytes@),
{
    let ghost s = bytes@;
    assert(s.skip(0) =~= s);
    proof {
        reveal_with_fuel(field, 4);
    }
    let (class_id, next) = read_field(bytes, 0);
    let class_id: u32 = match class_id {
        Some(v) => v,
        None => { return None; },
    };
    let at: usize = match next {
        Some(at) => at,
        None => { return None; },
    };
    let (instance_id, next) = read_field(bytes, at);
    let instance_id: u32 = match instance_id {
        Some(v) => v,
        None => { return None; },
    };
    let at: usize = match next {
        Some(at) => at,
        None => { return None; },
    };
    let (views, next) = read_field(bytes, at);
    let views: u32 = match views {
        Some(v) => v,
        None => { return None; },
    };
    let at: usize = match next {
        Some(at) => at,
        None => { return None; },
    };
    let (votes, _) = read_field(bytes, at);
    let votes: u32 = match votes {
        Some(v) => v,
        None => { return None; },
    };
    Some(OracleRecord { class_id, instance_id, views, votes })
}

/// Reads a body, given as text, as a record.
///
/// The text is taken by its bytes in UTF-8. Returns the record exactly when
/// the body has at least four fields and each of the first four denotes a
/// number that fits in 32 bits.
pub fn parse(body: &str) -> (r: Option<OracleRecord>)
    ensures
        r == parse_record(body.spec_bytes()),
{
    parse_body(body.as_bytes())
}

/// Reads a body as the four numbers of a record: class, instance, views and votes.
///
/// The body is taken by its bytes in UTF-8. The result is `Some` exactly when
/// the body has at least four fields and each of the first four denotes a
/// number that fits in 32 bits.
pub fn parse_athlete_info(s: &str) -> (r: Option<(ClassId, InstanceId, u32, u32)>)
    ensures
        r == as_tuple(parse_record(s.spec_bytes())),
{
    match parse(s) {
        Some(record) => Some((record.class_id, record.instance_id, record.views, record.votes)),
        None => None,
    }
}

/// A line of four fields: the first three tokens, each followed by a comma, and then `last`.
pub open spec fn line(t0: Seq<u8>, t1: Seq<u8>, t2: Seq<u8>, last: Seq<u8>) -> Seq<u8> {
    t0 + seq![0x2cu8] + (t1 + seq![0x2cu8] + (t2 + seq![0x2cu8] + last))
}

/// The body that states a record in the shortest notation of its four numbers.
pub open spec fn format_record(record: OracleRecord) -> Seq<u8> {
    line(
        decimal_digits(record.class_id as nat),
        decimal_digits(record.instance_id as nat),
        decimal_digits(record.views as nat),
        decimal_digits(record.votes as nat),
    )
}

/// States a record as a body: its four numbers in their shortest notation,
/// with a comma between them.
pub fn format_body(record: OracleRecord) -> (body: Vec<u8>)
    ensures
        body@ == format_record(record),
        parse_record(body@) == Some(record),
{
    let mut body: Vec<u8> = Vec::new();
    write_u32(&mut body, record.class_id);
    body.push(COMMA);
    write_u32(&mut body, record.instance_id);
    body.push(COMMA);
    write_u32(&mut body, record.views);
    body.push(COMMA);
    write_u32(&mut body, record.votes);
    proof {
        assert(body@ =~= format_record(record));
        law_format_then_parse(record);
    }
    body
}

/// A token that denotes a number holds no comma.
pub proof fn lemma_number_is_comma_free(token: Seq<u8>)
    requires
        decimal_u32(token) is Some,
    ensures
        comma_free(token),
{
    let digits = magnitude(token);
    assert forall|i: int| 0 <= i < token.len() implies #[trigger] token[i] != 0x2c by {
        if token[0] == 0x2b {
            if i > 0 {
                assert(is_digit(digits[i - 1]));
            }
        } else {
            assert(is_digit(digits[i]));
        }
    }
}

/// A token without a comma, followed by a comma, is the first field of what it leads,
/// and what follows the comma is the rest.
pub proof fn lemma_leading_field(token: Seq<u8>, rest: Seq<u8>)
    requires
        comma_free(token),
    ensures
        first_field(token + seq![0x2cu8] + rest) == token,
        after_first_field(token + seq![0x2cu8] + rest) == Some(rest),
{
    let s = token + seq![0x2cu8] + rest;
    let k = token.len() as int;
    assert(s.take(k) =~= token);
    assert(s[k] == 0x2c);
    lemma_first_field_ends(s, k);
    assert(s.skip(k + 1) =~= rest);
}

/// A token without a comma is the only field of itself.
pub proof fn lemma_only_field(token: Seq<u8>)
    requires
        comma_free(token),
    ensures
        first_field(token) == token,
        after_first_field(token) is None,
{
    assert(token.take(token.len() as int) =~= token);
    lemma_first_field_ends(token, token.len() as int);
}

/// The commas of a body are the one that ends its first field, if there is one,
/// and those of the rest.
pub proof fn lemma_commas_by_field(s: Seq<u8>)
    ensures
        commas(s) == match after_first_field(s) {
            Some(rest) => 1 + commas(rest),
            None => 0,
        },
    decreases s.len(),
{
    if s.len() == 0 {
    } else if s[0] == 0x2c {
    } else {
        let tail = s.skip(1);
        lemma_commas_by_field(tail);
        if first_field_len(tail) < tail.len() {
            assert(tail.skip(first_field_len(tail) as int + 1) =~= s.skip(
                first_field_len(s) as int + 1,
            ));
        }
    }
}

/// A body has a field at position `k` exactly when it holds at least `k` commas.
pub proof fn lemma_field_count(s: Seq<u8>, k: nat)
    ensures
        field(s, k) is Some <==> commas(s) >= k,
    decreases k,
{
    lemma_commas_by_field(s);
    if k > 0 {
        match after_first_field(s) {
            Some(rest) => {
                lemma_field_count(rest, (k - 1) as nat);
            },
            None => {},
        }
    }
}

/// The fields of a line are its three tokens and the first field of what follows them.
pub proof fn lemma_fields_of_line(t0: Seq<u8>, t1: Seq<u8>, t2: Seq<u8>, last: Seq<u8>)
    requires
        comma_free(t0),
        comma_free(t1),
        comma_free(t2),
    ensures
        field(line(t0, t1, t2, last), 0) == Some(t0),
        field(line(t0, t1, t2, last), 1) == Some(t1),
        field(line(t0, t1, t2, last), 2) == Some(t2),
        field(line(t0, t1, t2, last), 3) == Some(first_field(last)),
{
    reveal_with_fuel(field, 4);
    let r2 = t2 + seq![0x2cu8] + last;
    let r1 = t1 + seq![0x2cu8] + r2;
    lemma_leading_field(t0, r1);
    lemma_leading_field(t1, r2);
    lemma_leading_field(t2, last);
}

/// Every well-formed body gives exactly its record: where four tokens denote
/// the numbers `a`, `b`, `c` and `d`, the body made of them, with a comma after
/// each of the first three, is read as the record of `a`, `b`, `c` and `d`.
pub proof fn law_well_formed_body(t0: Seq<u8>, t1: Seq<u8>, t2: Seq<u8>, t3: Seq<u8>)
    requires
        decimal_u32(t0) is Some,
        decimal_u32(t1) is Some,
        decimal_u32(t2) is Some,
        decimal_u32(t3) is Some,
    ensures
        parse_record(line(t0, t1, t2, t3)) == Some(
            OracleRecord {
                class_id: decimal_u32(t0)->0,
                instance_id: decimal_u32(t1)->0,
                views: decimal_u32(t2)->0,
                votes: decimal_u32(t3)->0,
            },
        ),
{
    lemma_number_is_comma_free(t0);
    lemma_number_is_comma_free(t1);
    lemma_number_is_comma_free(t2);
    lemma_number_is_comma_free(t3);
    lemma_only_field(t3);
    lemma_fields_of_line(t0, t1, t2, t3);
}

/// Fields after the fourth do not count: a well-formed body followed by a comma
/// and any bytes at all is read as the same record.
pub proof fn law_further_fields_ignored(
    t0: Seq<u8>,
    t1: Seq<u8>,
    t2: Seq<u8>,
    t3: Seq<u8>,
    more: Seq<u8>,
)
    requires
        decimal_u32(t0) is Some,
        decimal_u32(t1) is Some,
        decimal_u32(t2) is Some,
        decimal_u32(t3) is Some,
    ensures
        parse_record(line(t0, t1, t2, t3 + seq![0x2cu8] + more)) == parse_record(
            line(t0, t1, t2, t3),
        ),
{
    lemma_number_is_comma_free(t0);
    lemma_number_is_comma_free(t1);
    lemma_number_is_comma_free(t2);
    lemma_number_is_comma_free(t3);
    lemma_only_field(t3);
    lemma_leading_field(t3, more);
    lemma_fields_of_line(t0, t1, t2, t3);
    lemma_fields_of_line(t0, t1, t2, t3 + seq![0x2cu8] + more);
}

/// Writing a record and reading it back gives the record: the body that states
/// a record in the shortest notation of its numbers is read as that record.
pub proof fn law_format_then_parse(record: OracleRecord)
    ensures
        parse_record(format_record(record)) == Some(record),
{
    lemma_decimal_round_trip(record.class_id);
    lemma_decimal_round_trip(record.instance_id);
    lemma_decimal_round_trip(record.views);
    lemma_decimal_round_trip(record.votes);
    law_well_formed_body(
        decimal_digits(record.class_id as nat),
        decimal_digits(record.instance_id as nat),
        decimal_digits(record.views as nat),
        decimal_digits(record.votes as nat),
    );
}

/// A body with fewer than three commas lacks a field, and no record is read from it.
pub proof fn law_missing_field(s: Seq<u8>)
    requires
        commas(s) < 3,
    ensures
        parse_record(s) is None,
{
    lemma_field_count(s, 3);
}

/// No record is read from a body in which one of the first four fields does not
/// denote a number of 32 bits.
pub proof fn law_unreadable_field(s: Seq<u8>, k: nat)
    requires
        k < 4,
        number(s, k) is None,
    ensures
        parse_record(s) is None,
{
}

/// A token denotes no number of 32 bits exactly when, the one leading `+` set
/// aside, it has no digit at all, or holds a byte that is not a digit, or denotes
/// a number above `u32::MAX`.
pub proof fn law_unreadable_token(token: Seq<u8>)
    ensures
        decimal_u32(token) is None <==> {
            ||| magnitude(token).len() == 0
            ||| exists|i: int|
                0 <= i < magnitude(token).len() && !is_digit(#[trigger] magnitude(token)[i])
            ||| digits_value(magnitude(token)) > u32::MAX
        },
{
    let digits = magnitude(token);
    if !all_digits(digits) {
        let i = choose|i: int| 0 <= i < digits.len() && !is_digit(#[trigger] digits[i]);
        assert(0 <= i < digits.len() && !is_digit(digits[i]));
    }
}

} // verus!
