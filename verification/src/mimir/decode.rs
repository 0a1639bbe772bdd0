//! Reading the remote-write payload back from the wire.
//!
//! The reader takes the fields of a message in any order and fails on a field
//! it does not know. A scalar field that occurs more than once holds what its
//! last occurrence holds; a field that does not occur holds its default.

use crate::mimir::client::labels_view;
use crate::mimir::client::series_view;
use crate::mimir::client::Label;
use crate::mimir::client::LabelView;
use crate::mimir::client::Sample;
use crate::mimir::client::TimeSeries;
use crate::mimir::client::TimeSeriesView;
use crate::mimir::client::WriteRequest;
use crate::mimir::wire::delimited;
use crate::mimir::wire::label_bytes;
use crate::mimir::wire::label_fits;
use crate::mimir::wire::labels_bytes;
use crate::mimir::wire::request_bytes;
use crate::mimir::wire::request_fits;
use crate::mimir::wire::sample_bytes;
use crate::mimir::wire::samples_bytes;
use crate::mimir::wire::series_bytes;
use crate::mimir::wire::series_fits;
use crate::mimir::wire::text_field;
use crate::mimir::wire::timestamp_field;
use crate::mimir::wire::unsigned_bits;
use crate::mimir::wire::value_field;
use crate::mimir::wire::varint;
use crate::mimir::wire::FIRST_DELIMITED;
use crate::mimir::wire::FIRST_FIXED64;
use crate::mimir::wire::SECOND_DELIMITED;
use crate::mimir::wire::SECOND_VARINT;
use vstd::bytes::lemma_auto_spec_u64_to_from_le_bytes;
use vstd::bytes::spec_u64_from_le_bytes;
use vstd::bytes::spec_u64_to_le_bytes;
use vstd::bytes::u64_from_le_bytes;
use vstd::slice::slice_subrange;
use vstd::slice::slice_to_vec;
use vstd::utf8::decode_utf8;
use vstd::utf8::encode_utf8;
use vstd::utf8::encode_utf8_decode_utf8;
use vstd::utf8::encode_utf8_valid_utf8;
use vstd::utf8::valid_utf8;
use vstd::arithmetic::power::lemma_pow0;
use vstd::arithmetic::power::lemma_pow1;
use vstd::arithmetic::power::lemma_pow_adds;
use vstd::arithmetic::power::lemma_pow_increases;
use vstd::arithmetic::power::pow;
use vstd::prelude::*;

verus! {

/// The number that begins `bytes` in base 128, least significant digit first,
/// and the count of bytes it takes; `None` where no byte among the first
/// `limit` ends the number.
pub open spec fn parse_varint(bytes: Seq<u8>, limit: nat) -> Option<(nat, nat)>
    decreases limit,
{
    if limit == 0 || bytes.len() == 0 {
        None
    } else if bytes[0] < 128 {
        Some((bytes[0] as nat, 1nat))
    } else {
        match parse_varint(bytes.drop_first(), (limit - 1) as nat) {
            Some((value, count)) => Some(((bytes[0] - 128 + 128 * value) as nat, count + 1)),
            None => None,
        }
    }
}

/// The 64-bit number that begins `bytes`, and the count of bytes it takes;
/// `None` where the number does not end within ten bytes or does not fit.
pub open spec fn read_varint(bytes: Seq<u8>) -> Option<(u64, nat)> {
    match parse_varint(bytes, 10) {
        Some((value, count)) => if value <= u64::MAX {
            Some((value as u64, count))
        } else {
            None
        },
        None => None,
    }
}

/// A number below 128^`digits` takes at most `digits` bytes.
proof fn lemma_varint_len(value: nat, digits: nat)
    requires
        digits > 0,
        value < pow(128, digits),
    ensures
        0 < varint(value).len() <= digits,
    decreases digits,
{
    lemma_pow1(128);
    if value >= 128 {
        if digits == 1 {
            assert(false);
        }
        assert(pow(128, digits) == 128 * pow(
            128,
            (digits - 1) as nat,
        )) by {
            lemma_pow_adds(128, 1, (digits - 1) as nat);
        }
        lemma_varint_len(value / 128, (digits - 1) as nat);
    }
}

/// 128^10 as a number.
proof fn lemma_pow128_10()
    ensures
        pow(128, 10) == 0x40_0000_0000_0000_0000,
{
    assert(pow(128, 10) == 0x40_0000_0000_0000_0000) by {
        lemma_pow1(128);
        lemma_pow_adds(128, 1, 1);
        lemma_pow_adds(128, 2, 2);
        lemma_pow_adds(128, 4, 4);
        lemma_pow_adds(128, 8, 2);
        let squared = pow(128, 2);
        let fourth = pow(128, 4);
        let eighth = pow(128, 8);
        assert(squared == 0x4000);
        assert(fourth == 0x1000_0000) by (nonlinear_arith)
            requires
                fourth == squared * squared,
                squared == 0x4000,
        ;
        assert(eighth == 0x100_0000_0000_0000) by (nonlinear_arith)
            requires
                eighth == fourth * fourth,
                fourth == 0x1000_0000,
        ;
    }
}

/// A 64-bit number takes at most ten bytes.
pub proof fn lemma_varint_fits(value: nat)
    requires
        value <= u64::MAX,
    ensures
        0 < varint(value).len() <= 10,
{
    lemma_pow128_10();
    lemma_varint_len(value, 10);
}

/// A number written out and followed by anything reads back as itself.
pub proof fn lemma_parse_varint(value: nat, rest: Seq<u8>, limit: nat)
    requires
        varint(value).len() <= limit,
    ensures
        parse_varint(varint(value) + rest, limit) == Some((value, varint(value).len())),
    decreases value,
{
    let bytes = varint(value) + rest;
    if value < 128 {
        assert(bytes[0] == value as u8);
    } else {
        let tail = varint(value / 128);
        assert(varint(value) =~= seq![(value % 128 + 128) as u8] + tail);
        assert(bytes[0] == (value % 128 + 128) as u8);
        assert(bytes.drop_first() =~= tail + rest);
        lemma_parse_varint(value / 128, rest, (limit - 1) as nat);
    }
}

/// What the number read so far makes of the number that the rest holds.
spec fn continued(rest: Option<(nat, nat)>, low: nat, scale: nat, taken: nat) -> Option<(nat, nat)> {
    match rest {
        Some((value, count)) => Some((low + scale * value, count + taken)),
        None => None,
    }
}

/// The 64-bit number that begins `bytes` at `start`, and the position after
/// it.
pub(crate) fn decode_varint(bytes: &[u8], start: usize) -> (read: Option<(u64, usize)>)
    requires
        start <= bytes@.len(),
    ensures
        match read_varint(bytes@.skip(start as int)) {
            Some((value, count)) => {
                &&& read matches Some((number, next))
                &&& number == value
                &&& next == start + count
                &&& start < next <= bytes@.len()
            },
            None => read is None,
        },
{
    let ghost all = bytes@.skip(start as int);
    let mut low: u128 = 0;
    let mut scale: u128 = 1;
    let mut i: usize = 0;
    proof {
        assert(all.skip(0) =~= all);
        assert(pow(128, 0) == 1) by {
            vstd::arithmetic::power::lemma_pow0(128);
        }
        assert(0 * 0 == 0);
        lemma_pow128_10();
        match parse_varint(all, 10) {
            Some((value, count)) => {
                assert(1 * value == value) by (nonlinear_arith);
            },
            None => {},
        }
    }
    while i < 10 && i < bytes.len() - start
        invariant
            i <= 10,
            start + i <= bytes@.len(),
            all == bytes@.skip(start as int),
            scale == pow(128, i as nat),
            low < scale,
            pow(128, 10) == 0x40_0000_0000_0000_0000,
            parse_varint(all, 10) == continued(
                parse_varint(all.skip(i as int), (10 - i) as nat),
                low as nat,
                scale as nat,
                i as nat,
            ),
        decreases 10 - i,
    {
        let b = bytes[start + i];
        proof {
            lemma_pow_increases(128, i as nat, 9);
            lemma_pow_adds(128, 1, 9);
            lemma_pow1(128);
            assert(scale <= 0x8000_0000_0000_0000);
            assert(all.skip(i as int)[0] == b);
            assert(all.skip(i as int).drop_first() =~= all.skip(i + 1));
            assert(pow(128, (i + 1) as nat) == 128 * pow(128, i as nat)) by {
                lemma_pow_adds(128, 1, i as nat);
            }
        }
        if b < 128 {
            assert(scale * b <= 0x8000_0000_0000_0000 * 127) by (nonlinear_arith)
                requires
                    scale <= 0x8000_0000_0000_0000,
                    b < 128,
            ;
            let total: u128 = low + scale * (b as u128);
            if total <= u64::MAX as u128 {
                return Some((total as u64, start + i + 1));
            } else {
                return None;
            }
        }
        proof {
            assert(scale * (b - 128) <= scale * 127 && scale * (b - 128) + scale <= scale * 128)
                by (nonlinear_arith)
                requires
                    128 <= b < 256,
                    0 <= scale,
            ;
            match parse_varint(all.skip(i + 1), (9 - i) as nat) {
                Some((value, count)) => {
                    assert(low + scale * ((b - 128 + 128 * value) as nat) == (low + scale * (b
                        - 128)) + (scale * 128) * value) by (nonlinear_arith)
                        requires
                            b >= 128,
                    ;
                },
                None => {},
            }
        }
        low = low + scale * ((b - 128) as u128);
        scale = scale * 128;
        i += 1;
    }
    None
}

/// The payload of the length-delimited field that begins `bytes`, behind its
/// key, and what follows the field; `None` where the length cannot be read or
/// points beyond the end.
pub open spec fn read_delimited(bytes: Seq<u8>) -> Option<(Seq<u8>, Seq<u8>)> {
    match read_varint(bytes.skip(1)) {
        Some((length, count)) => if 1 + count + length <= bytes.len() {
            Some(
                (
                    bytes.subrange(1 + count as int, 1 + count + length),
                    bytes.skip(1 + count + length),
                ),
            )
        } else {
            None
        },
        None => None,
    }
}

/// A 64-bit unsigned integer as the signed one with the same bits.
pub open spec fn signed_bits(value: u64) -> i64 {
    if value < 0x8000_0000_0000_0000 {
        value as i64
    } else {
        (value - 0x1_0000_0000_0000_0000) as i64
    }
}

/// The label without name and value.
pub open spec fn empty_label() -> LabelView {
    LabelView { name: Seq::empty(), value: Seq::empty() }
}

/// The sample of value zero at instant zero.
pub open spec fn zero_sample() -> Sample {
    Sample { value: 0, timestamp: 0 }
}

/// The label that `bytes` hold, on top of what `label` holds already.
pub open spec fn parse_label(bytes: Seq<u8>, label: LabelView) -> Option<LabelView>
    decreases bytes.len(),
{
    if bytes.len() == 0 {
        Some(label)
    } else if bytes[0] == FIRST_DELIMITED || bytes[0] == SECOND_DELIMITED {
        match read_delimited(bytes) {
            Some((payload, rest)) => if valid_utf8(payload) && rest.len() < bytes.len() {
                parse_label(
                    rest,
                    if bytes[0] == FIRST_DELIMITED {
                        LabelView { name: decode_utf8(payload), ..label }
                    } else {
                        LabelView { value: decode_utf8(payload), ..label }
                    },
                )
            } else {
                None
            },
            None => None,
        }
    } else {
        None
    }
}

/// The sample that `bytes` hold, on top of what `sample` holds already.
pub open spec fn parse_sample(bytes: Seq<u8>, sample: Sample) -> Option<Sample>
    decreases bytes.len(),
{
    if bytes.len() == 0 {
        Some(sample)
    } else if bytes[0] == FIRST_FIXED64 {
        if bytes.len() >= 9 {
            parse_sample(
                bytes.skip(9),
                Sample { value: spec_u64_from_le_bytes(bytes.subrange(1, 9)), ..sample },
            )
        } else {
            None
        }
    } else if bytes[0] == SECOND_VARINT {
        match read_varint(bytes.skip(1)) {
            Some((value, count)) => if 1 + count <= bytes.len() {
                parse_sample(
                    bytes.skip(1 + count as int),
                    Sample { timestamp: signed_bits(value), ..sample },
                )
            } else {
                None
            },
            None => None,
        }
    } else {
        None
    }
}

/// The time series that `bytes` hold, after the labels and samples read
/// already.
pub open spec fn parse_series(bytes: Seq<u8>, labels: Seq<LabelView>, samples: Seq<Sample>)
    -> Option<TimeSeriesView>
    decreases bytes.len(),
{
    if bytes.len() == 0 {
        Some(TimeSeriesView { labels, samples })
    } else if bytes[0] == FIRST_DELIMITED || bytes[0] == SECOND_DELIMITED {
        match read_delimited(bytes) {
            Some((payload, rest)) => if rest.len() < bytes.len() {
                if bytes[0] == FIRST_DELIMITED {
                    match parse_label(payload, empty_label()) {
                        Some(label) => parse_series(rest, labels.push(label), samples),
                        None => None,
                    }
                } else {
                    match parse_sample(payload, zero_sample()) {
                        Some(sample) => parse_series(rest, labels, samples.push(sample)),
                        None => None,
                    }
                }
            } else {
                None
            },
            None => None,
        }
    } else {
        None
    }
}

/// The write request that `bytes` hold, after the time series read already.
pub open spec fn parse_request(bytes: Seq<u8>, series: Seq<TimeSeriesView>) -> Option<
    Seq<TimeSeriesView>,
>
    decreases bytes.len(),
{
    if bytes.len() == 0 {
        Some(series)
    } else if bytes[0] == FIRST_DELIMITED {
        match read_delimited(bytes) {
            Some((payload, rest)) => if rest.len() < bytes.len() {
                match parse_series(payload, Seq::empty(), Seq::empty()) {
                    Some(one) => parse_request(rest, series.push(one)),
                    None => None,
                }
            } else {
                None
            },
            None => None,
        }
    } else {
        None
    }
}

/// A field written out and followed by anything reads back as its payload
/// and what follows.
pub proof fn lemma_read_delimited(key: u8, payload: Seq<u8>, rest: Seq<u8>)
    requires
        payload.len() <= u64::MAX,
    ensures
        (delimited(key, payload) + rest)[0] == key,
        read_delimited(delimited(key, payload) + rest) == Some((payload, rest)),
        rest.len() < (delimited(key, payload) + rest).len(),
{
    let bytes = delimited(key, payload) + rest;
    let length = varint(payload.len());
    lemma_varint_fits(payload.len());
    lemma_parse_varint(payload.len(), payload + rest, 10);
    assert(bytes.skip(1) =~= length + (payload + rest));
    assert(bytes.subrange(1 + length.len() as int, 1 + length.len() + payload.len() as int) =~= payload);
    assert(bytes.skip(1 + length.len() + payload.len() as int) =~= rest);
}

/// A text field written out and followed by the fields of a label reads back
/// as the text on top of the label.
proof fn lemma_parse_text(key: u8, text: Seq<char>, rest: Seq<u8>, label: LabelView)
    requires
        key == FIRST_DELIMITED || key == SECOND_DELIMITED,
        encode_utf8(text).len() <= u64::MAX,
        text.len() > 0,
    ensures
        parse_label(text_field(key, text) + rest, label) == parse_label(
            rest,
            if key == FIRST_DELIMITED {
                LabelView { name: text, ..label }
            } else {
                LabelView { value: text, ..label }
            },
        ),
{
    lemma_read_delimited(key, encode_utf8(text), rest);
    encode_utf8_valid_utf8(text);
    encode_utf8_decode_utf8(text);
}

/// A label written out reads back as itself.
pub proof fn lemma_label_round_trip(label: LabelView)
    requires
        label_fits(label),
    ensures
        parse_label(label_bytes(label), empty_label()) == Some(label),
{
    let second = text_field(SECOND_DELIMITED, label.value);
    let named = LabelView { name: label.name, ..empty_label() };
    assert(label.name.len() == 0 ==> label.name =~= Seq::<char>::empty());
    assert(label.value.len() == 0 ==> label.value =~= Seq::<char>::empty());
    if label.value.len() > 0 {
        lemma_parse_text(SECOND_DELIMITED, label.value, Seq::empty(), named);
        assert(second + Seq::<u8>::empty() =~= second);
    }
    assert(parse_label(second, named) == Some(label));
    if label.name.len() > 0 {
        lemma_parse_text(FIRST_DELIMITED, label.name, second, empty_label());
    } else {
        assert(label_bytes(label) =~= second);
    }
}

/// The unsigned integer with the bits of a signed one has the bits of that
/// signed one.
proof fn lemma_signed_bits(timestamp: i64)
    ensures
        unsigned_bits(timestamp) <= u64::MAX,
        signed_bits(unsigned_bits(timestamp) as u64) == timestamp,
{
}

/// A sample written out reads back as itself.
pub proof fn lemma_sample_round_trip(sample: Sample)
    ensures
        parse_sample(sample_bytes(sample), zero_sample()) == Some(sample),
        sample_bytes(sample).len() <= 20,
{
    lemma_auto_spec_u64_to_from_le_bytes();
    lemma_signed_bits(sample.timestamp);
    let stamp = timestamp_field(sample.timestamp);
    let valued = Sample { value: sample.value, ..zero_sample() };
    if sample.timestamp != 0 {
        let number = unsigned_bits(sample.timestamp);
        lemma_varint_fits(number);
        lemma_parse_varint(number, Seq::empty(), 10);
        assert(stamp.skip(1) =~= varint(number) + Seq::<u8>::empty());
        assert(stamp.skip(1 + varint(number).len() as int) =~= Seq::<u8>::empty());
        assert(stamp[0] == SECOND_VARINT);
        assert(read_varint(stamp.skip(1)) == Some((number as u64, varint(number).len())));
        assert(parse_sample(Seq::empty(), sample) == Some(sample));
    }
    assert(parse_sample(stamp, valued) == Some(sample));
    if sample.value != 0 {
        let bytes = sample_bytes(sample);
        assert(bytes.subrange(1, 9) =~= spec_u64_to_le_bytes(sample.value));
        assert(bytes.skip(9) =~= stamp);
    } else {
        assert(sample_bytes(sample) =~= stamp);
    }
}

/// The samples of a series written out read back, in order, behind what was
/// read already.
proof fn lemma_samples_round_trip(
    samples: Seq<Sample>,
    labels: Seq<LabelView>,
    before: Seq<Sample>,
)
    ensures
        parse_series(samples_bytes(samples), labels, before) == Some(
            TimeSeriesView { labels, samples: before + samples },
        ),
    decreases samples.len(),
{
    if samples.len() == 0 {
        assert(before + samples =~= before);
    } else {
        let rest = samples_bytes(samples.drop_first());
        lemma_sample_round_trip(samples[0]);
        lemma_read_delimited(SECOND_DELIMITED, sample_bytes(samples[0]), rest);
        lemma_samples_round_trip(samples.drop_first(), labels, before.push(samples[0]));
        assert(before.push(samples[0]) + samples.drop_first() =~= before + samples);
    }
}

/// The labels and samples of a series written out read back, in order,
/// behind the labels read already.
proof fn lemma_labels_round_trip(
    labels: Seq<LabelView>,
    samples: Seq<Sample>,
    before: Seq<LabelView>,
)
    requires
        forall|i: int| 0 <= i < labels.len() ==> label_fits(#[trigger] labels[i]),
    ensures
        parse_series(labels_bytes(labels) + samples_bytes(samples), before, Seq::empty()) == Some(
            TimeSeriesView { labels: before + labels, samples },
        ),
    decreases labels.len(),
{
    if labels.len() == 0 {
        lemma_samples_round_trip(samples, before, Seq::empty());
        assert(before + labels =~= before);
        assert(Seq::<Sample>::empty() + samples =~= samples);
        assert(labels_bytes(labels) + samples_bytes(samples) =~= samples_bytes(samples));
    } else {
        let tail = labels.drop_first();
        let rest = labels_bytes(tail) + samples_bytes(samples);
        lemma_label_round_trip(labels[0]);
        lemma_read_delimited(FIRST_DELIMITED, label_bytes(labels[0]), rest);
        assert forall|i: int| 0 <= i < tail.len() implies label_fits(#[trigger] tail[i]) by {
            assert(tail[i] == labels[i + 1]);
        }
        lemma_labels_round_trip(tail, samples, before.push(labels[0]));
        assert(before.push(labels[0]) + tail =~= before + labels);
        assert(labels_bytes(labels) + samples_bytes(samples) =~= delimited(
            FIRST_DELIMITED,
            label_bytes(labels[0]),
        ) + rest);
    }
}

/// A time series written out reads back as itself.
pub proof fn lemma_series_round_trip(series: TimeSeriesView)
    requires
        series_fits(series),
    ensures
        parse_series(series_bytes(series), Seq::empty(), Seq::empty()) == Some(series),
{
    lemma_labels_round_trip(series.labels, series.samples, Seq::empty());
    assert(Seq::<LabelView>::empty() + series.labels =~= series.labels);
}

/// The time series of a request written out read back, in order, behind
/// what was read already.
proof fn lemma_request_round_trip_from(request: Seq<TimeSeriesView>, before: Seq<TimeSeriesView>)
    requires
        request_fits(request),
    ensures
        parse_request(request_bytes(request), before) == Some(before + request),
    decreases request.len(),
{
    if request.len() == 0 {
        assert(before + request =~= before);
    } else {
        let tail = request.drop_first();
        let first = request[0];
        assert(series_fits(first));
        assert(parse_request(request_bytes(request), before) == parse_request(
            request_bytes(tail),
            before.push(first),
        )) by {
            lemma_series_round_trip(first);
            lemma_read_delimited(FIRST_DELIMITED, series_bytes(first), request_bytes(tail));
        }
        assert(request_fits(tail)) by {
            assert forall|i: int| 0 <= i < tail.len() implies series_fits(#[trigger] tail[i]) by {
                assert(tail[i] == request[i + 1]);
            }
        }
        lemma_request_round_trip_from(tail, before.push(first));
        assert(before.push(first) + tail =~= before + request);
    }
}

/// Writing a request out and reading it back gives the request: every time
/// series with the same labels and the same samples, in the same order.
pub proof fn lemma_request_round_trip(request: Seq<TimeSeriesView>)
    requires
        request_fits(request),
    ensures
        parse_request(request_bytes(request), Seq::empty()) == Some(request),
{
    lemma_request_round_trip_from(request, Seq::empty());
    assert(Seq::<TimeSeriesView>::empty() + request =~= request);
}

/// Makes a text of `bytes` with `String::from_utf8`: the text that the bytes
/// encode in UTF-8, and `None` exactly where they encode none.
#[verifier::external_body]
fn text_from_utf8(bytes: Vec<u8>) -> (text: Option<String>)
    ensures
        text matches Some(t) ==> valid_utf8(bytes@) && t@ == decode_utf8(bytes@),
        text is None ==> !valid_utf8(bytes@),
{
    match String::from_utf8(bytes) {
        Ok(text) => Some(text),
        Err(_) => None,
    }
}

/// The bounds of the payload of the length-delimited field whose key stands
/// at `at`.
fn take_delimited(bytes: &[u8], at: usize) -> (bounds: Option<(usize, usize)>)
    requires
        at < bytes@.len(),
    ensures
        match read_delimited(bytes@.skip(at as int)) {
            Some((payload, rest)) => {
                &&& bounds matches Some((from, to))
                &&& at < from <= to <= bytes@.len()
                &&& payload == bytes@.subrange(from as int, to as int)
                &&& rest == bytes@.skip(to as int)
            },
            None => bounds is None,
        },
{
    let end = bytes.len();
    proof {
        assert(bytes@.skip(at as int).skip(1) =~= bytes@.skip(at + 1));
    }
    match decode_varint(bytes, at + 1) {
        Some((length, from)) => {
            if length <= (end - from) as u64 {
                let to = from + length as usize;
                proof {
                    let field = bytes@.skip(at as int);
                    assert(field.len() == bytes@.len() - at);
                    assert(read_varint(field.skip(1)) == Some((length, (from - at - 1) as nat)));
                    assert(field.subrange(from - at, to - at) =~= bytes@.subrange(
                        from as int,
                        to as int,
                    ));
                    assert(field.skip(to - at) =~= bytes@.skip(to as int));
                }
                Some((from, to))
            } else {
                proof {
                    let field = bytes@.skip(at as int);
                    assert(field.len() == bytes@.len() - at);
                    assert(read_varint(field.skip(1)) == Some((length, (from - at - 1) as nat)));
                }
                None
            }
        },
        None => None,
    }
}

/// The label that `bytes` hold.
pub fn decode_label(bytes: &[u8]) -> (label: Option<Label>)
    ensures
        match parse_label(bytes@, empty_label()) {
            Some(view) => label matches Some(l) && l@ == view,
            None => label is None,
        },
{
    let mut name = String::new();
    let mut value = String::new();
    let mut at: usize = 0;
    proof {
        assert(bytes@.skip(0) =~= bytes@);
    }
    while at < bytes.len()
        invariant
            at <= bytes@.len(),
            parse_label(bytes@, empty_label()) == parse_label(
                bytes@.skip(at as int),
                LabelView { name: name@, value: value@ },
            ),
        decreases bytes@.len() - at,
    {
        let key = bytes[at];
        if key != FIRST_DELIMITED && key != SECOND_DELIMITED {
            return None;
        }
        match take_delimited(bytes, at) {
            Some((from, to)) => {
                let payload = slice_to_vec(slice_subrange(bytes, from, to));
                match text_from_utf8(payload) {
                    Some(text) => {
                        if key == FIRST_DELIMITED {
                            name = text;
                        } else {
                            value = text;
                        }
                        at = to;
                    },
                    None => {
                        return None;
                    },
                }
            },
            None => {
                return None;
            },
        }
    }
    Some(Label { name, value })
}

/// The sample that `bytes` hold.
pub fn decode_sample(bytes: &[u8]) -> (sample: Option<Sample>)
    ensures
        sample == parse_sample(bytes@, zero_sample()),
{
    let mut value: u64 = 0;
    let mut timestamp: i64 = 0;
    let mut at: usize = 0;
    proof {
        assert(bytes@.skip(0) =~= bytes@);
    }
    while at < bytes.len()
        invariant
            at <= bytes@.len(),
            parse_sample(bytes@, zero_sample()) == parse_sample(
                bytes@.skip(at as int),
                Sample { value, timestamp },
            ),
        decreases bytes@.len() - at,
    {
        let key = bytes[at];
        let ghost field = bytes@.skip(at as int);
        let end = bytes.len();
        if key == FIRST_FIXED64 {
            if end - at < 9 {
                return None;
            }
            value = u64_from_le_bytes(slice_subrange(bytes, at + 1, at + 9));
            proof {
                assert(field[0] == key);
                assert(field.len() == bytes@.len() - at);
                assert(field.subrange(1, 9) =~= bytes@.subrange(at + 1, at + 9));
                assert(field.skip(9) =~= bytes@.skip(at + 9));
            }
            at = at + 9;
        } else if key == SECOND_VARINT {
            proof {
                assert(field.skip(1) =~= bytes@.skip(at + 1));
            }
            match decode_varint(bytes, at + 1) {
                Some((number, next)) => {
                    proof {
                        assert(field[0] == key);
                        assert(field.len() == bytes@.len() - at);
                        assert(read_varint(field.skip(1)) == Some(
                            (number, (next - at - 1) as nat),
                        ));
                        assert(field.skip(1 + (next - at - 1)) =~= bytes@.skip(next as int));
                        assert(number as i64 == signed_bits(number)) by (bit_vector)
                            requires
                                signed_bits(number) == if number < 0x8000_0000_0000_0000u64 {
                                    number as i64
                                } else {
                                    (number - 0x1_0000_0000_0000_0000) as i64
                                },
                        ;
                    }
                    timestamp = #[verifier::truncate] (number as i64);
                    at = next;
                },
                None => {
                    return None;
                },
            }
        } else {
            return None;
        }
    }
    Some(Sample { value, timestamp })
}

/// The time series that `bytes` hold.
pub fn decode_series(bytes: &[u8]) -> (series: Option<TimeSeries>)
    ensures
        match parse_series(bytes@, Seq::empty(), Seq::empty()) {
            Some(view) => series matches Some(s) && s@ == view,
            None => series is None,
        },
{
    let mut labels: Vec<Label> = Vec::new();
    let mut samples: Vec<Sample> = Vec::new();
    let mut at: usize = 0;
    proof {
        assert(bytes@.skip(0) =~= bytes@);
        assert(labels_view(labels@) =~= Seq::empty());
    }
    while at < bytes.len()
        invariant
            at <= bytes@.len(),
            parse_series(bytes@, Seq::empty(), Seq::empty()) == parse_series(
                bytes@.skip(at as int),
                labels_view(labels@),
                samples@,
            ),
        decreases bytes@.len() - at,
    {
        let key = bytes[at];
        if key != FIRST_DELIMITED && key != SECOND_DELIMITED {
            return None;
        }
        match take_delimited(bytes, at) {
            Some((from, to)) => {
                let payload = slice_subrange(bytes, from, to);
                if key == FIRST_DELIMITED {
                    match decode_label(payload) {
                        Some(label) => {
                            let ghost before = labels@;
                            labels.push(label);
                            assert(labels_view(labels@) =~= labels_view(before).push(label@));
                        },
                        None => {
                            return None;
                        },
                    }
                } else {
                    match decode_sample(payload) {
                        Some(sample) => {
                            samples.push(sample);
                        },
                        None => {
                            return None;
                        },
                    }
                }
                at = to;
            },
            None => {
                return None;
            },
        }
    }
    Some(TimeSeries { labels, samples })
}

/// The write request that `bytes` hold; `None` where they hold none.
pub fn decode_write_request(bytes: &[u8]) -> (request: Option<WriteRequest>)
    ensures
        match parse_request(bytes@, Seq::empty()) {
            Some(view) => request matches Some(r) && r@ == view,
            None => request is None,
        },
{
    let mut timeseries: Vec<TimeSeries> = Vec::new();
    let mut at: usize = 0;
    proof {
        assert(bytes@.skip(0) =~= bytes@);
        assert(series_view(timeseries@) =~= Seq::empty());
    }
    while at < bytes.len()
        invariant
            at <= bytes@.len(),
            parse_request(bytes@, Seq::empty()) == parse_request(
                bytes@.skip(at as int),
                series_view(timeseries@),
            ),
        decreases bytes@.len() - at,
    {
        if bytes[at] != FIRST_DELIMITED {
            return None;
        }
        match take_delimited(bytes, at) {
            Some((from, to)) => {
                match decode_series(slice_subrange(bytes, from, to)) {
                    Some(series) => {
                        let ghost before = timeseries@;
                        timeseries.push(series);
                        assert(series_view(timeseries@) =~= series_view(before).push(series@));
                    },
                    None => {
                        return None;
                    },
                }
                at = to;
            },
            None => {
                return None;
            },
        }
    }
    Some(WriteRequest { timeseries })
}

} // verus!
