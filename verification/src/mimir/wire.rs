//! The remote-write payload on the wire: a length-delimited message of
//! messages, as a function on bytes.
//!
//! A write request holds time series (field 1). A time series holds labels
//! (field 1) and samples (field 2). A label holds a name (field 1) and a value
//! (field 2), both texts. A sample holds a value (field 1, eight bytes, least
//! significant first) and a timestamp (field 2, a variable-length integer).
//! A scalar field that holds its default, the empty text or zero, is left out.

use crate::mimir::client::labels_view;
use crate::mimir::client::series_view;
use crate::mimir::client::Label;
use crate::mimir::client::LabelView;
use crate::mimir::client::Sample;
use crate::mimir::client::TimeSeries;
use crate::mimir::client::TimeSeriesView;
use crate::mimir::client::WriteRequest;
use vstd::bytes::spec_u64_to_le_bytes;
use vstd::bytes::u64_to_le_bytes;
use vstd::prelude::*;
use vstd::string::*;
use vstd::utf8::encode_utf8;

verus! {

/// The key of field 1 where it holds a text or a message.
pub const FIRST_DELIMITED: u8 = 0x0A;

/// The key of field 2 where it holds a text or a message.
pub const SECOND_DELIMITED: u8 = 0x12;

/// The key of field 1 where it holds eight bytes.
pub const FIRST_FIXED64: u8 = 0x09;

/// The key of field 2 where it holds a variable-length integer.
pub const SECOND_VARINT: u8 = 0x10;

/// A number in base 128, least significant digit first; every digit but the
/// last has its high bit set.
pub open spec fn varint(value: nat) -> Seq<u8>
    decreases value,
{
    if value < 128 {
        seq![value as u8]
    } else {
        seq![(value % 128 + 128) as u8] + varint(value / 128)
    }
}

/// A 64-bit signed integer as the unsigned one with the same bits.
pub open spec fn unsigned_bits(value: i64) -> nat {
    if value >= 0 {
        value as nat
    } else {
        (value + 0x1_0000_0000_0000_0000) as nat
    }
}

/// A field that holds `payload`: the key, the length of the payload, the
/// payload.
pub open spec fn delimited(key: u8, payload: Seq<u8>) -> Seq<u8> {
    seq![key] + varint(payload.len()) + payload
}

/// A field that holds a text in UTF-8; nothing for the empty text.
pub open spec fn text_field(key: u8, text: Seq<char>) -> Seq<u8> {
    if text.len() == 0 {
        Seq::empty()
    } else {
        delimited(key, encode_utf8(text))
    }
}

/// A label on the wire.
pub open spec fn label_bytes(label: LabelView) -> Seq<u8> {
    text_field(FIRST_DELIMITED, label.name) + text_field(SECOND_DELIMITED, label.value)
}

/// The value of a sample on the wire; nothing for the all-zero pattern.
pub open spec fn value_field(value: u64) -> Seq<u8> {
    if value == 0 {
        Seq::empty()
    } else {
        seq![FIRST_FIXED64] + spec_u64_to_le_bytes(value)
    }
}

/// The timestamp of a sample on the wire; nothing for zero.
pub open spec fn timestamp_field(timestamp: i64) -> Seq<u8> {
    if timestamp == 0 {
        Seq::empty()
    } else {
        seq![SECOND_VARINT] + varint(unsigned_bits(timestamp))
    }
}

/// A sample on the wire.
pub open spec fn sample_bytes(sample: Sample) -> Seq<u8> {
    value_field(sample.value) + timestamp_field(sample.timestamp)
}

/// The labels of a series on the wire, one field each, in order.
pub open spec fn labels_bytes(labels: Seq<LabelView>) -> Seq<u8>
    decreases labels.len(),
{
    if labels.len() == 0 {
        Seq::empty()
    } else {
        delimited(FIRST_DELIMITED, label_bytes(labels[0])) + labels_bytes(labels.drop_first())
    }
}

/// The samples of a series on the wire, one field each, in order.
pub open spec fn samples_bytes(samples: Seq<Sample>) -> Seq<u8>
    decreases samples.len(),
{
    if samples.len() == 0 {
        Seq::empty()
    } else {
        delimited(SECOND_DELIMITED, sample_bytes(samples[0])) + samples_bytes(
            samples.drop_first(),
        )
    }
}

/// A time series on the wire: its labels, then its samples.
pub open spec fn series_bytes(series: TimeSeriesView) -> Seq<u8> {
    labels_bytes(series.labels) + samples_bytes(series.samples)
}

/// A write request on the wire: its time series, one field each, in order.
pub open spec fn request_bytes(request: Seq<TimeSeriesView>) -> Seq<u8>
    decreases request.len(),
{
    if request.len() == 0 {
        Seq::empty()
    } else {
        delimited(FIRST_DELIMITED, series_bytes(request[0])) + request_bytes(
            request.drop_first(),
        )
    }
}

/// Whether a label can be written out: both texts and the label as a whole
/// have lengths that fit in 64 bits.
pub open spec fn label_fits(label: LabelView) -> bool {
    &&& encode_utf8(label.name).len() <= u64::MAX
    &&& encode_utf8(label.value).len() <= u64::MAX
    &&& label_bytes(label).len() <= u64::MAX
}

/// Whether a time series can be written out: its labels can, and its length
/// fits in 64 bits.
pub open spec fn series_fits(series: TimeSeriesView) -> bool {
    &&& forall|i: int| 0 <= i < series.labels.len() ==> label_fits(#[trigger] series.labels[i])
    &&& series_bytes(series).len() <= u64::MAX
}

/// Whether a write request can be written out: each of its time series can.
pub open spec fn request_fits(request: Seq<TimeSeriesView>) -> bool {
    forall|i: int| 0 <= i < request.len() ==> series_fits(#[trigger] request[i])
}

/// Appends `value` to `buf` with `prost::encoding::encode_varint`: base 128,
/// least significant digit first, the high bit set on every byte but the
/// last.
#[verifier::external_body]
fn put_varint(buf: &mut Vec<u8>, value: u64)
    ensures
        final(buf)@ == old(buf)@ + varint(value as nat),
{
    prost::encoding::encode_varint(value, buf)
}

/// Appends a field that holds `payload`.
fn put_delimited(buf: &mut Vec<u8>, key: u8, payload: &mut Vec<u8>)
    ensures
        final(buf)@ == old(buf)@ + delimited(key, old(payload)@),
{
    buf.push(key);
    put_varint(buf, payload.len() as u64);
    buf.append(payload);
    assert(buf@ =~= old(buf)@ + delimited(key, old(payload)@));
}

/// Appends a field that holds `text`, unless the text is empty.
fn put_text(buf: &mut Vec<u8>, key: u8, text: &str)
    ensures
        final(buf)@ == old(buf)@ + text_field(key, text@),
{
    if text.is_empty() {
        assert(buf@ =~= old(buf)@ + text_field(key, text@));
    } else {
        let mut payload = text.as_bytes_vec();
        put_delimited(buf, key, &mut payload);
    }
}

/// A label on the wire.
pub fn encode_label(label: &Label) -> (bytes: Vec<u8>)
    ensures
        bytes@ == label_bytes(label@),
        label_fits(label@),
{
    let mut bytes: Vec<u8> = Vec::new();
    put_text(&mut bytes, FIRST_DELIMITED, label.name.as_str());
    put_text(&mut bytes, SECOND_DELIMITED, label.value.as_str());
    assert(bytes@ =~= label_bytes(label@));
    let name_length = label.name.as_str().as_bytes().len();
    let value_length = label.value.as_str().as_bytes().len();
    let length = bytes.len();
    assert(label_fits(label@));
    bytes
}

/// A sample on the wire.
pub fn encode_sample(sample: &Sample) -> (bytes: Vec<u8>)
    ensures
        bytes@ == sample_bytes(*sample),
{
    let mut bytes: Vec<u8> = Vec::new();
    if sample.value != 0 {
        bytes.push(FIRST_FIXED64);
        let mut value = u64_to_le_bytes(sample.value);
        bytes.append(&mut value);
    }
    if sample.timestamp != 0 {
        bytes.push(SECOND_VARINT);
        put_varint(&mut bytes, sample.timestamp as u64);
    }
    proof {
        let t: i64 = sample.timestamp;
        assert(t < 0 ==> t as u64 == t + 0x1_0000_0000_0000_0000) by (bit_vector);
        assert(bytes@ =~= sample_bytes(*sample));
    }
    bytes
}

/// A time series on the wire.
pub fn encode_series(series: &TimeSeries) -> (bytes: Vec<u8>)
    ensures
        bytes@ == series_bytes(series@),
        series_fits(series@),
{
    let mut bytes: Vec<u8> = Vec::new();
    let ghost labels = labels_view(series.labels@);
    let mut i: usize = 0;
    proof {
        assert(labels.skip(0) =~= labels);
        assert(bytes@ + labels_bytes(labels) =~= labels_bytes(labels));
    }
    while i < series.labels.len()
        invariant
            i <= series.labels.len(),
            labels == labels_view(series.labels@),
            bytes@ + labels_bytes(labels.skip(i as int)) == labels_bytes(labels),
            forall|k: int| 0 <= k < i ==> label_fits(#[trigger] labels[k]),
        decreases series.labels.len() - i,
    {
        let mut payload = encode_label(&series.labels[i]);
        proof {
            assert(labels.skip(i as int).drop_first() =~= labels.skip(i + 1));
            assert(labels.skip(i as int)[0] == series.labels@[i as int]@);
        }
        let ghost before = bytes@;
        put_delimited(&mut bytes, FIRST_DELIMITED, &mut payload);
        assert(bytes@ + labels_bytes(labels.skip(i + 1)) =~= before + labels_bytes(
            labels.skip(i as int),
        ));
        i += 1;
    }
    let ghost head = bytes@;
    let ghost samples = series.samples@;
    let mut j: usize = 0;
    proof {
        assert(labels.skip(i as int) =~= Seq::empty());
        assert(head =~= labels_bytes(labels));
        assert(samples.skip(0) =~= samples);
        assert(bytes@.skip(head.len() as int) + samples_bytes(samples) =~= samples_bytes(samples));
    }
    while j < series.samples.len()
        invariant
            j <= series.samples.len(),
            samples == series.samples@,
            head == labels_bytes(labels),
            forall|k: int| 0 <= k < labels.len() ==> label_fits(#[trigger] labels[k]),
            head.len() <= bytes@.len(),
            bytes@.subrange(0, head.len() as int) == head,
            bytes@.skip(head.len() as int) + samples_bytes(samples.skip(j as int)) == samples_bytes(
                samples,
            ),
        decreases series.samples.len() - j,
    {
        let mut payload = encode_sample(&series.samples[j]);
        proof {
            assert(samples.skip(j as int).drop_first() =~= samples.skip(j + 1));
        }
        let ghost before = bytes@;
        put_delimited(&mut bytes, SECOND_DELIMITED, &mut payload);
        proof {
            assert(bytes@.subrange(0, head.len() as int) =~= head);
            assert(bytes@.skip(head.len() as int) =~= before.skip(head.len() as int) + delimited(
                SECOND_DELIMITED,
                sample_bytes(samples[j as int]),
            ));
            assert(bytes@.skip(head.len() as int) + samples_bytes(samples.skip(j + 1))
                =~= before.skip(head.len() as int) + samples_bytes(samples.skip(j as int)));
        }
        j += 1;
    }
    proof {
        assert(labels.skip(i as int) =~= Seq::empty());
        assert(samples.skip(j as int) =~= Seq::empty());
        assert(bytes@ =~= bytes@.subrange(0, head.len() as int) + bytes@.skip(head.len() as int));
        assert(bytes@.skip(head.len() as int) =~= samples_bytes(samples));
    }
    let length = bytes.len();
    bytes
}

/// A write request on the wire. A request that is held in memory fits: none
/// of its lengths is beyond 64 bits.
pub fn encode_write_request(request: &WriteRequest) -> (bytes: Vec<u8>)
    ensures
        bytes@ == request_bytes(request@),
        request_fits(request@),
{
    let mut bytes: Vec<u8> = Vec::new();
    let ghost all = series_view(request.timeseries@);
    let mut i: usize = 0;
    proof {
        assert(all.skip(0) =~= all);
        assert(bytes@ + request_bytes(all) =~= request_bytes(all));
    }
    while i < request.timeseries.len()
        invariant
            i <= request.timeseries.len(),
            all == series_view(request.timeseries@),
            bytes@ + request_bytes(all.skip(i as int)) == request_bytes(all),
            forall|k: int| 0 <= k < i ==> series_fits(#[trigger] all[k]),
        decreases request.timeseries.len() - i,
    {
        let mut payload = encode_series(&request.timeseries[i]);
        proof {
            assert(all.skip(i as int).drop_first() =~= all.skip(i + 1));
            assert(all.skip(i as int)[0] == request.timeseries@[i as int]@);
        }
        let ghost before = bytes@;
        put_delimited(&mut bytes, FIRST_DELIMITED, &mut payload);
        assert(bytes@ + request_bytes(all.skip(i + 1)) =~= before + request_bytes(
            all.skip(i as int),
        ));
        i += 1;
    }
    proof {
        assert(all.skip(i as int) =~= Seq::empty());
        assert(bytes@ =~= bytes@ + Seq::<u8>::empty());
    }
    bytes
}

} // verus!
