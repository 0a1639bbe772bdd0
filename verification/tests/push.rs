use oxybox::mimir::client::is_valid_header_value;
use oxybox::mimir::client::push_outcome;
use oxybox::mimir::client::push_request;
use oxybox::mimir::client::send_to_mimir;
use oxybox::mimir::client::time_series_at;
use oxybox::mimir::client::Label;
use oxybox::mimir::client::PushError;
use oxybox::mimir::client::Sample;
use oxybox::mimir::client::TimeSeries;
use oxybox::mimir::client::TransportFailure;
use oxybox::mimir::client::WriteRequest;
use oxybox::mimir::wire::encode_label;
use oxybox::mimir::wire::encode_sample;
use oxybox::mimir::wire::encode_series;
use oxybox::mimir::wire::encode_write_request;

fn label(name: &str, value: &str) -> Label {
    Label { name: name.to_string(), value: value.to_string() }
}

fn up() -> TimeSeries {
    time_series_at("up", &[], 1.0f64.to_bits(), 1000)
}

fn header_pairs(headers: &Vec<Label>) -> Vec<(String, String)> {
    headers.iter().map(|h| (h.name.clone(), h.value.clone())).collect()
}

#[test]
fn nothing_is_sent_for_no_series() {
    assert_eq!(send_to_mimir("http://localhost:9009", Some("demo"), vec![]), Ok(None));
    assert_eq!(send_to_mimir("http://localhost:9009", None, vec![]), Ok(None));
    // Not even the tenant is looked at.
    assert_eq!(send_to_mimir("http://localhost:9009", Some("\n"), vec![]), Ok(None));
}

#[test]
fn push_goes_to_the_push_path_with_the_remote_write_headers() {
    let request = send_to_mimir("http://localhost:9009", Some("demo"), vec![up()]).unwrap().unwrap();
    assert_eq!(request.url, "http://localhost:9009/api/v1/push");
    assert_eq!(
        header_pairs(&request.headers),
        vec![
            ("Content-Encoding".to_string(), "snappy".to_string()),
            ("Content-Type".to_string(), "application/x-protobuf".to_string()),
            ("X-Prometheus-Remote-Write-Version".to_string(), "0.1.0".to_string()),
            ("X-Scope-OrgID".to_string(), "demo".to_string()),
        ]
    );
}

#[test]
fn push_without_tenant_has_no_tenant_header() {
    let request = send_to_mimir("https://mimir.example", None, vec![up()]).unwrap().unwrap();
    assert_eq!(request.url, "https://mimir.example/api/v1/push");
    assert_eq!(request.headers.len(), 3);
    assert!(request.headers.iter().all(|h| h.name != "X-Scope-OrgID"));
}

#[test]
fn body_is_the_snappy_block_of_the_encoded_request() {
    let series: Vec<TimeSeries> = (0..50)
        .map(|i| {
            time_series_at(
                "probe_http_duration_seconds",
                &[("instance", "https://www.example.com"), ("phase", "resolve")],
                (i as f64).to_bits(),
                1_700_000_000_000 + i,
            )
        })
        .collect();
    let raw = encode_write_request(&WriteRequest { timeseries: series.clone() });
    let request = send_to_mimir("http://m", Some("demo"), series).unwrap().unwrap();
    assert_ne!(request.body, raw);
    assert!(request.body.len() < raw.len());
    let expected = snap::raw::Encoder::new().compress_vec(&raw).unwrap();
    assert_eq!(request.body, expected);
    let back = snap::raw::Decoder::new().decompress_vec(&request.body).unwrap();
    assert_eq!(back, raw);
}

#[test]
fn tenant_with_a_control_character_is_refused() {
    let refused = Err(PushError::Transport(TransportFailure::TenantId));
    assert_eq!(send_to_mimir("http://m", Some("de\nmo"), vec![up()]), refused);
    assert_eq!(send_to_mimir("http://m", Some("demo\u{7f}"), vec![up()]), refused);
    assert_eq!(push_request("http://m", Some("\0"), vec![1]), Err(PushError::Transport(TransportFailure::TenantId)));
    assert!(send_to_mimir("http://m", Some("de\tmo"), vec![up()]).is_ok());
    assert!(send_to_mimir("http://m", Some("z\u{fc}rich"), vec![up()]).is_ok());
    assert!(send_to_mimir("http://m", Some(""), vec![up()]).is_ok());
}

#[test]
fn push_request_carries_the_block_as_it_is() {
    let request = push_request("http://m", None, vec![1, 2, 3]).unwrap();
    assert_eq!(request.body, vec![1, 2, 3]);
    assert_eq!(request.url, "http://m/api/v1/push");
    assert_eq!(request.headers.len(), 3);
}

#[test]
fn header_values_are_checked_character_by_character() {
    assert!(is_valid_header_value("demo"));
    assert!(is_valid_header_value(""));
    assert!(is_valid_header_value("a b\tc~"));
    assert!(is_valid_header_value("\u{80}\u{10ffff}"));
    assert!(!is_valid_header_value("a\u{1f}"));
    assert!(!is_valid_header_value("\r"));
    assert!(!is_valid_header_value("a\u{7f}b"));
    for code in 0u32..=0x2FF {
        let c = char::from_u32(code).unwrap();
        let text = c.to_string();
        let expected = text.bytes().all(|b| (b >= 32 && b != 127) || b == b'\t');
        assert_eq!(is_valid_header_value(&text), expected, "code point {:#x}", code);
    }
}

#[test]
fn any_2xx_answer_is_a_success() {
    assert_eq!(push_outcome(200, String::new()), Ok(()));
    assert_eq!(push_outcome(204, "ignored".to_string()), Ok(()));
    assert_eq!(push_outcome(299, String::new()), Ok(()));
}

#[test]
fn any_other_answer_is_a_rejection_with_status_and_body() {
    for status in [0u16, 100, 199, 300, 301, 400, 404, 429, 500, 503, u16::MAX] {
        assert_eq!(
            push_outcome(status, "too many samples".to_string()),
            Err(PushError::BackendRejected { status, body: "too many samples".to_string() })
        );
    }
}

#[test]
fn label_on_the_wire() {
    assert_eq!(
        encode_label(&label("__name__", "up")),
        vec![0x0A, 8, b'_', b'_', b'n', b'a', b'm', b'e', b'_', b'_', 0x12, 2, b'u', b'p']
    );
    assert_eq!(encode_label(&label("", "")), Vec::<u8>::new());
    assert_eq!(encode_label(&label("a", "")), vec![0x0A, 1, b'a']);
    assert_eq!(encode_label(&label("", "b")), vec![0x12, 1, b'b']);
    assert_eq!(encode_label(&label("\u{e9}", "\u{20ac}")), vec![0x0A, 2, 0xC3, 0xA9, 0x12, 3, 0xE2, 0x82, 0xAC]);
}

#[test]
fn long_text_has_a_length_of_several_bytes() {
    let name = "n".repeat(300);
    let bytes = encode_label(&label(&name, ""));
    assert_eq!(bytes.len(), 303);
    assert_eq!(&bytes[..3], &[0x0A, 0xAC, 0x02]);
    assert!(bytes[3..].iter().all(|b| *b == b'n'));
    let exact = encode_label(&label(&"n".repeat(127), ""));
    assert_eq!(&exact[..2], &[0x0A, 127]);
    let next = encode_label(&label(&"n".repeat(128), ""));
    assert_eq!(&next[..3], &[0x0A, 0x80, 0x01]);
}

#[test]
fn sample_on_the_wire() {
    assert_eq!(
        encode_sample(&Sample { value: 1.0f64.to_bits(), timestamp: 1000 }),
        vec![0x09, 0, 0, 0, 0, 0, 0, 0xF0, 0x3F, 0x10, 0xE8, 0x07]
    );
    assert_eq!(encode_sample(&Sample { value: 0, timestamp: 0 }), Vec::<u8>::new());
    assert_eq!(encode_sample(&Sample { value: 0, timestamp: 1 }), vec![0x10, 1]);
    assert_eq!(
        encode_sample(&Sample { value: 0x0102_0304_0506_0708, timestamp: 0 }),
        vec![0x09, 8, 7, 6, 5, 4, 3, 2, 1]
    );
    assert_eq!(
        encode_sample(&Sample { value: 0, timestamp: -1 }),
        vec![0x10, 0xFF, 0xFF, 0xFF, 0xFF, 0xFF, 0xFF, 0xFF, 0xFF, 0xFF, 0x01]
    );
    assert_eq!(
        encode_sample(&Sample { value: 0, timestamp: i64::MIN }),
        vec![0x10, 0x80, 0x80, 0x80, 0x80, 0x80, 0x80, 0x80, 0x80, 0x80, 0x01]
    );
    assert_eq!(
        encode_sample(&Sample { value: 0, timestamp: i64::MAX }),
        vec![0x10, 0xFF, 0xFF, 0xFF, 0xFF, 0xFF, 0xFF, 0xFF, 0xFF, 0x7F]
    );
    // Negative zero is not the all-zero pattern and is written out.
    assert_eq!(
        encode_sample(&Sample { value: (-0.0f64).to_bits(), timestamp: 0 }),
        vec![0x09, 0, 0, 0, 0, 0, 0, 0, 0x80]
    );
}

#[test]
fn write_request_on_the_wire() {
    let label_bytes = vec![0x0A, 8, b'_', b'_', b'n', b'a', b'm', b'e', b'_', b'_', 0x12, 2, b'u', b'p'];
    let sample_bytes = vec![0x09, 0, 0, 0, 0, 0, 0, 0xF0, 0x3F, 0x10, 0xE8, 0x07];
    let mut series_bytes = vec![0x0A, 14];
    series_bytes.extend(&label_bytes);
    series_bytes.extend(&[0x12, 12]);
    series_bytes.extend(&sample_bytes);
    assert_eq!(encode_series(&up()), series_bytes);
    let mut request_bytes = vec![0x0A, 30];
    request_bytes.extend(&series_bytes);
    let once = encode_write_request(&WriteRequest { timeseries: vec![up()] });
    assert_eq!(once, request_bytes);
    let twice = encode_write_request(&WriteRequest { timeseries: vec![up(), up()] });
    let mut doubled = request_bytes.clone();
    doubled.extend(&request_bytes);
    assert_eq!(twice, doubled);
    assert_eq!(encode_write_request(&WriteRequest { timeseries: vec![] }), Vec::<u8>::new());
}

#[test]
fn empty_series_is_an_empty_message() {
    let empty = TimeSeries { labels: vec![], samples: vec![] };
    assert_eq!(encode_series(&empty), Vec::<u8>::new());
    assert_eq!(encode_write_request(&WriteRequest { timeseries: vec![empty] }), vec![0x0A, 0]);
    let blanks = TimeSeries {
        labels: vec![label("", "")],
        samples: vec![Sample { value: 0, timestamp: 0 }],
    };
    assert_eq!(encode_series(&blanks), vec![0x0A, 0, 0x12, 0]);
}

#[test]
fn lengths_agree_with_prost() {
    for value in [0u64, 1, 127, 128, 300, 16_383, 16_384, u32::MAX as u64, u64::MAX] {
        let name = "x".repeat((value % 5000) as usize + 1);
        let bytes = encode_label(&label(&name, ""));
        let mut rest = &bytes[1..];
        let length = prost::encoding::decode_varint(&mut rest).unwrap();
        assert_eq!(length as usize, name.len());
        assert_eq!(rest.len(), name.len());
        let sample = encode_sample(&Sample { value: 0, timestamp: value as i64 });
        if value == 0 {
            assert!(sample.is_empty());
        } else {
            let mut rest = &sample[1..];
            assert_eq!(prost::encoding::decode_varint(&mut rest).unwrap(), value);
            assert!(rest.is_empty());
            assert_eq!(sample.len(), 1 + prost::encoding::encoded_len_varint(value));
        }
    }
}
