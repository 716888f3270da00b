use base64::{engine::general_purpose, Engine};
use hmac::{Hmac, Mac};
use kingfisher::liquid_filters::{
    register_all, B64EncFilter, B64UrlEncFilter, FilterKind, FilterValue, HmacSha256, HmacSha384,
    IsoTimestampFilter, JsonEscapeFilter, JwtHeaderFilter, RandomStringFilter, Sha256Filter,
    UnixTimestampFilter, UrlEncodeFilter, UuidFilter,
};
use percent_encoding::{utf8_percent_encode, NON_ALPHANUMERIC};
use sha2::{Digest, Sha256, Sha384};
use time::format_description::well_known::Iso8601;
use time::OffsetDateTime;

#[test]
fn b64enc_filter() {
    assert_eq!(B64EncFilter.evaluate("hello"), "aGVsbG8=");
}

#[test]
fn sha256_filter() {
    let expect = format!("{:x}", Sha256::digest(b"hello"));
    assert_eq!(Sha256Filter.evaluate("hello"), expect);
}

#[test]
fn b64url_enc_filter() {
    assert_eq!(
        B64UrlEncFilter.evaluate("++??"),
        general_purpose::URL_SAFE_NO_PAD.encode("++??")
    );
}

#[test]
fn url_encode_filter() {
    assert_eq!(
        UrlEncodeFilter.evaluate("hello world!"),
        utf8_percent_encode("hello world!", NON_ALPHANUMERIC).to_string()
    );
}

#[test]
fn json_escape_filter() {
    assert_eq!(JsonEscapeFilter.evaluate("\"hi\""), r#""\"hi\"""#);
}

#[test]
fn jwt_header_filter() {
    let expect = general_purpose::URL_SAFE_NO_PAD.encode(r#"{"typ":"JWT","alg":"HS256"}"#);
    assert_eq!(JwtHeaderFilter.evaluate("HS256"), expect);
}

#[test]
fn hmac_sha256_filter() {
    let key = b"secret";
    let data = b"hi!";
    let mut mac = Hmac::<Sha256>::new_from_slice(key).unwrap();
    mac.update(data);
    let expect = general_purpose::STANDARD.encode(mac.finalize().into_bytes());

    assert_eq!(HmacSha256.evaluate("hi!", "secret"), expect);
}

#[test]
fn hmac_sha384_filter() {
    let key = b"topsecret";
    let data = b"payload";
    let mut mac = Hmac::<Sha384>::new_from_slice(key).unwrap();
    mac.update(data);
    let expect = general_purpose::STANDARD.encode(mac.finalize().into_bytes());

    assert_eq!(HmacSha384.evaluate("payload", "topsecret"), expect);
}

#[test]
fn random_string_filter_default_len() {
    let out = RandomStringFilter { len: None }.evaluate("");
    assert_eq!(out.len(), 32);
    assert!(out.chars().all(|c| c.is_ascii_alphanumeric()));
}

#[test]
fn random_string_filter_custom_len() {
    let out = RandomStringFilter { len: None }.evaluate("10");
    assert_eq!(out.len(), 10);
}

#[test]
fn unix_timestamp_filter_is_nowish() {
    let value: i64 = UnixTimestampFilter.evaluate("");
    let now = OffsetDateTime::now_utc().unix_timestamp();
    assert!((now - value).abs() < 5, "timestamp differs by >5 s");
}

#[test]
fn iso_timestamp_filter_parses() {
    let out = IsoTimestampFilter.evaluate("");
    assert!(OffsetDateTime::parse(&out, &Iso8601::DEFAULT).is_ok());
}

/// Lower-case hexadecimal digits in groups of 8, 4, 4, 4 and 12, with the version digit 4 and one
/// of the variant digits 8, 9, a and b in their places.
fn is_uuid_v4(text: &str) -> bool {
    let groups: Vec<&str> = text.split('-').collect();
    let widths: Vec<usize> = groups.iter().map(|g| g.len()).collect();
    widths == vec![8, 4, 4, 4, 12]
        && groups.iter().all(|g| g.chars().all(|c| matches!(c, '0'..='9' | 'a'..='f')))
        && groups[2].starts_with('4')
        && groups[3].starts_with(['8', '9', 'a', 'b'])
}

#[test]
fn uuid_filter_format() {
    let v = UuidFilter.evaluate("");
    assert!(is_uuid_v4(&v));
}

#[test]
fn random_values_differ() {
    assert_ne!(UuidFilter.evaluate(""), UuidFilter.evaluate(""));
    let long = RandomStringFilter { len: Some(64) };
    assert_ne!(long.evaluate(""), long.evaluate(""));
}

#[test]
fn random_string_prefers_its_own_length() {
    let filter = RandomStringFilter { len: Some(5) };
    assert_eq!(filter.length_for("10"), 5);
    assert_eq!(filter.evaluate("10").len(), 5);
    assert_eq!(RandomStringFilter { len: Some(0) }.evaluate("10"), "");
}

#[test]
fn random_string_length_in_text() {
    let filter = RandomStringFilter { len: None };
    assert_eq!(filter.length_for("+7"), 7);
    assert_eq!(filter.length_for("007"), 7);
    assert_eq!(filter.length_for("0"), 0);
    assert_eq!(filter.length_for("+"), 32);
    assert_eq!(filter.length_for("-3"), 32);
    assert_eq!(filter.length_for(" 3"), 32);
    assert_eq!(filter.length_for("3.0"), 32);
    assert_eq!(filter.length_for("ten"), 32);
    assert_eq!(filter.length_for("18446744073709551615"), usize::MAX);
    assert_eq!(filter.length_for("18446744073709551616"), 32);
    assert_eq!(filter.length_for("99999999999999999999999999"), 32);
}

#[test]
fn base64_exact_values() {
    assert_eq!(B64EncFilter.evaluate(""), "");
    assert_eq!(B64EncFilter.evaluate("f"), "Zg==");
    assert_eq!(B64EncFilter.evaluate("fo"), "Zm8=");
    assert_eq!(B64EncFilter.evaluate("foo"), "Zm9v");
    assert_eq!(B64EncFilter.evaluate("~~~???"), "fn5+Pz8/");
    assert_eq!(B64UrlEncFilter.evaluate("~~~???"), "fn5-Pz8_");
    assert_eq!(B64UrlEncFilter.evaluate("f"), "Zg");
    assert_eq!(B64EncFilter.evaluate("\u{e9}"), "w6k=");
}

#[test]
fn base64_comes_in_groups_of_four() {
    for text in ["", "a", "ab", "abc", "abcd", "abcde"] {
        assert_eq!(B64EncFilter.evaluate(text).len() % 4, 0);
    }
}

#[test]
fn base64_reads_back() {
    let text = "any text, \u{1f980} and \u{7f}";
    let decoded = general_purpose::STANDARD.decode(B64EncFilter.evaluate(text)).unwrap();
    assert_eq!(decoded, text.as_bytes());
    let decoded = general_purpose::URL_SAFE_NO_PAD.decode(B64UrlEncFilter.evaluate(text)).unwrap();
    assert_eq!(decoded, text.as_bytes());
}

#[test]
fn base64_url_is_url_safe() {
    let encoded = B64UrlEncFilter.evaluate("\u{fff}\u{3bf}~~~???>>>");
    assert!(encoded.chars().all(|c| c.is_ascii_alphanumeric() || c == '-' || c == '_'));
}

#[test]
fn sha256_exact_value() {
    assert_eq!(
        Sha256Filter.evaluate("abc"),
        "ba7816bf8f01cfea414140de5dae2223b00361a396177a9cb410ff61f20015ad"
    );
}

#[test]
fn hmac_exact_values() {
    let data = "The quick brown fox jumps over the lazy dog";
    assert_eq!(
        HmacSha256.evaluate(data, "key"),
        "97yD9DBThCSxMpjmqm+xQ+9NWaFJRhdZl0edvC0aPNg="
    );
    assert_eq!(HmacSha256.evaluate("", "").len(), 44);
    assert_eq!(HmacSha384.evaluate("", "").len(), 64);
    assert_ne!(HmacSha256.evaluate(data, "key"), HmacSha256.evaluate("key", data));
}

#[test]
fn hmac_takes_keys_of_any_length() {
    let key = "k".repeat(1000);
    let mut mac = Hmac::<Sha384>::new_from_slice(key.as_bytes()).unwrap();
    mac.update(b"data");
    let expect = general_purpose::STANDARD.encode(mac.finalize().into_bytes());
    assert_eq!(HmacSha384.evaluate("data", &key), expect);
}

#[test]
fn url_encode_exact_values() {
    assert_eq!(UrlEncodeFilter.evaluate("hello world!"), "hello%20world%21");
    assert_eq!(UrlEncodeFilter.evaluate("a-b_c.d~e"), "a%2Db%5Fc%2Ed%7Ee");
    assert_eq!(UrlEncodeFilter.evaluate("\u{e9}"), "%C3%A9");
    assert_eq!(UrlEncodeFilter.evaluate("%"), "%25");
    assert_eq!(UrlEncodeFilter.evaluate("Az09"), "Az09");
}

#[test]
fn url_encode_reads_back() {
    let text = "100% \u{1f980}?&=/";
    let encoded = UrlEncodeFilter.evaluate(text);
    assert!(encoded.chars().all(|c| c.is_ascii_alphanumeric() || c == '%'));
    let decoded = percent_encoding::percent_decode_str(&encoded).decode_utf8().unwrap();
    assert_eq!(decoded, text);
}

#[test]
fn json_escape_exact_values() {
    assert_eq!(JsonEscapeFilter.evaluate(""), "\"\"");
    assert_eq!(
        JsonEscapeFilter.evaluate("\"\\/\u{8}\t\n\u{c}\r\u{0}\u{1f}\u{7f}\u{e9}"),
        "\"\\\"\\\\/\\b\\t\\n\\f\\r\\u0000\\u001f\u{7f}\u{e9}\""
    );
}

#[test]
fn json_escape_reads_back() {
    let text = "line\nbreak \"quoted\" \\ \u{1} \u{1f980}";
    let json = JsonEscapeFilter.evaluate(text);
    assert!(json.chars().all(|c| c >= ' '));
    let back: String = serde_json::from_str(&json).unwrap();
    assert_eq!(back, text);
}

#[test]
fn jwt_header_escapes_the_algorithm() {
    let decoded =
        general_purpose::URL_SAFE_NO_PAD.decode(JwtHeaderFilter.evaluate("a\"b")).unwrap();
    assert_eq!(String::from_utf8(decoded).unwrap(), r#"{"typ":"JWT","alg":"a\"b"}"#);
}

#[test]
fn iso_timestamp_exact_values() {
    assert_eq!(IsoTimestampFilter::evaluate_at(0), "1970-01-01T00:00:00.000000000Z");
    assert_eq!(
        IsoTimestampFilter::evaluate_at(1_700_000_000_123_456_789),
        "2023-11-14T22:13:20.123456789Z"
    );
}

#[test]
fn iso_timestamp_falls_back_to_the_epoch() {
    assert_eq!(IsoTimestampFilter::evaluate_at(i128::MAX), "1970-01-01T00:00:00Z");
    assert_eq!(IsoTimestampFilter::or_epoch(None), "1970-01-01T00:00:00Z");
    assert_eq!(IsoTimestampFilter::or_epoch(Some("x".to_string())), "x");
}

#[test]
fn every_filter_is_registered_under_its_name() {
    let all = register_all(Vec::new());
    let names: Vec<&str> = all.iter().map(|f| f.name()).collect();
    assert_eq!(
        names,
        vec![
            "b64url_enc",
            "sha256",
            "url_encode",
            "json_escape",
            "unix_timestamp",
            "iso_timestamp",
            "uuid",
            "jwt_header",
            "b64enc",
            "random_string",
            "hmac_sha256",
            "hmac_sha384",
        ]
    );
}

#[test]
fn registration_keeps_what_is_registered() {
    let all = register_all(vec![FilterKind::Uuid]);
    assert_eq!(all.len(), 13);
    assert_eq!(all[0], FilterKind::Uuid);
    assert_eq!(all[1], FilterKind::B64UrlEnc);
}

fn text_of(kind: FilterKind, input: &str, key: &str) -> String {
    match kind.evaluate(input, key) {
        FilterValue::Text(text) => text,
        FilterValue::Number(_) => panic!("a number where a text belongs"),
    }
}

#[test]
fn every_kind_does_what_its_filter_does() {
    assert_eq!(text_of(FilterKind::B64Enc, "~~~???", ""), "fn5+Pz8/");
    assert_eq!(text_of(FilterKind::B64UrlEnc, "~~~???", ""), "fn5-Pz8_");
    assert_eq!(text_of(FilterKind::Sha256, "abc", ""), Sha256Filter.evaluate("abc"));
    assert_eq!(text_of(FilterKind::UrlEncode, "a b", ""), "a%20b");
    assert_eq!(text_of(FilterKind::JsonEscape, "\"", ""), "\"\\\"\"");
    assert_eq!(text_of(FilterKind::JwtHeader, "HS256", ""), JwtHeaderFilter.evaluate("HS256"));
    assert_eq!(text_of(FilterKind::HmacSha256, "m", "k"), HmacSha256.evaluate("m", "k"));
    assert_eq!(text_of(FilterKind::HmacSha384, "m", "k"), HmacSha384.evaluate("m", "k"));
    assert_eq!(text_of(FilterKind::RandomString, "12", "").len(), 12);
    assert!(is_uuid_v4(&text_of(FilterKind::Uuid, "", "")));
    assert!(OffsetDateTime::parse(&text_of(FilterKind::IsoTimestamp, "", ""), &Iso8601::DEFAULT)
        .is_ok());
    match FilterKind::UnixTimestamp.evaluate("", "") {
        FilterValue::Number(seconds) => {
            let now = OffsetDateTime::now_utc().unix_timestamp();
            assert!((now - seconds).abs() < 5);
        }
        FilterValue::Text(_) => panic!("a text where a number belongs"),
    }
}
