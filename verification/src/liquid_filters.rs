//! The filters that templates for HTTP validation and for signing requests use.

use rand::Rng;
use vstd::prelude::*;
use vstd::utf8::encode_utf8;

use crate::digest::{hmac_sha256, hmac_sha384, sha256};
use crate::digest::{hmac_sha256_code, hmac_sha384_code, sha256_digest};
use crate::encoding::{
    base64_encode, base64_url_encode, json_object_of_two, json_string, percent_encode,
};
use crate::encoding::{
    base64_text, base64_url_text, json_inside, json_member, json_text, law_json_text_can_be_read_back,
    percent_text,
};
use crate::text::{
    digits_text, hex_text, is_ascii_alphanumeric, is_lower_hex, law_size_can_be_read_back, parse_size,
    size_in_text, to_hex,
};

verus! {

/// HMAC-SHA256, in Base64.
#[derive(Clone, Copy, Debug)]
pub struct HmacSha256;

impl HmacSha256 {
    /// The code of the input under a key, in Base64.
    pub fn evaluate(&self, input: &str, key: &str) -> (value: String)
        ensures
            value@ == base64_text(hmac_sha256_code(encode_utf8(key@), encode_utf8(input@))),
            value@.len() == 44,
    {
        let code: Vec<u8> = hmac_sha256(key.as_bytes(), input.as_bytes());
        base64_encode(code.as_slice())
    }
}

/// HMAC-SHA384, in Base64.
#[derive(Clone, Copy, Debug)]
pub struct HmacSha384;

impl HmacSha384 {
    /// The code of the input under a key, in Base64.
    pub fn evaluate(&self, input: &str, key: &str) -> (value: String)
        ensures
            value@ == base64_text(hmac_sha384_code(encode_utf8(key@), encode_utf8(input@))),
            value@.len() == 64,
    {
        let code: Vec<u8> = hmac_sha384(key.as_bytes(), input.as_bytes());
        base64_encode(code.as_slice())
    }
}

/// How long a random string is when nothing says otherwise.
pub const DEFAULT_RANDOM_LENGTH: usize = 32;

/// Random alphanumeric string (default 32 chars).
#[derive(Clone, Copy, Debug)]
pub struct RandomStringFilter {
    /// The length, where it is given.
    pub len: Option<usize>,
}

/// `rand::Rng::sample_iter` on `rand::rng()` with `rand::distr::Alphanumeric`: as many
/// characters as asked for, each an ASCII letter or digit. Which ones is left to chance. The call
/// panics where the system gives no randomness to begin with.
#[verifier::external_body]
fn random_alphanumeric(n: usize) -> (text: String)
    requires
        n <= isize::MAX,
    ensures
        text@.len() == n,
        forall|i: int| 0 <= i < text@.len() ==> is_ascii_alphanumeric(#[trigger] text@[i]),
{
    rand::rng().sample_iter(&rand::distr::Alphanumeric).take(n).map(char::from).collect()
}

/// Whether a text was drawn at random, at a length.
pub closed spec fn is_drawn_text(text: String, n: usize) -> bool {
    call_ensures(random_alphanumeric, (n,), text)
}

impl RandomStringFilter {
    /// The length of the random string: the one that is given, else the one that the input
    /// spells, else the default.
    pub open spec fn chosen_length(self, input: Seq<char>) -> usize {
        match self.len {
            Some(n) => n,
            None => match size_in_text(input) {
                Some(n) => n,
                None => DEFAULT_RANDOM_LENGTH,
            },
        }
    }

    /// The length of the random string for an input.
    pub fn length_for(&self, input: &str) -> (n: usize)
        ensures
            n == self.chosen_length(input@),
    {
        match self.len {
            Some(n) => n,
            None => match parse_size(input) {
                Some(n) => n,
                None => DEFAULT_RANDOM_LENGTH,
            },
        }
    }

    /// A random string of letters and digits. A string longer than memory can address cannot be
    /// asked for.
    pub fn evaluate(&self, input: &str) -> (value: String)
        requires
            self.chosen_length(input@) <= isize::MAX,
        ensures
            is_drawn_text(value, self.chosen_length(input@)),
            value@.len() == self.chosen_length(input@),
            forall|i: int| 0 <= i < value@.len() ==> is_ascii_alphanumeric(#[trigger] value@[i]),
    {
        random_alphanumeric(self.length_for(input))
    }
}

/// Encodes the input string using Base64 encoding
#[derive(Clone, Copy, Debug)]
pub struct B64EncFilter;

impl B64EncFilter {
    /// The input in Base64.
    pub fn evaluate(&self, input: &str) -> (value: String)
        ensures
            value@ == base64_text(encode_utf8(input@)),
    {
        base64_encode(input.as_bytes())
    }
}

/// SHA-256 hex digest.
#[derive(Clone, Copy, Debug)]
pub struct Sha256Filter;

impl Sha256Filter {
    /// The digest of the input, in lower-case hexadecimal.
    pub fn evaluate(&self, input: &str) -> (value: String)
        ensures
            value@ == hex_text(sha256_digest(encode_utf8(input@))),
            value@.len() == 64,
    {
        let digest: Vec<u8> = sha256(input.as_bytes());
        to_hex(digest.as_slice())
    }
}

/// Base64 URL-safe (no `=` padding).
#[derive(Clone, Copy, Debug)]
pub struct B64UrlEncFilter;

impl B64UrlEncFilter {
    /// The input in URL-safe Base64.
    pub fn evaluate(&self, input: &str) -> (value: String)
        ensures
            value@ == base64_url_text(encode_utf8(input@)),
    {
        base64_url_encode(input.as_bytes())
    }
}

/// Generate a minimal JWT header for the given alg.
#[derive(Clone, Copy, Debug)]
pub struct JwtHeaderFilter;

/// The JSON of a JWT header: the type, then the algorithm.
pub open spec fn jwt_header_json(alg: Seq<char>) -> Seq<char> {
    seq!['{'] + json_member("typ"@, "JWT"@) + seq![','] + json_member("alg"@, alg) + seq!['}']
}

impl JwtHeaderFilter {
    /// The header for the algorithm that the input names, in URL-safe Base64.
    pub fn evaluate(&self, input: &str) -> (value: String)
        ensures
            value@ == base64_url_text(encode_utf8(jwt_header_json(input@))),
    {
        proof {
            reveal_strlit("typ");
            reveal_strlit("alg");
            assert("typ"@[0] != "alg"@[0]);
        }
        let json: String = json_object_of_two("typ", "JWT", "alg", input);
        base64_url_encode(json.as_str().as_bytes())
    }
}

/// Percent-encode for a URL.
#[derive(Clone, Copy, Debug)]
pub struct UrlEncodeFilter;

impl UrlEncodeFilter {
    /// The input, percent-encoded.
    pub fn evaluate(&self, input: &str) -> (value: String)
        ensures
            value@ == percent_text(encode_utf8(input@)),
    {
        percent_encode(input)
    }
}

/// Escape string for JSON contexts.
#[derive(Clone, Copy, Debug)]
pub struct JsonEscapeFilter;

impl JsonEscapeFilter {
    /// The input as a JSON string.
    pub fn evaluate(&self, input: &str) -> (value: String)
        ensures
            value@ == json_text(input@),
    {
        match json_string(input) {
            Ok(json) => json,
            Err(_) => String::new(),
        }
    }
}

/// Current Unix epoch seconds.
#[derive(Clone, Copy, Debug)]
pub struct UnixTimestampFilter;

/// A number of seconds beyond every date that the `time` crate can hold, in either direction.
pub const BEYOND_ALL_DATES: i64 = 40_000_000_000_000;

/// A moment of the `time` crate, with an offset from UTC.
#[verifier::external_type_specification]
#[verifier::external_body]
pub struct ExOffsetDateTime(time::OffsetDateTime);

/// `time::OffsetDateTime::now_utc`: a moment of the present, by the machine's clock. Which one it
/// is, nothing says. The call panics where the clock lies outside the dates that the crate can hold.
pub assume_specification[ time::OffsetDateTime::now_utc ]() -> (moment: time::OffsetDateTime)
;

/// `time::OffsetDateTime::unix_timestamp`: the whole seconds from the Unix epoch to a moment. They
/// belong to a date that the crate can hold.
pub assume_specification[ time::OffsetDateTime::unix_timestamp ](
    moment: time::OffsetDateTime,
) -> (seconds: i64)
    ensures
        -BEYOND_ALL_DATES < seconds < BEYOND_ALL_DATES,
;

/// Whether a number is the Unix timestamp of a moment that the clock gives as the present.
pub open spec fn is_timestamp_of_the_present(seconds: i64) -> bool {
    exists|moment: time::OffsetDateTime| #[trigger]
        call_ensures(time::OffsetDateTime::now_utc, (), moment) && call_ensures(
            time::OffsetDateTime::unix_timestamp,
            (moment,),
            seconds,
        )
}

impl UnixTimestampFilter {
    /// The seconds from the Unix epoch to the present, by the machine's clock, whatever the input.
    pub fn evaluate(&self, _input: &str) -> (seconds: i64)
        ensures
            is_timestamp_of_the_present(seconds),
            -BEYOND_ALL_DATES < seconds < BEYOND_ALL_DATES,
    {
        let moment: time::OffsetDateTime = time::OffsetDateTime::now_utc();
        moment.unix_timestamp()
    }
}

/// Current ISO-8601 timestamp (UTC).
#[derive(Clone, Copy, Debug)]
pub struct IsoTimestampFilter;

/// The moment `nanos` nanoseconds after the Unix epoch, as `time` formats it by
/// `Iso8601::DEFAULT` in UTC, or `None` where it cannot.
pub uninterp spec fn iso8601_text(nanos: int) -> Option<Seq<char>>;

/// `time::OffsetDateTime::unix_timestamp_nanos`: the nanoseconds from the Unix epoch to a moment.
/// They belong to a date that the crate can hold.
pub assume_specification[ time::OffsetDateTime::unix_timestamp_nanos ](
    moment: time::OffsetDateTime,
) -> (nanos: i128)
    ensures
        -BEYOND_ALL_DATES * 1_000_000_000 < nanos < BEYOND_ALL_DATES * 1_000_000_000,
;

/// Whether a number counts the nanoseconds from the Unix epoch to a moment that the clock gives as
/// the present.
pub open spec fn are_nanos_of_the_present(nanos: i128) -> bool {
    exists|moment: time::OffsetDateTime| #[trigger]
        call_ensures(time::OffsetDateTime::now_utc, (), moment) && call_ensures(
            time::OffsetDateTime::unix_timestamp_nanos,
            (moment,),
            nanos,
        )
}

/// `time::OffsetDateTime::format` with `Iso8601::DEFAULT`, on the moment that many nanoseconds
/// after the Unix epoch: a text, or nothing where the moment is out of range or has no such form.
#[verifier::external_body]
fn format_iso8601(nanos: i128) -> (text: Option<String>)
    ensures
        text.deep_view() == iso8601_text(nanos as int),
{
    let moment = time::OffsetDateTime::from_unix_timestamp_nanos(nanos).ok()?;
    moment.format(&time::format_description::well_known::Iso8601::DEFAULT).ok()
}

/// The text for a moment that could be formatted, and the epoch for one that could not.
pub open spec fn timestamp_or_epoch(formatted: Option<Seq<char>>) -> Seq<char> {
    match formatted {
        Some(text) => text,
        None => "1970-01-01T00:00:00Z"@,
    }
}

/// Whether a text is the timestamp of a moment that the clock gives as the present.
pub open spec fn is_iso_timestamp_of_the_present(text: Seq<char>) -> bool {
    exists|nanos: i128| #[trigger]
        are_nanos_of_the_present(nanos) && text == timestamp_or_epoch(iso8601_text(nanos as int))
}

impl IsoTimestampFilter {
    /// What the filter makes of a moment once it has been formatted.
    pub fn or_epoch(formatted: Option<String>) -> (value: String)
        ensures
            value@ == timestamp_or_epoch(formatted.deep_view()),
    {
        match formatted {
            Some(text) => text,
            None => "1970-01-01T00:00:00Z".to_owned(),
        }
    }

    /// The timestamp for a moment, in nanoseconds after the Unix epoch.
    pub fn evaluate_at(nanos: i128) -> (value: String)
        ensures
            value@ == timestamp_or_epoch(iso8601_text(nanos as int)),
    {
        Self::or_epoch(format_iso8601(nanos))
    }

    /// The timestamp of the present, by the machine's clock, whatever the input.
    pub fn evaluate(&self, _input: &str) -> (value: String)
        ensures
            is_iso_timestamp_of_the_present(value@),
    {
        let moment: time::OffsetDateTime = time::OffsetDateTime::now_utc();
        let nanos: i128 = moment.unix_timestamp_nanos();
        assert(are_nanos_of_the_present(nanos));
        Self::evaluate_at(nanos)
    }
}

/// Generate random UUID-v4.
#[derive(Clone, Copy, Debug)]
pub struct UuidFilter;

/// The form of a random UUID: hexadecimal digits in groups of 8, 4, 4, 4 and 12 with hyphens
/// between them, the version 4 and the variant in their places.
pub open spec fn is_uuid_v4(text: Seq<char>) -> bool {
    &&& text.len() == 36
    &&& text[8] == '-' && text[13] == '-' && text[18] == '-' && text[23] == '-'
    &&& forall|i: int|
        0 <= i < 36 && i != 8 && i != 13 && i != 18 && i != 23 ==> is_lower_hex(#[trigger] text[i])
    &&& text[14] == '4'
    &&& text[19] == '8' || text[19] == '9' || text[19] == 'a' || text[19] == 'b'
}

/// `uuid::Uuid::new_v4` as a string: the hyphenated form in lower case. Its other digits are left
/// to chance. The call panics where the system gives no randomness.
#[verifier::external_body]
fn random_uuid() -> (text: String)
    ensures
        is_uuid_v4(text@),
{
    uuid::Uuid::new_v4().to_string()
}

/// Whether a text is a UUID that was drawn at random.
pub closed spec fn is_drawn_uuid(text: String) -> bool {
    call_ensures(random_uuid, (), text)
}

impl UuidFilter {
    /// A random UUID, whatever the input.
    pub fn evaluate(&self, _input: &str) -> (value: String)
        ensures
            is_drawn_uuid(value),
            is_uuid_v4(value@),
    {
        random_uuid()
    }
}

/// The filters that templates can use.
#[derive(PartialEq, Eq, Structural, Clone, Copy, Debug)]
pub enum FilterKind {
    B64UrlEnc,
    Sha256,
    UrlEncode,
    JsonEscape,
    UnixTimestamp,
    IsoTimestamp,
    Uuid,
    JwtHeader,
    B64Enc,
    RandomString,
    HmacSha256,
    HmacSha384,
}

impl FilterKind {
    /// The name by which a template calls the filter.
    pub open spec fn called(self) -> Seq<char> {
        match self {
            FilterKind::B64UrlEnc => "b64url_enc"@,
            FilterKind::Sha256 => "sha256"@,
            FilterKind::UrlEncode => "url_encode"@,
            FilterKind::JsonEscape => "json_escape"@,
            FilterKind::UnixTimestamp => "unix_timestamp"@,
            FilterKind::IsoTimestamp => "iso_timestamp"@,
            FilterKind::Uuid => "uuid"@,
            FilterKind::JwtHeader => "jwt_header"@,
            FilterKind::B64Enc => "b64enc"@,
            FilterKind::RandomString => "random_string"@,
            FilterKind::HmacSha256 => "hmac_sha256"@,
            FilterKind::HmacSha384 => "hmac_sha384"@,
        }
    }

    /// The name by which a template calls the filter.
    pub fn name(self) -> (name: &'static str)
        ensures
            name@ == self.called(),
    {
        match self {
            FilterKind::B64UrlEnc => "b64url_enc",
            FilterKind::Sha256 => "sha256",
            FilterKind::UrlEncode => "url_encode",
            FilterKind::JsonEscape => "json_escape",
            FilterKind::UnixTimestamp => "unix_timestamp",
            FilterKind::IsoTimestamp => "iso_timestamp",
            FilterKind::Uuid => "uuid",
            FilterKind::JwtHeader => "jwt_header",
            FilterKind::B64Enc => "b64enc",
            FilterKind::RandomString => "random_string",
            FilterKind::HmacSha256 => "hmac_sha256",
            FilterKind::HmacSha384 => "hmac_sha384",
        }
    }
}

/// What a filter puts in its place in a template.
#[derive(Debug)]
pub enum FilterValue {
    Text(String),
    Number(i64),
}

impl FilterKind {
    /// Whether a value is what the filter makes of an input, with a key for those that take one.
    pub open spec fn makes(
        self,
        value: FilterValue,
        input: Seq<char>,
        key: Seq<char>,
    ) -> bool {
        let bytes = encode_utf8(input);
        match self {
            FilterKind::B64UrlEnc => value matches FilterValue::Text(text) && text@
                == base64_url_text(bytes),
            FilterKind::Sha256 => value matches FilterValue::Text(text) && text@ == hex_text(
                sha256_digest(bytes),
            ),
            FilterKind::UrlEncode => value matches FilterValue::Text(text) && text@ == percent_text(
                bytes,
            ),
            FilterKind::JsonEscape => value matches FilterValue::Text(text) && text@ == json_text(
                input,
            ),
            FilterKind::UnixTimestamp => value matches FilterValue::Number(seconds)
                && is_timestamp_of_the_present(seconds),
            FilterKind::IsoTimestamp => value matches FilterValue::Text(text)
                && is_iso_timestamp_of_the_present(text@),
            FilterKind::Uuid => value matches FilterValue::Text(text) && is_drawn_uuid(text)
                && is_uuid_v4(text@),
            FilterKind::JwtHeader => value matches FilterValue::Text(text) && text@
                == base64_url_text(encode_utf8(jwt_header_json(input))),
            FilterKind::B64Enc => value matches FilterValue::Text(text) && text@ == base64_text(
                bytes,
            ),
            FilterKind::RandomString => value matches FilterValue::Text(text) && {
                let n = (RandomStringFilter { len: None }).chosen_length(input);
                &&& is_drawn_text(text, n)
                &&& text@.len() == n
                &&& forall|i: int| 0 <= i < n ==> is_ascii_alphanumeric(#[trigger] text@[i])
            },
            FilterKind::HmacSha256 => value matches FilterValue::Text(text) && text@
                == base64_text(hmac_sha256_code(encode_utf8(key), bytes)),
            FilterKind::HmacSha384 => value matches FilterValue::Text(text) && text@
                == base64_text(hmac_sha384_code(encode_utf8(key), bytes)),
        }
    }

    /// What the filter makes of an input. The key is for the filters that take one; the others do
    /// without. A random string longer than memory can address cannot be asked for.
    pub fn evaluate(self, input: &str, key: &str) -> (value: FilterValue)
        requires
            self == FilterKind::RandomString ==> (RandomStringFilter { len: None }).chosen_length(
                input@,
            ) <= isize::MAX,
        ensures
            self.makes(value, input@, key@),
    {
        match self {
            FilterKind::B64UrlEnc => FilterValue::Text(B64UrlEncFilter.evaluate(input)),
            FilterKind::Sha256 => FilterValue::Text(Sha256Filter.evaluate(input)),
            FilterKind::UrlEncode => FilterValue::Text(UrlEncodeFilter.evaluate(input)),
            FilterKind::JsonEscape => FilterValue::Text(JsonEscapeFilter.evaluate(input)),
            FilterKind::UnixTimestamp => FilterValue::Number(UnixTimestampFilter.evaluate(input)),
            FilterKind::IsoTimestamp => FilterValue::Text(IsoTimestampFilter.evaluate(input)),
            FilterKind::Uuid => FilterValue::Text(UuidFilter.evaluate(input)),
            FilterKind::JwtHeader => FilterValue::Text(JwtHeaderFilter.evaluate(input)),
            FilterKind::B64Enc => FilterValue::Text(B64EncFilter.evaluate(input)),
            FilterKind::RandomString => {
                let filter: RandomStringFilter = RandomStringFilter { len: None };
                FilterValue::Text(filter.evaluate(input))
            },
            FilterKind::HmacSha256 => FilterValue::Text(HmacSha256.evaluate(input, key)),
            FilterKind::HmacSha384 => FilterValue::Text(HmacSha384.evaluate(input, key)),
        }
    }
}

/// Every filter, in the order of registration.
pub open spec fn every_filter() -> Seq<FilterKind> {
    seq![
        FilterKind::B64UrlEnc,
        FilterKind::Sha256,
        FilterKind::UrlEncode,
        FilterKind::JsonEscape,
        FilterKind::UnixTimestamp,
        FilterKind::IsoTimestamp,
        FilterKind::Uuid,
        FilterKind::JwtHeader,
        FilterKind::B64Enc,
        FilterKind::RandomString,
        FilterKind::HmacSha256,
        FilterKind::HmacSha384,
    ]
}

/// Registers every filter behind those that are registered already.
pub fn register_all(registered: Vec<FilterKind>) -> (all: Vec<FilterKind>)
    ensures
        all@ == registered@ + every_filter(),
{
    let mut all: Vec<FilterKind> = registered;
    all.push(FilterKind::B64UrlEnc);
    all.push(FilterKind::Sha256);
    all.push(FilterKind::UrlEncode);
    all.push(FilterKind::JsonEscape);
    all.push(FilterKind::UnixTimestamp);
    all.push(FilterKind::IsoTimestamp);
    all.push(FilterKind::Uuid);
    all.push(FilterKind::JwtHeader);
    all.push(FilterKind::B64Enc);
    all.push(FilterKind::RandomString);
    all.push(FilterKind::HmacSha256);
    all.push(FilterKind::HmacSha384);
    assert(all@ == registered@ + every_filter());
    all
}

/// Every filter is registered, and no two of them answer to the same name.
pub proof fn law_every_filter_has_its_own_name(a: FilterKind, b: FilterKind)
    ensures
        every_filter().contains(a),
        a.called() == b.called() ==> a == b,
{
    let all = every_filter();
    assert(all[0] == FilterKind::B64UrlEnc && all[1] == FilterKind::Sha256 && all[2]
        == FilterKind::UrlEncode && all[3] == FilterKind::JsonEscape && all[4]
        == FilterKind::UnixTimestamp && all[5] == FilterKind::IsoTimestamp && all[6]
        == FilterKind::Uuid && all[7] == FilterKind::JwtHeader && all[8] == FilterKind::B64Enc
        && all[9] == FilterKind::RandomString && all[10] == FilterKind::HmacSha256 && all[11]
        == FilterKind::HmacSha384);
    reveal_strlit("b64url_enc");
    reveal_strlit("sha256");
    reveal_strlit("url_encode");
    reveal_strlit("json_escape");
    reveal_strlit("unix_timestamp");
    reveal_strlit("iso_timestamp");
    reveal_strlit("uuid");
    reveal_strlit("jwt_header");
    reveal_strlit("b64enc");
    reveal_strlit("random_string");
    reveal_strlit("hmac_sha256");
    reveal_strlit("hmac_sha384");
    if a.called() == b.called() {
        assert(a.called().len() == b.called().len());
        assert(a.called()[0] == b.called()[0]);
        if a.called().len() == 11 {
            assert(a.called()[8] == b.called()[8]);
        }
    }
}

/// A random string without a length of its own takes the one that its input spells in decimal, with
/// or without a plus sign.
pub proof fn law_random_length_is_read_from_the_input(n: usize)
    ensures
        (RandomStringFilter { len: None }).chosen_length(digits_text(n as nat)) == n,
        (RandomStringFilter { len: None }).chosen_length(seq!['+'] + digits_text(n as nat)) == n,
{
    law_size_can_be_read_back(n);
}

/// A JWT header is the JSON object of the type and, as a JSON string, the algorithm; so different
/// algorithms never have the same header.
pub proof fn law_jwt_headers_hold_the_algorithm(a: Seq<char>, b: Seq<char>)
    ensures
        jwt_header_json(a) == "{\"typ\":\"JWT\",\"alg\":"@ + json_text(a) + "}"@,
        jwt_header_json(a) == jwt_header_json(b) ==> a == b,
{
    reveal_strlit("{\"typ\":\"JWT\",\"alg\":");
    reveal_strlit("}");
    reveal_strlit("typ");
    reveal_strlit("JWT");
    reveal_strlit("alg");
    lemma_plain_json("typ"@);
    lemma_plain_json("JWT"@);
    lemma_plain_json("alg"@);
    let opening = "{\"typ\":\"JWT\",\"alg\":"@;
    assert(json_text("typ"@) == seq!['"', 't', 'y', 'p', '"']);
    assert(json_text("JWT"@) == seq!['"', 'J', 'W', 'T', '"']);
    assert(json_text("alg"@) == seq!['"', 'a', 'l', 'g', '"']);
    assert(jwt_header_json(a) == opening + json_text(a) + "}"@);
    assert(jwt_header_json(b) == opening + json_text(b) + "}"@);
    if jwt_header_json(a) == jwt_header_json(b) {
        let (x, y) = (jwt_header_json(a), jwt_header_json(b));
        assert(json_text(a) == x.subrange(opening.len() as int, x.len() - 1));
        assert(json_text(b) == y.subrange(opening.len() as int, y.len() - 1));
        law_json_text_can_be_read_back(a, b);
    }
}

proof fn lemma_plain_json(text: Seq<char>)
    requires
        text.len() == 3,
        forall|i: int| 0 <= i < 3 ==> is_ascii_alphanumeric(#[trigger] text[i]),
    ensures
        json_text(text) == seq!['"', text[0], text[1], text[2], '"'],
{
    let (one, two, three) = (text.drop_first(), text.drop_first().drop_first(), text.drop_first().drop_first().drop_first());
    assert(one[0] == text[1] && two[0] == text[2]);
    assert(json_inside(three) == Seq::<char>::empty());
    assert(json_inside(two) == seq![text[2]]);
    assert(json_inside(one) == seq![text[1], text[2]]);
    assert(json_inside(text) == seq![text[0], text[1], text[2]]);
    assert(json_text(text) == seq!['"', text[0], text[1], text[2], '"']);
}

/// The filters that a template calls by name, each by what it makes of its input: nothing of the
/// input is left out, and only the codes look at the key.
pub proof fn law_every_kind_makes_its_own(value: FilterValue, input: Seq<char>, key: Seq<char>)
    ensures
        FilterKind::B64Enc.makes(value, input, key) ==> value is Text && value->Text_0@
            == base64_text(encode_utf8(input)),
        FilterKind::B64UrlEnc.makes(value, input, key) ==> value is Text && value->Text_0@
            == base64_url_text(encode_utf8(input)),
        FilterKind::Sha256.makes(value, input, key) ==> value is Text && value->Text_0@ == hex_text(
            sha256_digest(encode_utf8(input)),
        ),
        FilterKind::UrlEncode.makes(value, input, key) ==> value is Text && value->Text_0@
            == percent_text(encode_utf8(input)),
        FilterKind::JsonEscape.makes(value, input, key) ==> value is Text && value->Text_0@
            == json_text(input),
        FilterKind::JwtHeader.makes(value, input, key) ==> value is Text && value->Text_0@
            == base64_url_text(
            encode_utf8("{\"typ\":\"JWT\",\"alg\":"@ + json_text(input) + "}"@),
        ),
        FilterKind::HmacSha256.makes(value, input, key) ==> value is Text && value->Text_0@
            == base64_text(hmac_sha256_code(encode_utf8(key), encode_utf8(input))),
        FilterKind::HmacSha384.makes(value, input, key) ==> value is Text && value->Text_0@
            == base64_text(hmac_sha384_code(encode_utf8(key), encode_utf8(input))),
        FilterKind::Uuid.makes(value, input, key) ==> value is Text && is_drawn_uuid(value->Text_0),
        FilterKind::RandomString.makes(value, input, key) ==> value is Text && is_drawn_text(
            value->Text_0,
            (RandomStringFilter { len: None }).chosen_length(input),
        ),
        FilterKind::UnixTimestamp.makes(value, input, key) ==> value is Number && exists|
            moment: time::OffsetDateTime,
        | #[trigger]
            call_ensures(time::OffsetDateTime::now_utc, (), moment) && call_ensures(
                time::OffsetDateTime::unix_timestamp,
                (moment,),
                value->Number_0,
            ),
        FilterKind::IsoTimestamp.makes(value, input, key) ==> value is Text && exists|
            moment: time::OffsetDateTime,
            nanos: i128,
        | #[trigger]
            call_ensures(time::OffsetDateTime::unix_timestamp_nanos, (moment,), nanos)
                && call_ensures(time::OffsetDateTime::now_utc, (), moment) && (match iso8601_text(
                nanos as int,
            ) {
                Some(text) => value->Text_0@ == text,
                None => value->Text_0@ == "1970-01-01T00:00:00Z"@,
            }),
{
    law_jwt_headers_hold_the_algorithm(input, input);
}

/// A random string has the length of its own that it was given, whatever the input; without one, the
/// length that the input spells; and where the input spells none, that of thirty-two.
pub proof fn law_random_strings_prefer_their_own_length(
    filter: RandomStringFilter,
    input: Seq<char>,
)
    ensures
        filter.len is Some ==> filter.chosen_length(input) == filter.len->0,
        filter.len is None && size_in_text(input) is Some ==> filter.chosen_length(input)
            == size_in_text(input)->0,
        filter.len is None && size_in_text(input) is None ==> filter.chosen_length(input) == 32,
{
}

/// A moment that could be formatted is put down as it was formatted, and the epoch stands in for one
/// that could not.
pub proof fn law_formatted_moments_are_kept(text: Seq<char>)
    ensures
        timestamp_or_epoch(Some(text)) == text,
        timestamp_or_epoch(None) == "1970-01-01T00:00:00Z"@,
{
}

/// Every filter is registered just once.
pub proof fn law_no_filter_is_registered_twice()
    ensures
        every_filter().len() == 12,
        every_filter().no_duplicates(),
{
}

/// A drawn text is one that the generator gave for its length.
proof fn law_drawn_texts_come_from_the_generator(text: String, n: usize)
    requires
        is_drawn_text(text, n),
    ensures
        call_ensures(random_alphanumeric, (n,), text),
{
}

/// A drawn UUID is one that the generator gave.
proof fn law_drawn_uuids_come_from_the_generator(text: String)
    requires
        is_drawn_uuid(text),
    ensures
        call_ensures(random_uuid, (), text),
{
}

} // verus!
