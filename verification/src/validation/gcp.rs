//! Service-account credentials of Google Cloud: what they must hold, the token request that puts
//! them to the test, and the verdict.

use vstd::prelude::*;
use vstd::utf8::{decode_utf8, encode_utf8, encode_utf8_decode_utf8, valid_utf8};

use crate::digest::{sha1, sha1_digest};
use crate::encoding::{
    base64_url_encode, base64_url_text, law_base64_url_can_be_read_back, law_base64_url_is_url_safe,
};
use crate::text::{
    decimal_text, hex_text, i64_to_text, is_ascii_alphanumeric, is_lower_hex, law_hex_text_is_plain,
    law_numbers_are_plain, law_numbers_can_be_told_apart, law_occurrence_leaves_what_is_around,
    occurs_in, texts, to_hex,
};

verus! {

/// How many validations may run at a time.
pub const MAX_CONCURRENT_VALIDATIONS: usize = 500;

/// How many seconds a token request stays good.
pub const TOKEN_LIFETIME_SECS: i64 = 3600;

/// Later than every moment that the `chrono` crate can hold, in seconds after the Unix epoch.
pub const BEYOND_ALL_MOMENTS: i64 = 9_000_000_000_000;

/// Why a validation fails.
#[derive(Debug)]
pub enum GcpError {
    /// The credentials are no JSON; the text is the parser's own.
    Json(String),
    /// The private key is no PEM block; the text is the parser's own.
    Pem(String),
    /// The private key is no RSA key that can sign.
    InvalidKey,
    /// The token request could not be signed.
    SignFailed,
    /// Google Cloud refused the token request.
    Rejected,
}

/// `GcpError` by what its texts hold.
pub enum GcpErrorModel {
    Json(Seq<char>),
    Pem(Seq<char>),
    InvalidKey,
    SignFailed,
    Rejected,
}

impl View for GcpError {
    type V = GcpErrorModel;

    open spec fn view(&self) -> GcpErrorModel {
        match self {
            GcpError::Json(e) => GcpErrorModel::Json(e@),
            GcpError::Pem(e) => GcpErrorModel::Pem(e@),
            GcpError::InvalidKey => GcpErrorModel::InvalidKey,
            GcpError::SignFailed => GcpErrorModel::SignFailed,
            GcpError::Rejected => GcpErrorModel::Rejected,
        }
    }
}

/// What the message for an error says.
pub open spec fn gcp_error_text(e: GcpErrorModel) -> Seq<char> {
    match e {
        GcpErrorModel::Json(cause) => cause,
        GcpErrorModel::Pem(cause) => "Failed to parse PEM: "@ + cause,
        GcpErrorModel::InvalidKey => "Invalid RSA private key"@,
        GcpErrorModel::SignFailed => "Failed to sign JWT"@,
        GcpErrorModel::Rejected => "Failed to validate GCP credentials"@,
    }
}

impl GcpError {
    /// The message for people.
    pub fn message(&self) -> (text: String)
        ensures
            text@ == gcp_error_text(self@),
    {
        match self {
            GcpError::Json(cause) => cause.clone(),
            GcpError::Pem(cause) => {
                let mut text: String = "Failed to parse PEM: ".to_owned();
                text.append(cause.as_str());
                text
            },
            GcpError::InvalidKey => "Invalid RSA private key".to_owned(),
            GcpError::SignFailed => "Failed to sign JWT".to_owned(),
            GcpError::Rejected => "Failed to validate GCP credentials".to_owned(),
        }
    }
}

/// Generate a standardized cache key for GCP validation attempts.
pub fn generate_gcp_cache_key(gcp_json: &str) -> (key: String)
    ensures
        key@ == "GCP:"@ + hex_text(sha1_digest(encode_utf8(gcp_json@))),
        key@.len() == 44,
{
    let digest: Vec<u8> = sha1(gcp_json.as_bytes());
    let mut key: String = "GCP:".to_owned();
    key.append(to_hex(digest.as_slice()).as_str());
    proof {
        reveal_strlit("GCP:");
    }
    key
}

/// The text that `String::from_utf8_lossy` makes of bytes.
pub uninterp spec fn utf8_lossy(bytes: Seq<u8>) -> Seq<char>;

/// `String::from_utf8_lossy`: the text that the bytes encode, with replacement characters where
/// they encode none.
#[verifier::external_body]
fn lossy_text(bytes: &[u8]) -> (text: String)
    ensures
        text@ == utf8_lossy(bytes@),
        valid_utf8(bytes@) ==> text@ == decode_utf8(bytes@),
{
    String::from_utf8_lossy(bytes).into_owned()
}

/// What `serde_json` finds under keys at the top of a JSON text: for each key its string, or
/// nothing where there is no string under it; or the text of the error with which the parser
/// refuses the JSON text.
pub uninterp spec fn json_fields(json: Seq<char>, keys: Seq<Seq<char>>) -> Result<
    Seq<Option<Seq<char>>>,
    Seq<char>,
>;

/// `serde_json::from_str` to a `serde_json::Value`, then indexing by each key and
/// `Value::as_str`: one optional string for each key, or the display text of the parse error.
#[verifier::external_body]
fn json_string_fields(json: &str, keys: &[String]) -> (fields: Result<Vec<Option<String>>, String>)
    ensures
        match fields {
            Ok(found) => {
                &&& json_fields(json@, texts(keys@)) == Ok::<
                    Seq<Option<Seq<char>>>,
                    Seq<char>,
                >(found.deep_view())
                &&& found@.len() == keys@.len()
            },
            Err(e) => json_fields(json@, texts(keys@)) == Err::<
                Seq<Option<Seq<char>>>,
                Seq<char>,
            >(e@),
        },
{
    match serde_json::from_str::<serde_json::Value>(json) {
        Ok(value) => Ok(keys.iter().map(|k| value[k.as_str()].as_str().map(String::from)).collect()),
        Err(e) => Err(e.to_string()),
    }
}

/// The bytes inside the PEM block that `pem::parse` finds in a text, or the text of the error
/// with which it refuses it.
pub uninterp spec fn pem_block(text: Seq<char>) -> Result<Seq<u8>, Seq<char>>;

/// `pem::parse` and `Pem::contents`: the bytes inside the block, or the display text of the
/// error.
#[verifier::external_body]
fn pem_contents(text: &str) -> (contents: Result<Vec<u8>, String>)
    ensures
        match contents {
            Ok(bytes) => pem_block(text@) == Ok::<Seq<u8>, Seq<char>>(bytes@),
            Err(e) => pem_block(text@) == Err::<Seq<u8>, Seq<char>>(e@),
        },
{
    match pem::parse(text) {
        Ok(block) => Ok(block.into_contents()),
        Err(e) => Err(e.to_string()),
    }
}

/// Why a message cannot be signed.
#[derive(PartialEq, Eq, Structural, Clone, Copy, Debug)]
pub enum SignFailure {
    /// The key is no RSA key in PKCS#8 form that can sign.
    InvalidKey,
    /// The signature could not be computed.
    SignFailed,
}

/// The RSA PKCS#1 v1.5 signature with SHA-256 that `ring` computes for a message under a key in
/// PKCS#8 form, or which of its two steps fails.
pub uninterp spec fn rs256_signature(key: Seq<u8>, message: Seq<u8>) -> Result<
    Seq<u8>,
    SignFailure,
>;

/// `ring::signature::RsaKeyPair::from_pkcs8`, then `RsaKeyPair::sign` with `RSA_PKCS1_SHA256`
/// into as many bytes as the modulus has. The padding takes nothing from the random source, so
/// the outcome rests on the key and the message alone.
#[verifier::external_body]
fn rs256_sign(key: &[u8], message: &[u8]) -> (signature: Result<Vec<u8>, SignFailure>)
    ensures
        match signature {
            Ok(bytes) => rs256_signature(key@, message@) == Ok::<Seq<u8>, SignFailure>(bytes@),
            Err(e) => rs256_signature(key@, message@) == Err::<Seq<u8>, SignFailure>(e),
        },
{
    let pair = match ring::signature::RsaKeyPair::from_pkcs8(key) {
        Ok(pair) => pair,
        Err(_) => return Err(SignFailure::InvalidKey),
    };
    let mut signature = vec![0; pair.public().modulus_len()];
    let rng = ring::rand::SystemRandom::new();
    match pair.sign(&ring::signature::RSA_PKCS1_SHA256, &rng, message, &mut signature) {
        Ok(()) => Ok(signature),
        Err(_) => Err(SignFailure::SignFailed),
    }
}

/// `chrono::Utc::now` and `timestamp`: the seconds since the Unix epoch, by the machine's clock.
/// All that is known of them is that they belong to a moment after the epoch. The call panics where
/// the clock stands before the epoch, that is before 1970, or beyond the dates that the crate can hold.
#[verifier::external_body]
fn seconds_since_epoch() -> (seconds: i64)
    ensures
        0 <= seconds < BEYOND_ALL_MOMENTS,
{
    chrono::Utc::now().timestamp()
}

/// Whether a number is one that the clock gives as the present.
pub closed spec fn clock_gave(seconds: i64) -> bool {
    call_ensures(seconds_since_epoch, (), seconds)
}

/// The fields of service-account credentials that a validation reads; a field that is not there
/// is empty.
#[derive(Debug)]
pub struct ServiceAccount {
    pub project_id: String,
    pub client_email: String,
    pub private_key: String,
    pub token_uri: String,
}

/// `ServiceAccount` by what its texts hold.
pub struct AccountModel {
    pub project_id: Seq<char>,
    pub client_email: Seq<char>,
    pub private_key: Seq<char>,
    pub token_uri: Seq<char>,
}

impl View for ServiceAccount {
    type V = AccountModel;

    open spec fn view(&self) -> AccountModel {
        AccountModel {
            project_id: self.project_id@,
            client_email: self.client_email@,
            private_key: self.private_key@,
            token_uri: self.token_uri@,
        }
    }
}

impl AccountModel {
    /// Whether all the fields that a validation needs are there.
    pub open spec fn is_complete(self) -> bool {
        &&& self.project_id.len() > 0
        &&& self.client_email.len() > 0
        &&& self.private_key.len() > 0
        &&& self.token_uri.len() > 0
    }
}

/// The keys of the fields that a validation reads.
pub open spec fn account_keys() -> Seq<Seq<char>> {
    seq!["project_id"@, "client_email"@, "private_key"@, "token_uri"@]
}

/// A field, or the empty text where there is none.
pub open spec fn or_empty(field: Option<Seq<char>>) -> Seq<char> {
    match field {
        Some(text) => text,
        None => Seq::empty(),
    }
}

/// The account whose fields were found under `account_keys`.
pub open spec fn account_of(fields: Seq<Option<Seq<char>>>) -> AccountModel {
    AccountModel {
        project_id: or_empty(fields[0]),
        client_email: or_empty(fields[1]),
        private_key: or_empty(fields[2]),
        token_uri: or_empty(fields[3]),
    }
}

fn field_text(fields: &Vec<Option<String>>, at: usize) -> (text: String)
    requires
        at < fields@.len(),
    ensures
        text@ == or_empty(fields.deep_view()[at as int]),
{
    match &fields[at] {
        Some(text) => text.clone(),
        None => String::new(),
    }
}

impl ServiceAccount {
    /// The account for the fields that were found under its four keys.
    pub fn from_fields(fields: &Vec<Option<String>>) -> (account: ServiceAccount)
        requires
            fields@.len() == 4,
        ensures
            account@ == account_of(fields.deep_view()),
    {
        ServiceAccount {
            project_id: field_text(fields, 0),
            client_email: field_text(fields, 1),
            private_key: field_text(fields, 2),
            token_uri: field_text(fields, 3),
        }
    }

    /// Reads the account out of a JSON text.
    pub fn from_json(json: &str) -> (account: Result<ServiceAccount, GcpError>)
        ensures
            match json_fields(json@, account_keys()) {
                Ok(fields) => account is Ok && account->Ok_0@ == account_of(fields),
                Err(e) => account is Err && account->Err_0@ == GcpErrorModel::Json(e),
            },
    {
        let mut keys: Vec<String> = Vec::new();
        keys.push("project_id".to_owned());
        keys.push("client_email".to_owned());
        keys.push("private_key".to_owned());
        keys.push("token_uri".to_owned());
        assert(texts(keys@) == account_keys());
        match json_string_fields(json, keys.as_slice()) {
            Ok(fields) => Ok(ServiceAccount::from_fields(&fields)),
            Err(e) => Err(GcpError::Json(e)),
        }
    }

    /// Tells whether all the fields that a validation needs are there.
    pub fn is_complete(&self) -> (complete: bool)
        ensures
            complete == self@.is_complete(),
    {
        !(self.project_id.as_str().is_empty() || self.client_email.as_str().is_empty()
            || self.private_key.as_str().is_empty() || self.token_uri.as_str().is_empty())
    }
}

/// The claims of a token request: who asks, for what, of whom, until when and since when.
pub open spec fn claims_text(client_email: Seq<char>, token_uri: Seq<char>, exp: int, iat: int) -> Seq<
    char,
> {
    "{\n                \"iss\": \""@ + client_email
        + "\",\n                \"scope\": \"https://www.googleapis.com/auth/cloud-platform\",\n                \"aud\": \""@
        + token_uri + "\",\n                \"exp\": "@ + decimal_text(exp)
        + ",\n                \"iat\": "@ + decimal_text(iat) + "\n            }"@
}

/// The header of a token request, in URL-safe Base64.
pub open spec fn header_part() -> Seq<char> {
    base64_url_text(encode_utf8("{\"alg\":\"RS256\",\"typ\":\"JWT\"}"@))
}

/// The claims of a token request, in URL-safe Base64.
pub open spec fn claims_part(client_email: Seq<char>, token_uri: Seq<char>, iat: int) -> Seq<char> {
    base64_url_text(
        encode_utf8(claims_text(client_email, token_uri, iat + TOKEN_LIFETIME_SECS, iat)),
    )
}

/// What a token request signs: its header and its claims, with a dot between them.
pub open spec fn signed_part(client_email: Seq<char>, token_uri: Seq<char>, iat: int) -> Seq<char> {
    header_part() + seq!['.'] + claims_part(client_email, token_uri, iat)
}

/// The token request signed under a key at a moment, or why there is none.
pub open spec fn token_at(
    client_email: Seq<char>,
    private_key: Seq<char>,
    token_uri: Seq<char>,
    iat: int,
) -> Result<Seq<char>, GcpErrorModel> {
    let signed = signed_part(client_email, token_uri, iat);
    match pem_block(private_key) {
        Err(e) => Err(GcpErrorModel::Pem(e)),
        Ok(key) => token_of(signed, rs256_signature(key, encode_utf8(signed))),
    }
}

/// What is signed and the signature make the token request.
pub open spec fn token_of(signed: Seq<char>, signature: Result<Seq<u8>, SignFailure>) -> Result<
    Seq<char>,
    GcpErrorModel,
> {
    match signature {
        Err(SignFailure::InvalidKey) => Err(GcpErrorModel::InvalidKey),
        Err(SignFailure::SignFailed) => Err(GcpErrorModel::SignFailed),
        Ok(bytes) => Ok(signed + seq!['.'] + base64_url_text(bytes)),
    }
}

/// A result by what its text or its error holds.
pub open spec fn token_view(token: Result<String, GcpError>) -> Result<Seq<char>, GcpErrorModel> {
    match token {
        Ok(text) => Ok(text@),
        Err(e) => Err(e@),
    }
}

/// Renders the claims of a token request.
pub fn render_claims(client_email: &str, token_uri: &str, exp: i64, iat: i64) -> (claims: String)
    ensures
        claims@ == claims_text(client_email@, token_uri@, exp as int, iat as int),
{
    let mut claims: String = "{\n                \"iss\": \"".to_owned();
    claims.append(client_email);
    claims.append(
        "\",\n                \"scope\": \"https://www.googleapis.com/auth/cloud-platform\",\n                \"aud\": \"",
    );
    claims.append(token_uri);
    claims.append("\",\n                \"exp\": ");
    claims.append(i64_to_text(exp).as_str());
    claims.append(",\n                \"iat\": ");
    claims.append(i64_to_text(iat).as_str());
    claims.append("\n            }");
    claims
}

/// Puts a token request together from what is signed and the signature.
pub fn assemble_token(signed: &str, signature: Result<Vec<u8>, SignFailure>) -> (token: Result<
    String,
    GcpError,
>)
    ensures
        token_view(token) == token_of(
            signed@,
            match signature {
                Ok(bytes) => Ok(bytes@),
                Err(e) => Err(e),
            },
        ),
{
    match signature {
        Err(SignFailure::InvalidKey) => Err(GcpError::InvalidKey),
        Err(SignFailure::SignFailed) => Err(GcpError::SignFailed),
        Ok(bytes) => {
            let mut token: String = signed.to_owned();
            token.push('.');
            token.append(base64_url_encode(bytes.as_slice()).as_str());
            assert(token@ == signed@ + seq!['.'] + base64_url_text(bytes@));
            Ok(token)
        },
    }
}

/// Signs the token request for a moment, in seconds after the Unix epoch.
pub fn create_jwt_at(
    client_email: &str,
    private_key_pem: &str,
    token_uri: &str,
    iat: i64,
) -> (token: Result<String, GcpError>)
    requires
        iat <= i64::MAX - TOKEN_LIFETIME_SECS,
    ensures
        token_view(token) == token_at(client_email@, private_key_pem@, token_uri@, iat as int),
{
    let exp: i64 = iat + TOKEN_LIFETIME_SECS;
    let claims: String = render_claims(client_email, token_uri, exp, iat);
    let mut signed: String = base64_url_encode("{\"alg\":\"RS256\",\"typ\":\"JWT\"}".as_bytes());
    signed.push('.');
    signed.append(base64_url_encode(claims.as_str().as_bytes()).as_str());
    assert(signed@ == signed_part(client_email@, token_uri@, iat as int));
    match pem_contents(private_key_pem) {
        Err(e) => Err(GcpError::Pem(e)),
        Ok(key) => assemble_token(
            signed.as_str(),
            rs256_sign(key.as_slice(), signed.as_str().as_bytes()),
        ),
    }
}

/// The request that puts credentials to the test.
#[derive(Debug)]
pub struct TokenRequest {
    /// Where to send it.
    pub token_uri: String,
    /// The fields of the form to send.
    pub form: Vec<(String, String)>,
    /// The account that it is about.
    pub account: ServiceAccount,
}

/// What a validation comes to before anything has been sent.
#[derive(Debug)]
pub enum GcpStep {
    /// It is settled whether the credentials are live, and what is known of them.
    Verdict(bool, Vec<String>),
    /// The credentials must be put to the test.
    Ask(TokenRequest),
}

/// The form that presents a token request.
pub open spec fn token_form(token: Seq<char>) -> Seq<(Seq<char>, Seq<char>)> {
    seq![
        ("grant_type"@, "urn:ietf:params:oauth:grant-type:jwt-bearer"@),
        ("assertion"@, token),
    ]
}

/// Whether a step settles that credentials are not live, with nothing known of them.
pub open spec fn is_not_live(step: Result<GcpStep, GcpError>) -> bool {
    step matches Ok(GcpStep::Verdict(live, metadata)) && !live && metadata@.len() == 0
}

/// Whether a step is the right one for an account, with the token request that was made for it
/// where one was called for.
pub open spec fn is_step_for(
    step: Result<GcpStep, GcpError>,
    account: AccountModel,
    token: Result<Seq<char>, GcpErrorModel>,
) -> bool {
    if !account.is_complete() {
        is_not_live(step)
    } else {
        match token {
            Err(e) => step is Err && step->Err_0@ == e,
            Ok(text) => {
                &&& step is Ok
                &&& step->Ok_0 is Ask
                &&& step->Ok_0->Ask_0.token_uri@ == account.token_uri
                &&& step->Ok_0->Ask_0.form.deep_view() == token_form(text)
                &&& step->Ok_0->Ask_0.account@ == account
            },
        }
    }
}

/// What is known of credentials that are live.
pub open spec fn account_metadata(account: AccountModel) -> Seq<Seq<char>> {
    seq![
        "GCP Credential Type == service_account"@,
        "GCP Project ID == "@ + account.project_id,
        "GCP Client Email == "@ + account.client_email,
    ]
}

/// Validates service-account credentials, a limited number at a time.
#[derive(Debug)]
pub struct GcpValidator {
    permits: usize,
}

impl GcpValidator {
    /// How many validations may run at a time.
    pub closed spec fn limit(&self) -> usize {
        self.permits
    }

    /// A validator with the usual limit.
    pub fn new() -> (validator: Result<GcpValidator, GcpError>)
        ensures
            validator is Ok,
            validator->Ok_0.limit() == MAX_CONCURRENT_VALIDATIONS,
    {
        Ok(GcpValidator { permits: MAX_CONCURRENT_VALIDATIONS })
    }

    /// How many validations may run at a time.
    pub fn permits(&self) -> (permits: usize)
        ensures
            permits == self.limit(),
    {
        self.permits
    }

    /// Signs a token request at the present moment, which lies after the epoch.
    pub fn create_jwt(&self, client_email: &str, private_key_pem: &str, token_uri: &str) -> (token:
        Result<String, GcpError>)
        ensures
            exists|iat: i64| #[trigger]
                clock_gave(iat) && 0 <= iat < BEYOND_ALL_MOMENTS && token_view(token) == token_at(
                    client_email@,
                    private_key_pem@,
                    token_uri@,
                    iat as int,
                ),
    {
        let iat: i64 = seconds_since_epoch();
        assert(clock_gave(iat));
        create_jwt_at(client_email, private_key_pem, token_uri, iat)
    }

    /// The first step for an account at a moment, in seconds after the Unix epoch.
    pub fn step_at(account: ServiceAccount, iat: i64) -> (step: Result<GcpStep, GcpError>)
        requires
            iat <= i64::MAX - TOKEN_LIFETIME_SECS,
        ensures
            is_step_for(
                step,
                account@,
                token_at(
                    account@.client_email,
                    account@.private_key,
                    account@.token_uri,
                    iat as int,
                ),
            ),
    {
        if !account.is_complete() {
            return Ok(GcpStep::Verdict(false, Vec::new()));
        }
        match create_jwt_at(
            account.client_email.as_str(),
            account.private_key.as_str(),
            account.token_uri.as_str(),
            iat,
        ) {
            Err(e) => Err(e),
            Ok(token) => {
                let mut form: Vec<(String, String)> = Vec::new();
                form.push(
                    (
                        "grant_type".to_owned(),
                        "urn:ietf:params:oauth:grant-type:jwt-bearer".to_owned(),
                    ),
                );
                form.push(("assertion".to_owned(), token));
                assert(form.deep_view() == token_form(token@));
                Ok(
                    GcpStep::Ask(
                        TokenRequest { token_uri: account.token_uri.clone(), form, account },
                    ),
                )
            },
        }
    }

    /// The first step of a validation: credentials that lack a field are not live, whatever the
    /// time, and all others must be put to the test by the token request that the step holds.
    pub fn validate_gcp_credentials(&self, gcp_json: &[u8]) -> (step: Result<GcpStep, GcpError>)
        ensures
            match json_fields(utf8_lossy(gcp_json@), account_keys()) {
                Err(e) => step is Err && step->Err_0@ == GcpErrorModel::Json(e),
                Ok(fields) => {
                    let account = account_of(fields);
                    if !account.is_complete() {
                        is_not_live(step)
                    } else {
                        exists|iat: i64| #[trigger]
                            clock_gave(iat) && 0 <= iat < BEYOND_ALL_MOMENTS && is_step_for(
                                step,
                                account,
                                token_at(
                                    account.client_email,
                                    account.private_key,
                                    account.token_uri,
                                    iat as int,
                                ),
                            )
                    }
                },
            },
    {
        let text: String = lossy_text(gcp_json);
        match ServiceAccount::from_json(text.as_str()) {
            Err(e) => Err(e),
            Ok(account) => {
                if !account.is_complete() {
                    return Ok(GcpStep::Verdict(false, Vec::new()));
                }
                let iat: i64 = seconds_since_epoch();
                assert(clock_gave(iat));
                GcpValidator::step_at(account, iat)
            },
        }
    }

    /// The verdict once the reply to a token request is there: `accepted` tells whether its
    /// status is one of success.
    pub fn verdict(&self, account: &ServiceAccount, accepted: bool) -> (verdict: Result<
        (bool, Vec<String>),
        GcpError,
    >)
        ensures
            if accepted {
                &&& verdict is Ok
                &&& verdict->Ok_0.0
                &&& verdict->Ok_0.1.deep_view() == account_metadata(account@)
            } else {
                verdict is Err && verdict->Err_0@ == GcpErrorModel::Rejected
            },
    {
        if accepted {
            let mut project: String = "GCP Project ID == ".to_owned();
            project.append(account.project_id.as_str());
            let mut email: String = "GCP Client Email == ".to_owned();
            email.append(account.client_email.as_str());
            let mut metadata: Vec<String> = Vec::new();
            metadata.push("GCP Credential Type == service_account".to_owned());
            metadata.push(project);
            metadata.push(email);
            assert(metadata.deep_view() == account_metadata(account@));
            Ok((true, metadata))
        } else {
            Err(GcpError::Rejected)
        }
    }
}

/// Whether a text is one part of a token request: URL-safe, and so without a dot.
pub open spec fn is_token_part(part: Seq<char>) -> bool {
    forall|i: int|
        0 <= i < part.len() ==> {
            let c = #[trigger] part[i];
            is_ascii_alphanumeric(c) || c == '-' || c == '_'
        }
}

/// A token request has three parts with dots between them, and no other dot: the header, the
/// claims and the signature of the first two under the key.
pub proof fn law_token_has_three_parts(
    client_email: Seq<char>,
    private_key: Seq<char>,
    token_uri: Seq<char>,
    iat: int,
)
    requires
        token_at(client_email, private_key, token_uri, iat) is Ok,
    ensures
        ({
            let claims = claims_part(client_email, token_uri, iat);
            let signed = header_part() + seq!['.'] + claims;
            let signature = rs256_signature(pem_block(private_key)->Ok_0, encode_utf8(signed));
            let last = base64_url_text(signature->Ok_0);
            &&& pem_block(private_key) is Ok
            &&& signature is Ok
            &&& token_at(client_email, private_key, token_uri, iat) == Ok::<
                Seq<char>,
                GcpErrorModel,
            >(header_part() + seq!['.'] + claims + seq!['.'] + last)
            &&& is_token_part(header_part())
            &&& is_token_part(claims)
            &&& is_token_part(last)
        }),
{
    let claims = claims_text(client_email, token_uri, iat + TOKEN_LIFETIME_SECS, iat);
    let signed = signed_part(client_email, token_uri, iat);
    let signature = rs256_signature(pem_block(private_key)->Ok_0, encode_utf8(signed));
    law_base64_url_is_url_safe(encode_utf8("{\"alg\":\"RS256\",\"typ\":\"JWT\"}"@));
    law_base64_url_is_url_safe(encode_utf8(claims));
    law_base64_url_is_url_safe(signature->Ok_0);
}

/// No first step calls credentials live: that takes a reply that accepts the token request.
pub proof fn law_nothing_is_live_untested(
    step: Result<GcpStep, GcpError>,
    account: AccountModel,
    token: Result<Seq<char>, GcpErrorModel>,
)
    requires
        is_step_for(step, account, token),
    ensures
        step matches Ok(GcpStep::Verdict(live, _)) ==> !live,
{
}

/// A token request is sent only for credentials in which no field is missing, and to the address
/// that they themselves give.
pub proof fn law_only_complete_credentials_are_tested(
    step: Result<GcpStep, GcpError>,
    account: AccountModel,
    token: Result<Seq<char>, GcpErrorModel>,
)
    requires
        is_step_for(step, account, token),
    ensures
        step matches Ok(GcpStep::Ask(request)) ==> account.is_complete() && token is Ok
            && request.token_uri@ == account.token_uri,
{
}

/// Behind its prefix a cache key holds lower-case hexadecimal digits alone.
pub proof fn law_cache_key_is_hexadecimal(gcp_json: Seq<char>, key: Seq<char>)
    requires
        key == "GCP:"@ + hex_text(sha1_digest(encode_utf8(gcp_json))),
    ensures
        forall|i: int| 4 <= i < key.len() ==> is_lower_hex(#[trigger] key[i]),
{
    reveal_strlit("GCP:");
    let digits = hex_text(sha1_digest(encode_utf8(gcp_json)));
    assert forall|i: int| 4 <= i < key.len() implies is_lower_hex(#[trigger] key[i]) by {
        assert(key[i] == digits[i - 4]);
        law_hex_text_is_plain(sha1_digest(encode_utf8(gcp_json)));
    }
}

/// Texts that are cut at the first place where a character stands are cut alike.
proof fn lemma_cut(a: Seq<char>, x: Seq<char>, b: Seq<char>, y: Seq<char>, mark: char)
    requires
        a + (seq![mark] + x) == b + (seq![mark] + y),
        !a.contains(mark),
        !b.contains(mark),
    ensures
        a == b,
        x == y,
{
    let (s, t) = (a + (seq![mark] + x), b + (seq![mark] + y));
    assert(s[a.len() as int] == mark);
    assert(t[b.len() as int] == mark);
    if a.len() < b.len() {
        assert(t[a.len() as int] == b[a.len() as int]);
        assert(b.contains(mark));
    }
    if b.len() < a.len() {
        assert(s[b.len() as int] == a[b.len() as int]);
        assert(a.contains(mark));
    }
    assert(a == s.take(a.len() as int));
    assert(b == t.take(b.len() as int));
    assert(x == s.skip(a.len() as int + 1));
    assert(y == t.skip(b.len() as int + 1));
}

/// The claims behind the opening, from the address on, in the order in which they are read.
spec fn claims_from_the_address(
    client_email: Seq<char>,
    token_uri: Seq<char>,
    exp: int,
    iat: int,
) -> Seq<char> {
    client_email + ("\",\n                \"scope\": \"https://www.googleapis.com/auth/cloud-platform\",\n                \"aud\": \""@ + claims_from_the_uri(token_uri, exp, iat))
}

spec fn claims_from_the_uri(token_uri: Seq<char>, exp: int, iat: int) -> Seq<char> {
    token_uri + ("\",\n                \"exp\": "@ + claims_from_the_end(exp, iat))
}

spec fn claims_from_the_end(exp: int, iat: int) -> Seq<char> {
    decimal_text(exp) + (",\n                \"iat\": "@ + (decimal_text(iat) + "\n            }"@))
}

proof fn lemma_claims_in_order(
    client_email: Seq<char>,
    token_uri: Seq<char>,
    exp: int,
    iat: int,
)
    ensures
        claims_text(client_email, token_uri, exp, iat) == "{\n                \"iss\": \""@
            + claims_from_the_address(client_email, token_uri, exp, iat),
{
    let a = "{\n                \"iss\": \""@;
    let b = "\",\n                \"scope\": \"https://www.googleapis.com/auth/cloud-platform\",\n                \"aud\": \""@;
    let c = "\",\n                \"exp\": "@;
    let d = ",\n                \"iat\": "@;
    let e = "\n            }"@;
    let (x, i) = (decimal_text(exp), decimal_text(iat));
    let end = claims_from_the_end(exp, iat);
    let uri = claims_from_the_uri(token_uri, exp, iat);
    assert(end == x + d + i + e);
    assert(uri == token_uri + c + x + d + i + e);
    assert(a + claims_from_the_address(client_email, token_uri, exp, iat) == a + client_email + b
        + uri);
    assert(a + client_email + b + uri == a + client_email + b + token_uri + c + x + d + i + e);
}

/// A value between an opening and a closing occurs where the opening ends one text and the closing
/// begins the next.
proof fn lemma_surrounded(
    before: Seq<char>,
    first: Seq<char>,
    opening: Seq<char>,
    value: Seq<char>,
    closing: Seq<char>,
    rest: Seq<char>,
    behind: Seq<char>,
)
    ensures
        occurs_in(
            opening + value + closing,
            before + (first + opening) + value + (closing + rest) + behind,
        ),
{
    let needle = opening + value + closing;
    let text = before + (first + opening) + value + (closing + rest) + behind;
    assert(text == (before + first) + needle + (rest + behind));
    law_occurrence_leaves_what_is_around(needle, text);
}

proof fn lemma_claims_openings()
    ensures
        "{\n                \"iss\": \""@ == "{\n                \"iss\": \""@.take(18) + "\"iss\": \""@,
        "\",\n                \"scope\": \"https://www.googleapis.com/auth/cloud-platform\",\n                \"aud\": \""@ == "\",\n                \"scope\": \"https://www.googleapis.com/auth/cloud-platform\",\n                \"aud\": \""@.take(
            "\",\n                \"scope\": \"https://www.googleapis.com/auth/cloud-platform\",\n                \"aud\": \""@.len() - 8,
        ) + "\"aud\": \""@,
        "\",\n                \"exp\": "@ == "\",\n                \"exp\": "@.take(19) + "\"exp\": "@,
        ",\n                \"iat\": "@ == ",\n                \"iat\": "@.take(18) + "\"iat\": "@,
{
    assert("{\n                \"iss\": \""@ == "{\n                \"iss\": \""@.take(18) + "\"iss\": \""@) by {
        reveal_strlit("{\n                \"iss\": \"");
        reveal_strlit("\"iss\": \"");
    }
    assert("\",\n                \"scope\": \"https://www.googleapis.com/auth/cloud-platform\",\n                \"aud\": \""@ == "\",\n                \"scope\": \"https://www.googleapis.com/auth/cloud-platform\",\n                \"aud\": \""@.take(
        "\",\n                \"scope\": \"https://www.googleapis.com/auth/cloud-platform\",\n                \"aud\": \""@.len() - 8,
    ) + "\"aud\": \""@) by {
        reveal_strlit("\",\n                \"scope\": \"https://www.googleapis.com/auth/cloud-platform\",\n                \"aud\": \"");
        reveal_strlit("\"aud\": \"");
    }
    assert("\",\n                \"exp\": "@ == "\",\n                \"exp\": "@.take(19) + "\"exp\": "@) by {
        reveal_strlit("\",\n                \"exp\": ");
        reveal_strlit("\"exp\": ");
    }
    assert(",\n                \"iat\": "@ == ",\n                \"iat\": "@.take(18) + "\"iat\": "@) by {
        reveal_strlit(",\n                \"iat\": ");
        reveal_strlit("\"iat\": ");
    }
}

proof fn lemma_claims_closings()
    ensures
        "\",\n                \"scope\": \"https://www.googleapis.com/auth/cloud-platform\",\n                \"aud\": \""@ == "\","@ + "\",\n                \"scope\": \"https://www.googleapis.com/auth/cloud-platform\",\n                \"aud\": \""@.skip(2),
        "\",\n                \"exp\": "@ == "\","@ + "\",\n                \"exp\": "@.skip(2),
        ",\n                \"iat\": "@ == ","@ + ",\n                \"iat\": "@.skip(1),
        "\n            }"@ == "\n"@ + "\n            }"@.skip(1),
{
    reveal_strlit("\",");
    reveal_strlit(",");
    reveal_strlit("\n");
    reveal_strlit("\",\n                \"exp\": ");
    reveal_strlit(",\n                \"iat\": ");
    reveal_strlit("\n            }");
    assert("\",\n                \"scope\": \"https://www.googleapis.com/auth/cloud-platform\",\n                \"aud\": \""@ == "\","@ + "\",\n                \"scope\": \"https://www.googleapis.com/auth/cloud-platform\",\n                \"aud\": \""@.skip(2)) by {
        reveal_strlit("\",\n                \"scope\": \"https://www.googleapis.com/auth/cloud-platform\",\n                \"aud\": \"");
    }
}

proof fn lemma_claims_scope()
    ensures
        occurs_in(
            "\"scope\": \"https://www.googleapis.com/auth/cloud-platform\","@,
            "\",\n                \"scope\": \"https://www.googleapis.com/auth/cloud-platform\",\n                \"aud\": \""@,
        ),
{
    let b = "\",\n                \"scope\": \"https://www.googleapis.com/auth/cloud-platform\",\n                \"aud\": \""@;
    let scope = "\"scope\": \"https://www.googleapis.com/auth/cloud-platform\","@;
    reveal_strlit("\",\n                \"scope\": \"https://www.googleapis.com/auth/cloud-platform\",\n                \"aud\": \"");
    reveal_strlit("\"scope\": \"https://www.googleapis.com/auth/cloud-platform\",");
    assert(b.subrange(19, 19 + scope.len() as int) == scope);
}

/// What occurs in a part of a text occurs in the text.
proof fn lemma_occurs_in_more(needle: Seq<char>, before: Seq<char>, part: Seq<char>, behind: Seq<char>)
    requires
        occurs_in(needle, part),
    ensures
        occurs_in(needle, before + part + behind),
{
    law_occurrence_leaves_what_is_around(needle, part);
    let (x, y) = choose|x: Seq<char>, y: Seq<char>| part == #[trigger] (x + needle + y);
    assert(before + part + behind == (before + x) + needle + (y + behind));
    law_occurrence_leaves_what_is_around(needle, before + part + behind);
}

/// The claims name the address and the token URI in full, in quotes, and the two moments in decimal,
/// each behind its key, and the scope.
pub proof fn law_claims_hold_their_fields_in_full(
    client_email: Seq<char>,
    token_uri: Seq<char>,
    exp: int,
    iat: int,
)
    ensures
        ({
            let claims = claims_text(client_email, token_uri, exp, iat);
            &&& occurs_in("\"iss\": \""@ + client_email + "\","@, claims)
            &&& occurs_in("\"aud\": \""@ + token_uri + "\","@, claims)
            &&& occurs_in("\"exp\": "@ + decimal_text(exp) + ","@, claims)
            &&& occurs_in("\"iat\": "@ + decimal_text(iat) + "\n"@, claims)
            &&& occurs_in(
                "\"scope\": \"https://www.googleapis.com/auth/cloud-platform\","@,
                claims,
            )
        }),
{
    let a = "{\n                \"iss\": \""@;
    let b = "\",\n                \"scope\": \"https://www.googleapis.com/auth/cloud-platform\",\n                \"aud\": \""@;
    let c = "\",\n                \"exp\": "@;
    let d = ",\n                \"iat\": "@;
    let e = "\n            }"@;
    let claims = claims_text(client_email, token_uri, exp, iat);
    let (x, i) = (decimal_text(exp), decimal_text(iat));
    let uri = claims_from_the_uri(token_uri, exp, iat);
    let end = claims_from_the_end(exp, iat);
    lemma_claims_in_order(client_email, token_uri, exp, iat);
    lemma_claims_openings();
    lemma_claims_closings();
    lemma_claims_scope();
    assert(claims == Seq::<char>::empty() + a + client_email + b + uri);
    lemma_surrounded(
        Seq::empty(),
        a.take(18),
        "\"iss\": \""@,
        client_email,
        "\","@,
        b.skip(2),
        uri,
    );
    let start = a + client_email;
    assert(claims == start + b + uri);
    lemma_occurs_in_more(
        "\"scope\": \"https://www.googleapis.com/auth/cloud-platform\","@,
        start,
        b,
        uri,
    );
    assert(claims == start + b + token_uri + c + end);
    lemma_surrounded(
        start,
        b.take(b.len() - 8),
        "\"aud\": \""@,
        token_uri,
        "\","@,
        c.skip(2),
        end,
    );
    let before = start + b + token_uri;
    assert(claims == before + c + x + d + (i + e));
    lemma_surrounded(before, c.take(19), "\"exp\": "@, x, ","@, d.skip(1), i + e);
    assert(claims == (before + c + x) + d + i + e + Seq::<char>::empty());
    lemma_surrounded(
        before + c + x,
        d.take(18),
        "\"iat\": "@,
        i,
        "\n"@,
        e.skip(1),
        Seq::empty(),
    );
}

proof fn lemma_number_has_no(n: int, mark: char)
    requires
        mark == ',' || mark == '\n',
    ensures
        !decimal_text(n).contains(mark),
{
    law_numbers_are_plain(n);
    if decimal_text(n).contains(mark) {
        let i = decimal_text(n).index_of(mark);
        assert(decimal_text(n)[i] == mark);
    }
}

/// Claims that look the same are the same claims: different addresses, token URIs or moments never
/// share a text, as long as no quotation mark stands in an address or a URI.
pub proof fn law_claims_can_be_told_apart(
    email: Seq<char>,
    uri: Seq<char>,
    exp: int,
    iat: int,
    other_email: Seq<char>,
    other_uri: Seq<char>,
    other_exp: int,
    other_iat: int,
)
    requires
        !email.contains('"'),
        !uri.contains('"'),
        !other_email.contains('"'),
        !other_uri.contains('"'),
        claims_text(email, uri, exp, iat) == claims_text(other_email, other_uri, other_exp, other_iat),
    ensures
        email == other_email,
        uri == other_uri,
        exp == other_exp,
        iat == other_iat,
{
    let a = "{\n                \"iss\": \""@;
    let b = "\",\n                \"scope\": \"https://www.googleapis.com/auth/cloud-platform\",\n                \"aud\": \""@;
    let c = "\",\n                \"exp\": "@;
    let d = ",\n                \"iat\": "@;
    let e = "\n            }"@;
    reveal_strlit("\",\n                \"scope\": \"https://www.googleapis.com/auth/cloud-platform\",\n                \"aud\": \"");
    reveal_strlit("\",\n                \"exp\": ");
    reveal_strlit(",\n                \"iat\": ");
    reveal_strlit("\n            }");
    lemma_claims_in_order(email, uri, exp, iat);
    lemma_claims_in_order(other_email, other_uri, other_exp, other_iat);
    let (s, t) = (
        claims_from_the_address(email, uri, exp, iat),
        claims_from_the_address(other_email, other_uri, other_exp, other_iat),
    );
    let claims = claims_text(email, uri, exp, iat);
    assert(s == claims.skip(a.len() as int));
    assert(t == claims.skip(a.len() as int));
    let (u, v) = (
        claims_from_the_uri(uri, exp, iat),
        claims_from_the_uri(other_uri, other_exp, other_iat),
    );
    assert(b + u == seq!['"'] + (b.skip(1) + u));
    assert(b + v == seq!['"'] + (b.skip(1) + v));
    lemma_cut(email, b.skip(1) + u, other_email, b.skip(1) + v, '"');
    assert(u == (b.skip(1) + u).skip(b.len() - 1));
    assert(v == (b.skip(1) + v).skip(b.len() - 1));
    let (m, n) = (claims_from_the_end(exp, iat), claims_from_the_end(other_exp, other_iat));
    assert(c + m == seq!['"'] + (c.skip(1) + m));
    assert(c + n == seq!['"'] + (c.skip(1) + n));
    lemma_cut(uri, c.skip(1) + m, other_uri, c.skip(1) + n, '"');
    assert(m == (c.skip(1) + m).skip(c.len() - 1));
    assert(n == (c.skip(1) + n).skip(c.len() - 1));
    let (p, q) = (decimal_text(iat) + e, decimal_text(other_iat) + e);
    assert(d + p == seq![','] + (d.skip(1) + p));
    assert(d + q == seq![','] + (d.skip(1) + q));
    lemma_number_has_no(exp, ',');
    lemma_number_has_no(other_exp, ',');
    lemma_cut(decimal_text(exp), d.skip(1) + p, decimal_text(other_exp), d.skip(1) + q, ',');
    assert(p == (d.skip(1) + p).skip(d.len() - 1));
    assert(q == (d.skip(1) + q).skip(d.len() - 1));
    assert(e == seq!['\n'] + e.skip(1));
    lemma_number_has_no(iat, '\n');
    lemma_number_has_no(other_iat, '\n');
    lemma_cut(decimal_text(iat), e.skip(1), decimal_text(other_iat), e.skip(1), '\n');
    law_numbers_can_be_told_apart(exp, other_exp);
    law_numbers_can_be_told_apart(iat, other_iat);
}

/// A token request is the header, the claims of that moment, good for an hour, and the signature
/// under the key of the two with a dot between them; or the error of whichever step failed.
pub proof fn law_tokens_are_signed_claims_of_an_hour(
    client_email: Seq<char>,
    private_key: Seq<char>,
    token_uri: Seq<char>,
    iat: int,
)
    ensures
        ({
            let header = base64_url_text(encode_utf8("{\"alg\":\"RS256\",\"typ\":\"JWT\"}"@));
            let claims = base64_url_text(
                encode_utf8(claims_text(client_email, token_uri, iat + 3600, iat)),
            );
            let message = header + seq!['.'] + claims;
            match pem_block(private_key) {
                Err(e) => token_at(client_email, private_key, token_uri, iat) == Err::<
                    Seq<char>,
                    GcpErrorModel,
                >(GcpErrorModel::Pem(e)),
                Ok(key) => match rs256_signature(key, encode_utf8(message)) {
                    Ok(signature) => token_at(client_email, private_key, token_uri, iat) == Ok::<
                        Seq<char>,
                        GcpErrorModel,
                    >(message + seq!['.'] + base64_url_text(signature)),
                    Err(SignFailure::InvalidKey) => token_at(
                        client_email,
                        private_key,
                        token_uri,
                        iat,
                    ) == Err::<Seq<char>, GcpErrorModel>(GcpErrorModel::InvalidKey),
                    Err(SignFailure::SignFailed) => token_at(
                        client_email,
                        private_key,
                        token_uri,
                        iat,
                    ) == Err::<Seq<char>, GcpErrorModel>(GcpErrorModel::SignFailed),
                },
            }
        }),
{
}

proof fn lemma_no_dot(bytes: Seq<u8>)
    ensures
        !base64_url_text(bytes).contains('.'),
{
    law_base64_url_is_url_safe(bytes);
    let text = base64_url_text(bytes);
    if text.contains('.') {
        let i = text.index_of('.');
        assert(text[i] == '.');
    }
}

/// Token requests of different accounts, for different addresses or of different moments are never
/// the same, as long as no quotation mark stands in an account or an address.
pub proof fn law_tokens_can_be_told_apart(
    email: Seq<char>,
    key: Seq<char>,
    uri: Seq<char>,
    iat: int,
    other_email: Seq<char>,
    other_key: Seq<char>,
    other_uri: Seq<char>,
    other_iat: int,
)
    requires
        !email.contains('"'),
        !uri.contains('"'),
        !other_email.contains('"'),
        !other_uri.contains('"'),
        token_at(email, key, uri, iat) is Ok,
        token_at(other_email, other_key, other_uri, other_iat) is Ok,
        token_at(email, key, uri, iat)->Ok_0 == token_at(
            other_email,
            other_key,
            other_uri,
            other_iat,
        )->Ok_0,
    ensures
        email == other_email,
        uri == other_uri,
        iat == other_iat,
{
    law_tokens_are_signed_claims_of_an_hour(email, key, uri, iat);
    law_tokens_are_signed_claims_of_an_hour(other_email, other_key, other_uri, other_iat);
    let header = base64_url_text(encode_utf8("{\"alg\":\"RS256\",\"typ\":\"JWT\"}"@));
    let (x, y) = (
        claims_text(email, uri, iat + 3600, iat),
        claims_text(other_email, other_uri, other_iat + 3600, other_iat),
    );
    let (c, d) = (base64_url_text(encode_utf8(x)), base64_url_text(encode_utf8(y)));
    let (s, t) = (
        base64_url_text(rs256_signature(pem_block(key)->Ok_0, encode_utf8(header + seq!['.'] + c))->Ok_0),
        base64_url_text(
            rs256_signature(pem_block(other_key)->Ok_0, encode_utf8(header + seq!['.'] + d))->Ok_0,
        ),
    );
    lemma_no_dot(encode_utf8("{\"alg\":\"RS256\",\"typ\":\"JWT\"}"@));
    lemma_no_dot(encode_utf8(x));
    lemma_no_dot(encode_utf8(y));
    assert(header + seq!['.'] + c + seq!['.'] + s == header + (seq!['.'] + (c + (seq!['.'] + s))));
    assert(header + seq!['.'] + d + seq!['.'] + t == header + (seq!['.'] + (d + (seq!['.'] + t))));
    lemma_cut(header, c + (seq!['.'] + s), header, d + (seq!['.'] + t), '.');
    lemma_cut(c, s, d, t, '.');
    law_base64_url_can_be_read_back(encode_utf8(x), encode_utf8(y));
    encode_utf8_decode_utf8(x);
    encode_utf8_decode_utf8(y);
    law_claims_can_be_told_apart(
        email,
        uri,
        iat + 3600,
        iat,
        other_email,
        other_uri,
        other_iat + 3600,
        other_iat,
    );
}

/// An account takes its fields from under the four keys that credentials have for them, in full; a
/// field that is not there is empty, and the account is complete just when no field is empty.
pub proof fn law_accounts_hold_their_fields_in_full(fields: Seq<Option<Seq<char>>>)
    requires
        fields.len() == 4,
    ensures
        account_keys() == seq!["project_id"@, "client_email"@, "private_key"@, "token_uri"@],
        fields[0] is Some ==> account_of(fields).project_id == fields[0]->0,
        fields[1] is Some ==> account_of(fields).client_email == fields[1]->0,
        fields[2] is Some ==> account_of(fields).private_key == fields[2]->0,
        fields[3] is Some ==> account_of(fields).token_uri == fields[3]->0,
        fields[0] is None ==> account_of(fields).project_id.len() == 0,
        fields[1] is None ==> account_of(fields).client_email.len() == 0,
        fields[2] is None ==> account_of(fields).private_key.len() == 0,
        fields[3] is None ==> account_of(fields).token_uri.len() == 0,
        account_of(fields).is_complete() <==> forall|i: int|
            0 <= i < 4 ==> #[trigger] fields[i] is Some && fields[i]->0.len() > 0,
{
    let account = account_of(fields);
    if account.is_complete() {
        assert forall|i: int| 0 <= i < 4 implies #[trigger] fields[i] is Some && fields[i]->0.len()
            > 0 by {
            assert(i == 0 || i == 1 || i == 2 || i == 3);
        }
    }
    if forall|i: int| 0 <= i < 4 ==> #[trigger] fields[i] is Some && fields[i]->0.len() > 0 {
        assert(fields[0] is Some && fields[1] is Some && fields[2] is Some && fields[3] is Some);
    }
}

/// Complete credentials are put to the test by a form of two fields, sent to their own address: the
/// kind of grant, and the token request. Whatever kept the token request from being made is the
/// error, and what lacks a field is not live.
pub proof fn law_tests_present_the_token(
    step: Result<GcpStep, GcpError>,
    account: AccountModel,
    token: Result<Seq<char>, GcpErrorModel>,
)
    requires
        is_step_for(step, account, token),
    ensures
        account.project_id.len() == 0 || account.client_email.len() == 0
            || account.private_key.len() == 0 || account.token_uri.len() == 0 ==> (step matches Ok(
            GcpStep::Verdict(live, metadata),
        ) && !live && metadata@.len() == 0),
        account.project_id.len() > 0 && account.client_email.len() > 0 && account.private_key.len()
            > 0 && account.token_uri.len() > 0 ==> match token {
            Err(e) => step is Err && step->Err_0@ == e,
            Ok(text) => step matches Ok(GcpStep::Ask(request)) && {
                &&& request.token_uri@ == account.token_uri
                &&& request.account@ == account
                &&& request.form@.len() == 2
                &&& request.form@[0].0@ == "grant_type"@
                &&& request.form@[0].1@ == "urn:ietf:params:oauth:grant-type:jwt-bearer"@
                &&& request.form@[1].0@ == "assertion"@
                &&& request.form@[1].1@ == text
            },
        },
{
    if account.is_complete() && token is Ok {
        let form = step->Ok_0->Ask_0.form;
        assert(form.deep_view().len() == 2);
        assert(form.deep_view()[0] == (form@[0].0@, form@[0].1@));
        assert(form.deep_view()[1] == (form@[1].0@, form@[1].1@));
    }
}

/// What is known of live credentials are three lines: their kind, and the project and the address in
/// full.
pub proof fn law_metadata_names_the_account_in_full(account: AccountModel)
    ensures
        account_metadata(account).len() == 3,
        account_metadata(account)[0] == "GCP Credential Type == service_account"@,
        account_metadata(account)[1] == "GCP Project ID == "@ + account.project_id,
        account_metadata(account)[2] == "GCP Client Email == "@ + account.client_email,
{
}

/// What an error says holds the words of whoever failed in full.
pub proof fn law_gcp_errors_hold_their_causes(cause: Seq<char>)
    ensures
        gcp_error_text(GcpErrorModel::Json(cause)) == cause,
        gcp_error_text(GcpErrorModel::Pem(cause)) == "Failed to parse PEM: "@ + cause,
        gcp_error_text(GcpErrorModel::InvalidKey) == "Invalid RSA private key"@,
        gcp_error_text(GcpErrorModel::SignFailed) == "Failed to sign JWT"@,
        gcp_error_text(GcpErrorModel::Rejected) == "Failed to validate GCP credentials"@,
{
}

/// A moment that the clock gave is one that it was asked for.
proof fn law_clock_is_asked_for_the_moment(seconds: i64)
    requires
        clock_gave(seconds),
    ensures
        call_ensures(seconds_since_epoch, (), seconds),
{
}

/// What is said of an error, of an account or of a token is said of all that it holds.
pub proof fn law_accounts_and_tokens_are_seen_in_full(
    e: GcpError,
    account: ServiceAccount,
    token: Result<String, GcpError>,
)
    ensures
        e matches GcpError::Json(cause) ==> e@ == GcpErrorModel::Json(cause@),
        e matches GcpError::Pem(cause) ==> e@ == GcpErrorModel::Pem(cause@),
        e is InvalidKey <==> e@ is InvalidKey,
        e is SignFailed <==> e@ is SignFailed,
        e is Rejected <==> e@ is Rejected,
        account@.project_id == account.project_id@,
        account@.client_email == account.client_email@,
        account@.private_key == account.private_key@,
        account@.token_uri == account.token_uri@,
        token matches Ok(text) ==> token_view(token) == Ok::<Seq<char>, GcpErrorModel>(text@),
        token matches Err(fault) ==> token_view(token) == Err::<Seq<char>, GcpErrorModel>(fault@),
{
}

} // verus!
