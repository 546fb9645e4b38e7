//! The Schema Registry client: its connection settings, the authorization
//! header for direct calls, the addresses of those calls, and the decisions
//! taken on what the registry answers.
use vstd::prelude::*;
use vstd::string::*;
use vstd::utf8::encode_utf8;
use base64::Engine;

use schema_registry_converter::async_impl::schema_registry::SrSettings;
use schema_registry_converter::error::SRCError;

use crate::text::{decimal, push_decimal};

verus! {

broadcast use vstd::seq::group_seq_axioms;

#[verifier::external_type_specification]
#[verifier::external_body]
pub struct ExSrSettings(SrSettings);

#[verifier::external_type_specification]
#[verifier::external_body]
pub struct ExSrcError(SRCError);

/// The character of the standard Base64 alphabet for the six-bit value `v`.
pub open spec fn base64_char(v: int) -> char {
    if v < 26 {
        ('A' as int + v) as char
    } else if v < 52 {
        ('a' as int + (v - 26)) as char
    } else if v < 62 {
        ('0' as int + (v - 52)) as char
    } else if v == 62 {
        '+'
    } else {
        '/'
    }
}

/// The standard Base64 encoding of `b`, padded with `=` (RFC 4648, section 4).
pub open spec fn base64_standard(b: Seq<u8>) -> Seq<char>
    decreases b.len(),
{
    let b0 = b[0] as int;
    let b1 = b[1] as int;
    let b2 = b[2] as int;
    if b.len() == 0 {
        Seq::empty()
    } else if b.len() == 1 {
        seq![base64_char(b0 / 4), base64_char((b0 % 4) * 16), '=', '=']
    } else if b.len() == 2 {
        seq![base64_char(b0 / 4), base64_char((b0 % 4) * 16 + b1 / 16), base64_char((b1 % 16) * 4), '=']
    } else {
        seq![
            base64_char(b0 / 4),
            base64_char((b0 % 4) * 16 + b1 / 16),
            base64_char((b1 % 16) * 4 + b2 / 64),
            base64_char(b2 % 64),
        ] + base64_standard(b.subrange(3, b.len() as int))
    }
}

/// Whether the Base64 encoding of `n` bytes has a length that fits in memory.
pub open spec fn base64_len_fits(n: nat) -> bool {
    (n + 2) / 3 * 4 <= usize::MAX
}

/// Calls `Engine::encode` of the `base64` crate with its `STANDARD` engine
/// (standard alphabet, padding). The contract claims that the result is the
/// RFC 4648 Base64 text of the bytes; the crate panics where the length of
/// that text overflows `usize`, which `requires` leaves out.
#[verifier::external_body]
fn encode_base64(bytes: &[u8]) -> (s: String)
    requires
        base64_len_fits(bytes@.len()),
    ensures
        s@ == base64_standard(bytes@),
{
    base64::engine::general_purpose::STANDARD.encode(bytes)
}

/// What registry settings are built from: the registry's address, and the API
/// key and secret of basic authorization, if any.
pub struct SettingsRequest {
    pub url: Seq<char>,
    pub basic_auth: Option<(Seq<char>, Seq<char>)>,
}

/// Calls `SrSettings::new` of `schema_registry_converter`: settings for the
/// registry at `url` without authorization, over a plain `reqwest` client.
/// The contract claims only what the call was made with (the ghost record that
/// the body builds from its arguments). Nothing is claimed of the settings,
/// whose fields that crate keeps private. `reqwest::Client::new`, which that
/// call makes, panics where the machine's TLS backend cannot be set up; that
/// depends on the machine, not on the arguments, and is left unsaid.
#[verifier::external_body]
fn settings_without_auth(url: &str) -> (r: (SrSettings, Ghost<SettingsRequest>))
    ensures
        r.1@ == (SettingsRequest { url: url@, basic_auth: None }),
{
    let request = Ghost(SettingsRequest { url: url@, basic_auth: None });
    (SrSettings::new(url.to_string()), request)
}

/// Calls `SrSettings::new_builder`, `set_basic_authorization` (with the secret
/// as password) and `build` of `schema_registry_converter`: settings for the
/// registry at `url` with basic authorization. The contract claims only what
/// the call was made with (the ghost record that the body builds from its
/// arguments). Nothing is claimed of the settings, whose fields that crate
/// keeps private, nor of whether building the HTTP client succeeds, which
/// depends on the machine.
#[verifier::external_body]
fn settings_with_basic_auth(url: &str, key: &str, secret: &str) -> (r: (
    Result<SrSettings, SRCError>,
    Ghost<SettingsRequest>,
))
    ensures
        r.1@ == (SettingsRequest { url: url@, basic_auth: Some((key@, secret@)) }),
{
    let request = Ghost(SettingsRequest { url: url@, basic_auth: Some((key@, secret@)) });
    (SrSettings::new_builder(url.to_string()).set_basic_authorization(key, Some(secret)).build(), request)
}

/// Why a registry client could not be made.
pub enum RegistryError {
    /// The settings with basic authorization could not be built; what they
    /// were to be built from.
    Settings { error: SRCError, request: Ghost<SettingsRequest> },
}

/// A connection to a Schema Registry: the settings that the registry calls
/// of `schema_registry_converter` take, what they were built from, the
/// registry's address, and the `Authorization` header that direct HTTP calls
/// send.
pub struct SrClient {
    pub settings: SrSettings,
    pub settings_request: Ghost<SettingsRequest>,
    pub base_url: String,
    pub auth_header: Option<String>,
}

/// The `Authorization` header for the API key `key` and secret `secret`:
/// `Basic ` and the Base64 text of the UTF-8 bytes of `key:secret`.
pub open spec fn basic_auth_header(key: Seq<char>, secret: Seq<char>) -> Seq<char> {
    "Basic "@ + base64_standard(encode_utf8(key + ":"@ + secret))
}

/// Whether the credentials can be encoded: the Base64 text of `key:secret`
/// fits in memory.
pub open spec fn credentials_fit(key: Seq<char>, secret: Seq<char>) -> bool {
    base64_len_fits(encode_utf8(key + ":"@ + secret).len())
}

/// What the settings for the registry at `url` are built from: basic
/// authorization with the key and secret where both are given, else none.
pub open spec fn settings_request_for(url: Seq<char>, api_key: Option<&str>, api_secret: Option<&str>) -> SettingsRequest {
    SettingsRequest {
        url,
        basic_auth: if api_key is Some && api_secret is Some {
            Some((api_key->Some_0@, api_secret->Some_0@))
        } else {
            None
        },
    }
}

impl SrClient {
    /// A client for the registry at `url`; with basic authorization where
    /// both an API key and an API secret are given, else without (a key or a
    /// secret alone is ignored).
    pub fn new(url: &str, api_key: Option<&str>, api_secret: Option<&str>) -> (r: Result<SrClient, RegistryError>)
        requires
            api_key is Some && api_secret is Some ==> credentials_fit(api_key->Some_0@, api_secret->Some_0@),
        ensures
            r matches Ok(c) ==> {
                &&& c.settings_request@ == settings_request_for(url@, api_key, api_secret)
                &&& c.base_url@ == url@
                &&& if api_key is Some && api_secret is Some {
                    c.auth_header matches Some(h) && h@ == basic_auth_header(api_key->Some_0@, api_secret->Some_0@)
                } else {
                    c.auth_header is None
                }
            },
            !(api_key is Some && api_secret is Some) ==> r is Ok,
            r matches Err(RegistryError::Settings { request, .. }) ==> request@ == settings_request_for(
                url@,
                api_key,
                api_secret,
            ),
    {
        match (api_key, api_secret) {
            (Some(key), Some(secret)) => {
                let mut credentials = String::from_str(key);
                credentials.append(":");
                credentials.append(secret);
                let bytes = credentials.as_str().as_bytes_vec();
                let mut header = String::from_str("Basic ");
                header.append(encode_base64(bytes.as_slice()).as_str());
                let (built, request) = settings_with_basic_auth(url, key, secret);
                match built {
                    Ok(settings) => Ok(
                        SrClient {
                            settings,
                            settings_request: request,
                            base_url: String::from_str(url),
                            auth_header: Some(header),
                        },
                    ),
                    Err(error) => Err(RegistryError::Settings { error, request }),
                }
            },
            _ => {
                let (settings, request) = settings_without_auth(url);
                Ok(SrClient { settings, settings_request: request, base_url: String::from_str(url), auth_header: None })
            },
        }
    }

    /// The address of version `version` of subject `subject`.
    pub fn subject_version_url(&self, subject: &str, version: u32) -> (u: String)
        ensures
            u@ == self.base_url@ + "/subjects/"@ + subject@ + "/versions/"@ + decimal(version as nat),
    {
        let mut u = self.base_url.clone();
        u.append("/subjects/");
        u.append(subject);
        u.append("/versions/");
        push_decimal(&mut u, version as u64);
        u
    }

    /// The address at which a new version of subject `subject` is posted.
    pub fn subject_versions_url(&self, subject: &str) -> (u: String)
        ensures
            u@ == self.base_url@ + "/subjects/"@ + subject@ + "/versions"@,
    {
        let mut u = self.base_url.clone();
        u.append("/subjects/");
        u.append(subject);
        u.append("/versions");
        u
    }

    /// The address that checks a schema against the latest version of
    /// subject `subject`.
    pub fn compatibility_url(&self, subject: &str) -> (u: String)
        ensures
            u@ == self.base_url@ + "/compatibility/subjects/"@ + subject@ + "/versions/latest"@,
    {
        let mut u = self.base_url.clone();
        u.append("/compatibility/subjects/");
        u.append(subject);
        u.append("/versions/latest");
        u
    }

    /// The address of subject `subject`.
    pub fn subject_url(&self, subject: &str) -> (u: String)
        ensures
            u@ == self.base_url@ + "/subjects/"@ + subject@,
    {
        let mut u = self.base_url.clone();
        u.append("/subjects/");
        u.append(subject);
        u
    }
}

/// Which version of a subject a schema lookup asks for.
#[derive(Debug, PartialEq, Eq, Structural)]
pub enum SchemaVersion {
    /// The latest version, through the registry calls of the client settings.
    Latest,
    /// This version, through a direct call.
    Number(u32),
}

/// How a schema lookup is made.
pub enum SchemaLookup {
    /// The latest version of this subject, through the registry calls of the
    /// client settings.
    Latest { subject: String },
    /// A direct call to this address, whose answer holds the schema.
    Direct { url: String },
}

impl SrClient {
    /// How the schema of subject `subject` at version `version` is looked up:
    /// the latest version of the subject itself where no version (or version
    /// zero) is asked for, else a direct call to the address of that version.
    pub fn schema_lookup(&self, subject: &str, version: Option<i32>) -> (r: SchemaLookup)
        ensures
            match requested_version_spec(version) {
                SchemaVersion::Latest => r matches SchemaLookup::Latest { subject: s } && s@ == subject@,
                SchemaVersion::Number(n) => r matches SchemaLookup::Direct { url } && url@ == self.base_url@
                    + "/subjects/"@ + subject@ + "/versions/"@ + decimal(n as nat),
            },
    {
        match requested_version(version) {
            SchemaVersion::Latest => SchemaLookup::Latest { subject: String::from_str(subject) },
            SchemaVersion::Number(n) => SchemaLookup::Direct { url: self.subject_version_url(subject, n) },
        }
    }
}

/// Whether a deletion answered with HTTP status `status` succeeded: a status
/// in the 2xx range.
pub fn deletion_succeeded(status: u16) -> (r: bool)
    ensures
        r == (200 <= status && status < 300),
{
    200 <= status && status < 300
}

/// The version that a lookup asks for: a version number read as unsigned 32
/// bits (so a negative number wraps around), zero and none standing for the
/// latest version.
pub open spec fn requested_version_spec(version: Option<i32>) -> SchemaVersion {
    match version {
        None => SchemaVersion::Latest,
        Some(v) => if v == 0 {
            SchemaVersion::Latest
        } else if v > 0 {
            SchemaVersion::Number(v as u32)
        } else {
            SchemaVersion::Number((v + 0x1_0000_0000) as u32)
        },
    }
}

/// The version of a subject that a schema lookup asks for.
pub fn requested_version(version: Option<i32>) -> (r: SchemaVersion)
    ensures
        r == requested_version_spec(version),
{
    match version {
        None => SchemaVersion::Latest,
        Some(v) => if v == 0 {
            SchemaVersion::Latest
        } else if v > 0 {
            SchemaVersion::Number(v as u32)
        } else {
            SchemaVersion::Number((v as i64 + 0x1_0000_0000i64) as u32)
        },
    }
}

/// Only a missing version or version zero asks for the latest version; any
/// other version asks for that very number read as unsigned 32 bits (a
/// positive version is itself, a negative one wraps around).
pub proof fn law_version_asked_for(version: Option<i32>)
    ensures
        requested_version_spec(version) is Latest <==> (version is None || version == Some(0i32)),
        version matches Some(v) ==> (v > 0 ==> requested_version_spec(version) == SchemaVersion::Number(v as u32)),
        version matches Some(v) ==> (v != 0 ==> (requested_version_spec(version) matches SchemaVersion::Number(n)
            && n as int % 0x1_0000_0000 == v as int % 0x1_0000_0000)),
{
}

/// The schema id that R receives for an id that the registry assigned: its 32
/// bits read as signed.
pub fn registered_schema_id(id: u32) -> (r: i32)
    ensures
        r == (if id <= i32::MAX { id as int } else { id - 0x1_0000_0000 }),
{
    if id <= 0x7fff_ffff {
        id as i32
    } else {
        (id as i64 - 0x1_0000_0000i64) as i32
    }
}

/// The schema id that R receives for the `id` of a direct registration
/// answer: its low 32 bits read as signed; none where the answer holds no
/// integer `id`.
pub fn posted_schema_id(id: Option<i64>) -> (r: Option<i32>)
    ensures
        r is Some <==> id is Some,
        r matches Some(v) ==> v as int == id->Some_0 as i32 as int,
        r matches Some(v) ==> (v - id->Some_0) % 0x1_0000_0000 == 0,
{
    match id {
        Some(v) => {
            let low: i32 = v as i32;
            assert((low - v) % 0x1_0000_0000 == 0) by (bit_vector)
                requires
                    low == v as i32,
            ;
            Some(low)
        },
        None => None,
    }
}

/// Whether a compatibility answer declares the schema compatible: its
/// `is_compatible` member where that is a boolean, else no.
pub fn compatibility_verdict(is_compatible: Option<bool>) -> (r: bool)
    ensures
        r == (is_compatible == Some(true)),
{
    match is_compatible {
        Some(b) => b,
        None => false,
    }
}

} // verus!
