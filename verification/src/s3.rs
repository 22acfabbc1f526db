//! Signed requests against an S3 bucket.

use vstd::prelude::*;
use vstd::string::*;
use vstd::utf8::encode_utf8;

verus! {

/// The error stack of OpenSSL.
#[verifier::external_type_specification]
#[verifier::external_body]
pub struct ExErrorStack(openssl::error::ErrorStack);

/// The HMAC-SHA1 of `message` under `key`.
pub uninterp spec fn hmac_sha1_of(key: Seq<u8>, message: Seq<u8>) -> Seq<u8>;

/// The standard, padded base64 text of `bytes`, without line breaks.
pub uninterp spec fn base64_of(bytes: Seq<u8>) -> Seq<char>;

/// Computes an HMAC with OpenSSL: an HMAC key made by `PKey::hmac`, a
/// `Signer` over SHA-1 fed with the message by `update`, and the tag read
/// by `sign_to_vec`. Believed: whenever all four succeed, the tag is the
/// HMAC-SHA1 of the message under the key. `PKey::hmac` asserts that the
/// key is no longer than a C `int` can count.
#[verifier::external_body]
fn hmac_sha1(key: &[u8], message: &[u8]) -> (mac: Result<Vec<u8>, openssl::error::ErrorStack>)
    requires
        key@.len() <= i32::MAX,
    ensures
        mac matches Ok(tag) ==> tag@ == hmac_sha1_of(key@, message@),
{
    let pkey = openssl::pkey::PKey::hmac(key)?;
    let mut signer = openssl::sign::Signer::new(openssl::hash::MessageDigest::sha1(), &pkey)?;
    signer.update(message)?;
    signer.sign_to_vec()
}

/// Encodes bytes with `ToBase64::to_base64` of rustc-serialize under its
/// `STANDARD` configuration. Believed: the result is the standard base64
/// text of the bytes.
#[verifier::external_body]
fn to_base64(bytes: &[u8]) -> (text: String)
    ensures
        text@ == base64_of(bytes@),
{
    rustc_serialize::base64::ToBase64::to_base64(bytes, rustc_serialize::base64::STANDARD)
}

/// Why a request could not be signed.
#[derive(Clone, Copy, Debug, PartialEq, Eq, Structural)]
pub enum SignError {
    /// The secret key is longer than the signing library accepts.
    KeyTooLong,
    /// The signing library failed.
    Crypto,
}

/// The method of a signed request.
#[derive(Clone, Copy, Debug, PartialEq, Eq, Structural)]
pub enum Method {
    Put,
    Delete,
}

/// What a request against the bucket has to carry.
#[derive(Clone, Debug, PartialEq, Eq)]
pub struct SignedRequest {
    pub method: Method,
    pub url: String,
    /// The `Host` header.
    pub host: String,
    /// The `Date` header.
    pub date: String,
    /// The `Authorization` header.
    pub authorization: String,
    /// The content type, for a request with a body.
    pub content_type: Option<String>,
}

/// A bucket and the credentials to write to it.
pub struct Bucket {
    name: String,
    region: Option<String>,
    access_key: String,
    secret_key: String,
    proto: String,
}

/// A bucket as a mathematical value.
pub struct BucketModel {
    pub name: Seq<char>,
    pub region: Option<Seq<char>>,
    pub access_key: Seq<char>,
    pub secret_key: Seq<char>,
    pub proto: Seq<char>,
}

impl View for Bucket {
    type V = BucketModel;

    closed spec fn view(&self) -> BucketModel {
        BucketModel {
            name: self.name@,
            region: match self.region {
                Some(region) => Some(region@),
                None => None,
            },
            access_key: self.access_key@,
            secret_key: self.secret_key@,
            proto: self.proto@,
        }
    }
}

/// The host name of a bucket: the region, where there is one, follows
/// `s3` after a hyphen.
pub open spec fn host_of(name: Seq<char>, region: Option<Seq<char>>) -> Seq<char> {
    name + ".s3"@ + match region {
        Some(region) => "-"@ + region,
        None => Seq::<char>::empty(),
    } + ".amazonaws.com"@
}

/// A path without its leading slash, if it has one.
pub open spec fn relative(path: Seq<char>) -> Seq<char> {
    if path.len() > 0 && path[0] == '/' {
        path.skip(1)
    } else {
        path
    }
}

/// The text that is signed for a request.
pub open spec fn string_to_sign(
    name: Seq<char>,
    verb: Seq<char>,
    date: Seq<char>,
    path: Seq<char>,
    md5: Seq<char>,
    content_type: Seq<char>,
) -> Seq<char> {
    verb + "\n"@ + md5 + "\n"@ + content_type + "\n"@ + date + "\n"@ + "/"@ + name + "/"@ + path
}

/// The `Authorization` header for an access key and the tag of a request.
pub open spec fn authorization_of(access_key: Seq<char>, tag: Seq<u8>) -> Seq<char> {
    "AWS "@ + access_key + ":"@ + base64_of(tag)
}

/// The URL of a path in a bucket.
pub open spec fn url_of(proto: Seq<char>, host: Seq<char>, path: Seq<char>) -> Seq<char> {
    proto + "://"@ + host + "/"@ + path
}

impl BucketModel {
    /// The host name of the bucket.
    pub open spec fn host(self) -> Seq<char> {
        host_of(self.name, self.region)
    }

    /// The `Authorization` header of a request.
    pub open spec fn auth(
        self,
        verb: Seq<char>,
        date: Seq<char>,
        path: Seq<char>,
        md5: Seq<char>,
        content_type: Seq<char>,
    ) -> Seq<char> {
        authorization_of(
            self.access_key,
            hmac_sha1_of(
                encode_utf8(self.secret_key),
                encode_utf8(string_to_sign(self.name, verb, date, path, md5, content_type)),
            ),
        )
    }

    /// Whether the signing library accepts the secret key.
    pub open spec fn key_fits(self) -> bool {
        encode_utf8(self.secret_key).len() <= i32::MAX
    }
}

/// The path without its leading slash, if it has one.
pub fn strip_slash(path: &str) -> (rest: &str)
    ensures
        rest@ == relative(path@),
{
    let len = path.unicode_len();
    if len > 0 && path.get_char(0) == '/' {
        let rest = path.substring_char(1, len);
        assert(rest@ =~= path@.skip(1));
        rest
    } else {
        path
    }
}

/// The `Authorization` header for an access key and the tag of a request.
pub fn authorization(access_key: &str, tag: &[u8]) -> (header: String)
    ensures
        header@ == authorization_of(access_key@, tag@),
{
    let mut header = String::from_str("AWS ");
    header.append(access_key);
    header.append(":");
    header.append(to_base64(tag).as_str());
    header
}

/// The `Authorization` header for an access key and what the signing
/// library returned: the header for its tag, and `Crypto` for its error.
pub fn authorization_from(
    access_key: &str,
    mac: Result<Vec<u8>, openssl::error::ErrorStack>,
) -> (header: Result<String, SignError>)
    ensures
        header is Ok <==> mac is Ok,
        mac matches Ok(tag) ==> header matches Ok(text) && text@ == authorization_of(
            access_key@,
            tag@,
        ),
        mac is Err ==> header == Err::<String, SignError>(SignError::Crypto),
{
    match mac {
        Ok(tag) => Ok(authorization(access_key, tag.as_slice())),
        Err(_) => Err(SignError::Crypto),
    }
}

impl Bucket {
    /// A bucket of the given name, in the given region if any, reached over
    /// `proto` and written to with the given pair of keys.
    pub fn new(
        name: String,
        region: Option<String>,
        access_key: String,
        secret_key: String,
        proto: &str,
    ) -> (bucket: Bucket)
        ensures
            bucket@ == (BucketModel {
                name: name@,
                region: match region {
                    Some(region) => Some(region@),
                    None => None,
                },
                access_key: access_key@,
                secret_key: secret_key@,
                proto: proto@,
            }),
    {
        Bucket { name, region, access_key, secret_key, proto: String::from_str(proto) }
    }

    /// The host name of the bucket.
    pub fn host(&self) -> (host: String)
        ensures
            host@ == self@.host(),
    {
        let mut host = self.name.clone();
        host.append(".s3");
        match &self.region {
            Some(region) => {
                host.append("-");
                host.append(region.as_str());
                assert(host@ =~= self.name@ + ".s3"@ + ("-"@ + region@));
            },
            None => {
                assert(host@ =~= self.name@ + ".s3"@ + Seq::<char>::empty());
            },
        }
        host.append(".amazonaws.com");
        host
    }

    /// The text that is signed for a request.
    pub fn to_sign(
        &self,
        verb: &str,
        date: &str,
        path: &str,
        md5: &str,
        content_type: &str,
    ) -> (text: String)
        ensures
            text@ == string_to_sign(self@.name, verb@, date@, path@, md5@, content_type@),
    {
        let mut text = String::from_str(verb);
        text.append("\n");
        text.append(md5);
        text.append("\n");
        text.append(content_type);
        text.append("\n");
        text.append(date);
        text.append("\n");
        text.append("/");
        text.append(self.name.as_str());
        text.append("/");
        text.append(path);
        text
    }

    /// The `Authorization` header of a request: the access key and the
    /// base64 text of the HMAC-SHA1, under the secret key, of the text to
    /// sign.
    pub fn auth(
        &self,
        verb: &str,
        date: &str,
        path: &str,
        md5: &str,
        content_type: &str,
    ) -> (header: Result<String, SignError>)
        ensures
            header matches Ok(text) ==> text@ == self@.auth(
                verb@,
                date@,
                path@,
                md5@,
                content_type@,
            ),
            header is Ok ==> self@.key_fits(),
            !self@.key_fits() ==> header == Err::<String, SignError>(SignError::KeyTooLong),
            self@.key_fits() ==> header != Err::<String, SignError>(SignError::KeyTooLong),
    {
        let text = self.to_sign(verb, date, path, md5, content_type);
        let key = self.secret_key.as_str().as_bytes();
        if key.len() > i32::MAX as usize {
            return Err(SignError::KeyTooLong);
        }
        authorization_from(self.access_key.as_str(), hmac_sha1(key, text.as_str().as_bytes()))
    }

    /// The URL of a path in the bucket.
    pub fn url(&self, path: &str) -> (url: String)
        ensures
            url@ == url_of(self@.proto, self@.host(), path@),
    {
        let mut url = self.proto.clone();
        url.append("://");
        url.append(self.host().as_str());
        url.append("/");
        url.append(path);
        url
    }

    /// The request that stores content of the given type at `path`, signed
    /// for the given `Date` header.
    pub fn put(&self, path: &str, content_type: &str, date: &str) -> (request: Result<
        SignedRequest,
        SignError,
    >)
        ensures
            request matches Ok(r) ==> {
                &&& r.method == Method::Put
                &&& r.url@ == url_of(self@.proto, self@.host(), relative(path@))
                &&& r.host@ == self@.host()
                &&& r.date@ == date@
                &&& r.authorization@ == self@.auth(
                    "PUT"@,
                    date@,
                    relative(path@),
                    ""@,
                    content_type@,
                )
                &&& r.content_type matches Some(ty) && ty@ == content_type@
            },
            request is Ok ==> self@.key_fits(),
            !self@.key_fits() ==> request == Err::<SignedRequest, SignError>(SignError::KeyTooLong),
            self@.key_fits() ==> request != Err::<SignedRequest, SignError>(SignError::KeyTooLong),
    {
        let path = strip_slash(path);
        match self.auth("PUT", date, path, "", content_type) {
            Ok(authorization) => Ok(
                SignedRequest {
                    method: Method::Put,
                    url: self.url(path),
                    host: self.host(),
                    date: String::from_str(date),
                    authorization,
                    content_type: Some(String::from_str(content_type)),
                },
            ),
            Err(e) => Err(e),
        }
    }

    /// The request that removes what is stored at `path`, signed for the
    /// given `Date` header.
    pub fn delete(&self, path: &str, date: &str) -> (request: Result<SignedRequest, SignError>)
        ensures
            request matches Ok(r) ==> {
                &&& r.method == Method::Delete
                &&& r.url@ == url_of(self@.proto, self@.host(), relative(path@))
                &&& r.host@ == self@.host()
                &&& r.date@ == date@
                &&& r.authorization@ == self@.auth("DELETE"@, date@, relative(path@), ""@, ""@)
                &&& r.content_type is None
            },
            request is Ok ==> self@.key_fits(),
            !self@.key_fits() ==> request == Err::<SignedRequest, SignError>(SignError::KeyTooLong),
            self@.key_fits() ==> request != Err::<SignedRequest, SignError>(SignError::KeyTooLong),
    {
        let path = strip_slash(path);
        match self.auth("DELETE", date, path, "", "") {
            Ok(authorization) => Ok(
                SignedRequest {
                    method: Method::Delete,
                    url: self.url(path),
                    host: self.host(),
                    date: String::from_str(date),
                    authorization,
                    content_type: None,
                },
            ),
            Err(e) => Err(e),
        }
    }
}

} // verus!
