use shiguredo_s3::api::{
    CompleteMultipartUploadFluentBuilder, CreateMultipartUploadFluentBuilder, UploadPartFluentBuilder,
};
use shiguredo_s3::types::{CompletedMultipartUpload, CompletedPart};
use shiguredo_s3::{Client, Config, Credentials, S3Request, S3Response};
use std::time::SystemTime;
use vstd::prelude::*;

use crate::config::AppConfig;
use crate::error::AppError;
use crate::text::{decimal_seq, push_decimal, push_str, string_from_chars};

verus! {

/// Size of each uploaded part of a multipart upload, in bytes.
pub const MULTIPART_PART_SIZE: usize = 8388608;

/// Name under which the static S3 credentials are registered.
pub const S3_CREDENTIALS_PROVIDER: &'static str = "home-camera";

/// Content type of uploaded recordings.
pub const MP4_CONTENT_TYPE: &'static str = "video/mp4";

/// One uploaded part of a multipart upload.
pub struct CompletedPartInfo {
    pub e_tag: Option<String>,
    pub part_number: i32,
}

/// The content of a [`CompletedPartInfo`].
pub struct PartModel {
    pub e_tag: Option<Seq<char>>,
    pub part_number: i32,
}

/// The text of an optional string.
pub open spec fn option_text(o: Option<String>) -> Option<Seq<char>> {
    match o {
        Some(s) => Some(s@),
        None => None,
    }
}

impl View for CompletedPartInfo {
    type V = PartModel;

    open spec fn view(&self) -> PartModel {
        PartModel { e_tag: option_text(self.e_tag), part_number: self.part_number }
    }
}

/// The content of each part.
pub open spec fn parts_view(v: Seq<CompletedPartInfo>) -> Seq<PartModel> {
    v.map_values(|p: CompletedPartInfo| p@)
}

/// Parts are numbered 1, 2, 3, ... in upload order, as S3 requires.
pub open spec fn consecutively_numbered(parts: Seq<PartModel>) -> bool {
    forall|i: int| 0 <= i < parts.len() ==> (#[trigger] parts[i]).part_number == i + 1
}

/// The parts of a multipart upload uploaded so far.
pub struct MultipartProgress {
    parts: Vec<CompletedPartInfo>,
    next_part_number: i32,
}

impl MultipartProgress {
    #[verifier::type_invariant]
    spec fn inv(self) -> bool {
        &&& consecutively_numbered(parts_view(self.parts@))
        &&& self.next_part_number == self.parts@.len() + 1
    }

    /// The parts uploaded so far, in order.
    pub closed spec fn parts(&self) -> Seq<PartModel> {
        parts_view(self.parts@)
    }

    /// An upload with no part yet.
    pub fn new() -> (r: Self)
        ensures
            r.parts() == Seq::<PartModel>::empty(),
    {
        let r = MultipartProgress { parts: Vec::new(), next_part_number: 1 };
        assert(r.parts() =~= Seq::<PartModel>::empty());
        r
    }

    /// The number the next uploaded part gets.
    pub fn next_part_number(&self) -> (r: i32)
        ensures
            r == self.parts().len() + 1,
    {
        proof {
            use_type_invariant(self);
        }
        self.next_part_number
    }

    /// Records that the next part was uploaded and returned `e_tag`.
    pub fn record_part(&mut self, e_tag: Option<String>)
        requires
            old(self).parts().len() + 1 < i32::MAX,
        ensures
            final(self).parts() == old(self).parts().push(
                PartModel { e_tag: option_text(e_tag), part_number: (old(self).parts().len() + 1) as i32 },
            ),
    {
        proof {
            use_type_invariant(&*self);
        }
        let mut taken = MultipartProgress::new();
        std::mem::swap(&mut taken, self);
        proof {
            use_type_invariant(&taken);
        }
        let number = taken.next_part_number;
        let mut parts = taken.parts;
        parts.push(CompletedPartInfo { e_tag, part_number: number });
        assert(parts_view(parts@) =~= old(self).parts().push(
            PartModel { e_tag: option_text(e_tag), part_number: number },
        ));
        *self = MultipartProgress { parts, next_part_number: number + 1 };
    }

    /// The parts to complete the upload with, in order; an upload without
    /// parts is an error.
    pub fn finish(&self) -> (r: Result<&[CompletedPartInfo], AppError>)
        ensures
            match r {
                Ok(v) => parts_view(v@) == self.parts() && self.parts().len() > 0
                    && consecutively_numbered(parts_view(v@)),
                Err(e) => self.parts().len() == 0 && (e matches AppError::S3Upload(m)
                    && m@ == "multipart upload produced no parts"@),
            },
    {
        proof {
            use_type_invariant(self);
        }
        if self.parts.len() == 0 {
            return Err(AppError::S3Upload(String::from_str("multipart upload produced no parts")));
        }
        Ok(self.parts.as_slice())
    }
}

/// `shiguredo_s3::Config`, carried as an opaque value.
#[verifier::external_type_specification]
#[verifier::external_body]
pub struct ExS3Config(Config);

/// `shiguredo_s3::Client`, carried as an opaque value.
#[verifier::external_type_specification]
#[verifier::external_body]
pub struct ExS3Client(Client);

/// `shiguredo_s3::S3Request`, carried as an opaque value.
#[verifier::external_type_specification]
#[verifier::external_body]
pub struct ExS3Request(S3Request);

/// `shiguredo_s3::S3Response`, carried as an opaque value.
#[verifier::external_type_specification]
#[verifier::external_body]
pub struct ExS3Response(S3Response);

/// `std::time::SystemTime`, carried as an opaque value.
#[verifier::external_type_specification]
#[verifier::external_body]
pub struct ExSystemTime(SystemTime);

/// The configuration `shiguredo_s3::Config::builder` builds from a region,
/// an endpoint, static credentials under a provider name, and the choice of
/// path-style addressing.
pub uninterp spec fn s3_config_of(
    region: Seq<char>,
    endpoint: Seq<char>,
    access_key_id: Seq<char>,
    secret_access_key: Seq<char>,
    provider_name: Seq<char>,
    force_path_style: bool,
) -> Config;

/// The client that `shiguredo_s3::Client::from_conf` makes of a configuration.
pub uninterp spec fn s3_client_of(config: Config) -> Client;

/// The signed CreateMultipartUpload request that `shiguredo_s3` builds, or
/// its error text.
pub uninterp spec fn create_upload_request_of(
    client: Client,
    bucket: Seq<char>,
    key: Seq<char>,
    content_type: Seq<char>,
    now: SystemTime,
) -> Result<S3Request, Seq<char>>;

/// The upload id that `shiguredo_s3` reads from a CreateMultipartUpload
/// response, or its error text.
pub uninterp spec fn created_upload_id_of(response: S3Response) -> Result<Option<Seq<char>>, Seq<char>>;

/// The signed UploadPart request that `shiguredo_s3` builds, or its error
/// text.
pub uninterp spec fn upload_part_request_of(
    client: Client,
    bucket: Seq<char>,
    key: Seq<char>,
    upload_id: Seq<char>,
    part_number: i32,
    body: Seq<u8>,
    now: SystemTime,
) -> Result<S3Request, Seq<char>>;

/// The ETag that `shiguredo_s3` reads from an UploadPart response, or its
/// error text.
pub uninterp spec fn uploaded_part_etag_of(response: S3Response) -> Result<Option<Seq<char>>, Seq<char>>;

/// The signed CompleteMultipartUpload request that `shiguredo_s3` builds for
/// the given parts, or its error text.
pub uninterp spec fn complete_upload_request_of(
    client: Client,
    bucket: Seq<char>,
    key: Seq<char>,
    upload_id: Seq<char>,
    parts: Seq<PartModel>,
    now: SystemTime,
) -> Result<S3Request, Seq<char>>;

/// Whether `shiguredo_s3` reads a CompleteMultipartUpload response as a
/// success (`None`), or the error text.
pub uninterp spec fn completed_upload_error_of(response: S3Response) -> Option<Seq<char>>;

/// A `String` result with an error text, as plain values.
pub open spec fn text_result<T>(r: Result<T, String>) -> Result<T, Seq<char>> {
    match r {
        Ok(v) => Ok(v),
        Err(e) => Err(e@),
    }
}

/// An optional text result with an error text, as plain values.
pub open spec fn optional_text_result(r: Result<Option<String>, String>) -> Result<Option<Seq<char>>, Seq<char>> {
    match r {
        Ok(v) => Ok(option_text(v)),
        Err(e) => Err(e@),
    }
}

/// Builds a `shiguredo_s3::Config` with `Config::builder`: region, static
/// credentials (`Credentials::new` without session token or expiry),
/// endpoint, path-style addressing. The source refuses exactly an empty
/// region, with the error `invalid input: region must not be empty`.
#[verifier::external_body]
fn build_s3_config(
    region: &str,
    endpoint: &str,
    access_key_id: &str,
    secret_access_key: &str,
    provider_name: &'static str,
    force_path_style: bool,
) -> (r: Result<Config, String>)
    ensures
        match r {
            Ok(c) => region@.len() > 0 && c == s3_config_of(
                region@,
                endpoint@,
                access_key_id@,
                secret_access_key@,
                provider_name@,
                force_path_style,
            ),
            Err(e) => region@.len() == 0 && e@ == "invalid input: region must not be empty"@,
        },
{
    let credentials = Credentials::new(access_key_id, secret_access_key, None, None, provider_name);
    Config::builder()
        .region(region)
        .credentials_provider(credentials)
        .endpoint(endpoint)
        .force_path_style(force_path_style)
        .build()
        .map_err(|e| e.to_string())
}

/// Calls `shiguredo_s3::Client::from_conf`.
#[verifier::external_body]
fn s3_client(config: Config) -> (r: Client)
    ensures
        r == s3_client_of(config),
{
    Client::from_conf(config)
}

/// Builds the CreateMultipartUpload request with the client's fluent builder
/// (bucket, key, content type) and `build_request`.
#[verifier::external_body]
fn build_create_request(client: &Client, bucket: &str, key: &str, content_type: &str, now: SystemTime) -> (r: Result<S3Request, String>)
    ensures
        text_result(r) == create_upload_request_of(*client, bucket@, key@, content_type@, now),
{
    client.create_multipart_upload().bucket(bucket).key(key).content_type(content_type).build_request(now).map_err(
        |e| e.to_string(),
    )
}

/// Calls `CreateMultipartUploadFluentBuilder::parse_response` and takes the
/// upload id of the output.
#[verifier::external_body]
fn parse_create_response(response: &S3Response) -> (r: Result<Option<String>, String>)
    ensures
        optional_text_result(r) == created_upload_id_of(*response),
{
    match CreateMultipartUploadFluentBuilder::parse_response(response) {
        Ok(output) => Ok(output.upload_id),
        Err(e) => Err(e.to_string()),
    }
}

/// Builds the UploadPart request with the client's fluent builder (bucket,
/// key, upload id, part number, body) and `build_request`.
#[verifier::external_body]
fn build_part_request(
    client: &Client,
    bucket: &str,
    key: &str,
    upload_id: &str,
    part_number: i32,
    body: Vec<u8>,
    now: SystemTime,
) -> (r: Result<S3Request, String>)
    ensures
        text_result(r) == upload_part_request_of(*client, bucket@, key@, upload_id@, part_number, body@, now),
{
    let builder = client.upload_part().bucket(bucket).key(key).upload_id(upload_id);
    builder.part_number(part_number).body(body).build_request(now).map_err(|e| e.to_string())
}

/// Calls `UploadPartFluentBuilder::parse_response` and takes the ETag of the
/// output.
#[verifier::external_body]
fn parse_part_response(response: &S3Response) -> (r: Result<Option<String>, String>)
    ensures
        optional_text_result(r) == uploaded_part_etag_of(*response),
{
    match UploadPartFluentBuilder::parse_response(response) {
        Ok(output) => Ok(output.e_tag),
        Err(e) => Err(e.to_string()),
    }
}

/// Builds the CompleteMultipartUpload request with the client's fluent
/// builder (bucket, key, upload id, the parts as `CompletedPart`s without
/// checksums) and `build_request`.
#[verifier::external_body]
fn build_complete_request(
    client: &Client,
    bucket: &str,
    key: &str,
    upload_id: &str,
    parts: &[CompletedPartInfo],
    now: SystemTime,
) -> (r: Result<S3Request, String>)
    ensures
        text_result(r) == complete_upload_request_of(*client, bucket@, key@, upload_id@, parts_view(parts@), now),
{
    let parts = parts.iter().map(|p| CompletedPart {
        e_tag: p.e_tag.clone(),
        part_number: Some(p.part_number),
        checksum_crc32: None,
        checksum_crc32_c: None,
        checksum_crc64_nvme: None,
        checksum_sha1: None,
        checksum_sha256: None,
    }).collect();
    let builder = client.complete_multipart_upload().bucket(bucket).key(key).upload_id(upload_id);
    let upload = CompletedMultipartUpload { parts: Some(parts) };
    builder.multipart_upload(upload).build_request(now).map_err(|e| e.to_string())
}

/// Calls `CompleteMultipartUploadFluentBuilder::parse_response`; only
/// success or the error text is kept.
#[verifier::external_body]
fn parse_complete_response(response: &S3Response) -> (r: Result<(), String>)
    ensures
        match r {
            Ok(()) => completed_upload_error_of(*response) is None,
            Err(e) => completed_upload_error_of(*response) == Some(e@),
        },
{
    match CompleteMultipartUploadFluentBuilder::parse_response(response) {
        Ok(_) => Ok(()),
        Err(e) => Err(e.to_string()),
    }
}

/// The upload id of a created multipart upload; its absence is an error.
pub fn upload_id_of(upload_id: Option<String>) -> (r: Result<String, AppError>)
    ensures
        match upload_id {
            Some(id) => r matches Ok(v) && v@ == id@,
            None => r matches Err(AppError::S3Upload(m)) && m@
                == "missing upload_id in multipart response"@,
        },
{
    match upload_id {
        Some(id) => Ok(id),
        None => Err(AppError::S3Upload(String::from_str("missing upload_id in multipart response"))),
    }
}

/// A multipart upload of one recording, step by step: the library builds
/// each request and reads each response; the caller sends the requests.
pub struct MultipartUpload {
    client: Client,
    bucket: String,
    key: String,
    upload_id: Option<String>,
    progress: MultipartProgress,
}

/// The state of a [`MultipartUpload`] as plain values.
pub struct UploadModel {
    pub client: Client,
    pub bucket: Seq<char>,
    pub key: Seq<char>,
    pub upload_id: Option<Seq<char>>,
    pub parts: Seq<PartModel>,
}

impl View for MultipartUpload {
    type V = UploadModel;

    closed spec fn view(&self) -> UploadModel {
        UploadModel {
            client: self.client,
            bucket: self.bucket@,
            key: self.key@,
            upload_id: option_text(self.upload_id),
            parts: self.progress.parts(),
        }
    }
}

/// The error an upload step reports for an error text.
pub open spec fn is_upload_error(e: AppError, text: Seq<char>) -> bool {
    e matches AppError::S3Upload(m) && m@ == text
}

/// `r` is the `S3Upload` error with the text `text`.
pub open spec fn fails_with<T>(r: Result<T, AppError>, text: Seq<char>) -> bool {
    match r {
        Ok(_) => false,
        Err(e) => is_upload_error(e, text),
    }
}

/// A request result as the upload step reports it: the request, or the
/// error text as an `S3Upload` error.
pub open spec fn request_result_matches(r: Result<S3Request, AppError>, built: Result<S3Request, Seq<char>>) -> bool {
    match built {
        Ok(q) => r matches Ok(x) && x == q,
        Err(m) => fails_with(r, m),
    }
}

impl MultipartUpload {
    /// A new upload of `key` into the configured bucket, with a client for
    /// the configured endpoint, region and credentials, using path-style
    /// addressing. An empty region is refused.
    pub fn new(config: &AppConfig, key: &str) -> (r: Result<Self, AppError>)
        ensures
            match r {
                Ok(u) => {
                    &&& config.s3_region@.len() > 0
                    &&& u@ == (UploadModel {
                        client: s3_client_of(
                            s3_config_of(
                                config.s3_region@,
                                config.s3_endpoint@,
                                config.aws_access_key_id@,
                                config.aws_secret_access_key@,
                                S3_CREDENTIALS_PROVIDER@,
                                true,
                            ),
                        ),
                        bucket: config.s3_bucket@,
                        key: key@,
                        upload_id: None,
                        parts: Seq::empty(),
                    })
                },
                Err(e) => config.s3_region@.len() == 0 && is_upload_error(e, "invalid input: region must not be empty"@),
            },
    {
        let s3_config = match build_s3_config(
            config.s3_region.as_str(),
            config.s3_endpoint.as_str(),
            config.aws_access_key_id.as_str(),
            config.aws_secret_access_key.as_str(),
            S3_CREDENTIALS_PROVIDER,
            true,
        ) {
            Ok(c) => c,
            Err(msg) => return Err(AppError::S3Upload(msg)),
        };
        Ok(
            MultipartUpload {
                client: s3_client(s3_config),
                bucket: config.s3_bucket.clone(),
                key: String::from_str(key),
                upload_id: None,
                progress: MultipartProgress::new(),
            },
        )
    }

    /// Whether the upload has been created and has its id.
    pub fn has_upload_id(&self) -> (r: bool)
        ensures
            r == self@.upload_id is Some,
    {
        self.upload_id.is_some()
    }

    /// The number of parts uploaded so far.
    pub fn part_count(&self) -> (r: usize)
        ensures
            r == self@.parts.len(),
    {
        self.progress.parts.len()
    }

    /// The request that creates the upload, for an MP4 recording.
    pub fn create_request(&self, now: SystemTime) -> (r: Result<S3Request, AppError>)
        ensures
            request_result_matches(
                r,
                create_upload_request_of(self@.client, self@.bucket, self@.key, MP4_CONTENT_TYPE@, now),
            ),
    {
        match build_create_request(&self.client, self.bucket.as_str(), self.key.as_str(), MP4_CONTENT_TYPE, now) {
            Ok(q) => Ok(q),
            Err(msg) => Err(AppError::S3Upload(msg)),
        }
    }

    /// Takes the answer to the create request: the upload id it carries. An
    /// answer without an id, or one that cannot be read, is an error and
    /// changes nothing.
    pub fn take_create_response(&mut self, response: &S3Response) -> (r: Result<(), AppError>)
        ensures
            match created_upload_id_of(*response) {
                Ok(Some(id)) => r is Ok && final(self)@ == (UploadModel { upload_id: Some(id), ..old(self)@ }),
                Ok(None) => final(self)@ == old(self)@ && fails_with(
                    r,
                    "missing upload_id in multipart response"@,
                ),
                Err(m) => final(self)@ == old(self)@ && fails_with(r, m),
            },
    {
        match parse_create_response(response) {
            Ok(found) => match upload_id_of(found) {
                Ok(id) => {
                    self.upload_id = Some(id);
                    Ok(())
                },
                Err(e) => Err(e),
            },
            Err(msg) => Err(AppError::S3Upload(msg)),
        }
    }

    /// The request that uploads `body` as the next part.
    pub fn part_request(&self, body: Vec<u8>, now: SystemTime) -> (r: Result<S3Request, AppError>)
        requires
            self@.upload_id is Some,
        ensures
            request_result_matches(
                r,
                upload_part_request_of(
                    self@.client,
                    self@.bucket,
                    self@.key,
                    self@.upload_id->Some_0,
                    (self@.parts.len() + 1) as i32,
                    body@,
                    now,
                ),
            ),
    {
        let part_number = self.progress.next_part_number();
        let upload_id = match &self.upload_id {
            Some(id) => id,
            None => { return unreached() },
        };
        match build_part_request(
            &self.client,
            self.bucket.as_str(),
            self.key.as_str(),
            upload_id.as_str(),
            part_number,
            body,
            now,
        ) {
            Ok(q) => Ok(q),
            Err(msg) => Err(AppError::S3Upload(msg)),
        }
    }

    /// Takes the answer to a part upload: the part is recorded with the ETag
    /// it carries, numbered after the parts before it. An answer that cannot
    /// be read is an error and changes nothing.
    pub fn take_part_response(&mut self, response: &S3Response) -> (r: Result<(), AppError>)
        requires
            old(self)@.parts.len() + 1 < i32::MAX,
        ensures
            match uploaded_part_etag_of(*response) {
                Ok(e_tag) => r is Ok && final(self)@ == (UploadModel {
                    parts: old(self)@.parts.push(
                        PartModel { e_tag, part_number: (old(self)@.parts.len() + 1) as i32 },
                    ),
                    ..old(self)@
                }),
                Err(m) => final(self)@ == old(self)@ && fails_with(r, m),
            },
            consecutively_numbered(final(self)@.parts),
    {
        proof {
            use_type_invariant(&self.progress);
        }
        match parse_part_response(response) {
            Ok(e_tag) => {
                self.progress.record_part(e_tag);
                proof {
                    use_type_invariant(&self.progress);
                }
                Ok(())
            },
            Err(msg) => Err(AppError::S3Upload(msg)),
        }
    }

    /// The request that completes the upload with every part recorded; an
    /// upload without parts is an error.
    pub fn complete_request(&self, now: SystemTime) -> (r: Result<S3Request, AppError>)
        requires
            self@.upload_id is Some,
        ensures
            self@.parts.len() == 0 ==> fails_with(r, "multipart upload produced no parts"@),
            self@.parts.len() > 0 ==> request_result_matches(
                r,
                complete_upload_request_of(
                    self@.client,
                    self@.bucket,
                    self@.key,
                    self@.upload_id->Some_0,
                    self@.parts,
                    now,
                ),
            ),
    {
        let parts = match self.progress.finish() {
            Ok(p) => p,
            Err(e) => return Err(e),
        };
        let upload_id = match &self.upload_id {
            Some(id) => id,
            None => { return unreached() },
        };
        match build_complete_request(
            &self.client,
            self.bucket.as_str(),
            self.key.as_str(),
            upload_id.as_str(),
            parts,
            now,
        ) {
            Ok(q) => Ok(q),
            Err(msg) => Err(AppError::S3Upload(msg)),
        }
    }

    /// Takes the answer to the complete request.
    pub fn take_complete_response(&self, response: &S3Response) -> (r: Result<(), AppError>)
        ensures
            match completed_upload_error_of(*response) {
                None => r is Ok,
                Some(m) => fails_with(r, m),
            },
    {
        match parse_complete_response(response) {
            Ok(()) => Ok(()),
            Err(msg) => Err(AppError::S3Upload(msg)),
        }
    }
}

/// The URL an S3 request is sent to: `<scheme>://<host>:<port><uri>`.
pub open spec fn s3_request_url_text(https: bool, host: Seq<char>, port: u16, uri: Seq<char>) -> Seq<char> {
    (if https { "https"@ } else { "http"@ }) + "://"@ + host + ":"@ + decimal_seq(port as nat) + uri
}

/// The URL an S3 request is sent to.
pub fn s3_request_url(https: bool, host: &str, port: u16, uri: &str) -> (r: String)
    ensures
        r@ == s3_request_url_text(https, host@, port, uri@),
{
    let mut out: Vec<char> = Vec::new();
    push_str(&mut out, if https { "https" } else { "http" });
    push_str(&mut out, "://");
    push_str(&mut out, host);
    push_str(&mut out, ":");
    push_decimal(&mut out, port as u64);
    push_str(&mut out, uri);
    string_from_chars(out.as_slice())
}

/// The error reported for a failed step of an upload.
pub fn s3_upload_error(detail: &str) -> (r: AppError)
    ensures
        r matches AppError::S3Upload(m) && m@ == detail@,
{
    AppError::S3Upload(String::from_str(detail))
}

} // verus!
