use vstd::prelude::*;

verus! {

/// `std::io::Error`, carried through as an opaque value.
#[verifier::external_type_specification]
#[verifier::external_body]
pub struct ExIoError(std::io::Error);

/// `time::error::ComponentRange`, carried through as an opaque value.
#[verifier::external_type_specification]
#[verifier::external_body]
pub struct ExComponentRange(time::error::ComponentRange);

/// `shiguredo_rtsp::Error`, carried through as an opaque value.
#[verifier::external_type_specification]
#[verifier::external_body]
pub struct ExRtspError(shiguredo_rtsp::Error);

/// Every failure the recorder reports.
#[derive(Debug)]
pub enum AppError {
    MissingEnv(&'static str),
    InvalidEnv { name: &'static str, reason: String },
    Io(std::io::Error),
    Time(time::error::ComponentRange),
    Rtsp(shiguredo_rtsp::Error),
    Uri(String),
    Sdp(String),
    Mp4Mux(String),
    S3Upload(String),
    Recording(String),
}

} // verus!
