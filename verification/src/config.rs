use std::collections::HashMap;
use vstd::prelude::*;

use crate::error::AppError;
use crate::text::{
    decimal_seq, lemma_parse_reads_decimal, parse_u64, parse_u8, parse_unsigned, seq_starts_with,
    starts_with, trim_seq, trim_str,
};

verus! {

/// Runtime settings of the recorder, read from environment variables.
#[derive(Debug, Clone, PartialEq, Eq)]
pub struct AppConfig {
    pub rtsp_url: String,
    pub s3_endpoint: String,
    pub s3_region: String,
    pub aws_access_key_id: String,
    pub aws_secret_access_key: String,
    pub s3_bucket: String,
    pub camera_id: String,
    pub record_seconds: u64,
    pub ffmpeg_loglevel: String,
    pub ffmpeg_video_codec: String,
    pub ffmpeg_audio_codec: String,
    pub ffmpeg_audio_bitrate: String,
    pub ffmpeg_preset: String,
    pub ffmpeg_crf: u8,
}

/// The settings of an [`AppConfig`] as plain values.
pub struct ConfigModel {
    pub rtsp_url: Seq<char>,
    pub s3_endpoint: Seq<char>,
    pub s3_region: Seq<char>,
    pub aws_access_key_id: Seq<char>,
    pub aws_secret_access_key: Seq<char>,
    pub s3_bucket: Seq<char>,
    pub camera_id: Seq<char>,
    pub record_seconds: u64,
    pub ffmpeg_loglevel: Seq<char>,
    pub ffmpeg_video_codec: Seq<char>,
    pub ffmpeg_audio_codec: Seq<char>,
    pub ffmpeg_audio_bitrate: Seq<char>,
    pub ffmpeg_preset: Seq<char>,
    pub ffmpeg_crf: u8,
}

impl View for AppConfig {
    type V = ConfigModel;

    open spec fn view(&self) -> ConfigModel {
        ConfigModel {
            rtsp_url: self.rtsp_url@,
            s3_endpoint: self.s3_endpoint@,
            s3_region: self.s3_region@,
            aws_access_key_id: self.aws_access_key_id@,
            aws_secret_access_key: self.aws_secret_access_key@,
            s3_bucket: self.s3_bucket@,
            camera_id: self.camera_id@,
            record_seconds: self.record_seconds,
            ffmpeg_loglevel: self.ffmpeg_loglevel@,
            ffmpeg_video_codec: self.ffmpeg_video_codec@,
            ffmpeg_audio_codec: self.ffmpeg_audio_codec@,
            ffmpeg_audio_bitrate: self.ffmpeg_audio_bitrate@,
            ffmpeg_preset: self.ffmpeg_preset@,
            ffmpeg_crf: self.ffmpeg_crf,
        }
    }
}

/// Why a set of variables was refused, as plain values.
pub enum ConfigProblem {
    Missing(Seq<char>),
    Invalid(Seq<char>, Seq<char>),
}

/// The configuration problem an error reports, if it is one.
pub open spec fn config_problem(e: AppError) -> Option<ConfigProblem> {
    match e {
        AppError::MissingEnv(name) => Some(ConfigProblem::Missing(name@)),
        AppError::InvalidEnv { name, reason } => Some(ConfigProblem::Invalid(name@, reason@)),
        _ => None,
    }
}

/// The value stored under the key whose text is `name`, if any.
pub open spec fn env_lookup(vars: Map<String, String>, name: Seq<char>) -> Option<Seq<char>> {
    if exists|k: String| vars.contains_key(k) && k@ == name {
        Some(vars[choose|k: String| vars.contains_key(k) && k@ == name]@)
    } else {
        None
    }
}

/// Calls `HashMap::get` with a `&str` key: a `String` key matches exactly
/// when its text equals `name`, and a map holds at most one such key.
#[verifier::external_body]
fn env_get<'a>(vars: &'a HashMap<String, String>, name: &str) -> (r: Option<&'a String>)
    ensures
        match r {
            Some(v) => env_lookup(vars@, name@) == Some(v@),
            None => env_lookup(vars@, name@) is None,
        },
{
    vars.get(name)
}

/// A variable that must be present.
pub open spec fn required_var(vars: Map<String, String>, name: Seq<char>) -> Result<
    Seq<char>,
    ConfigProblem,
> {
    match env_lookup(vars, name) {
        Some(v) => Ok(v),
        None => Err(ConfigProblem::Missing(name)),
    }
}

/// A variable that falls back to `default` when absent.
pub open spec fn var_or(vars: Map<String, String>, name: Seq<char>, default: Seq<char>) -> Seq<char> {
    match env_lookup(vars, name) {
        Some(v) => v,
        None => default,
    }
}

/// A text setting with a default that must not be blank.
pub open spec fn nonblank_setting(vars: Map<String, String>, name: Seq<char>, default: Seq<char>) -> Result<
    Seq<char>,
    ConfigProblem,
> {
    let v = var_or(vars, name, default);
    if trim_seq(v).len() == 0 {
        Err(ConfigProblem::Invalid(name, "must not be empty"@))
    } else {
        Ok(v)
    }
}

/// `RECORD_SECONDS`: a positive integer, 3600 when absent.
pub open spec fn record_seconds_setting(vars: Map<String, String>) -> Result<u64, ConfigProblem> {
    match env_lookup(vars, "RECORD_SECONDS"@) {
        None => Ok(AppConfig::DEFAULT_RECORD_SECONDS),
        Some(v) => match parse_unsigned(v, u64::MAX as nat) {
            None => Err(ConfigProblem::Invalid("RECORD_SECONDS"@, "must be an integer"@)),
            Some(n) => if n == 0 {
                Err(ConfigProblem::Invalid("RECORD_SECONDS"@, "must be > 0"@))
            } else {
                Ok(n as u64)
            },
        },
    }
}

/// `FFMPEG_CRF`: an integer in `0..=51`, 23 when absent.
pub open spec fn crf_setting(vars: Map<String, String>) -> Result<u8, ConfigProblem> {
    match env_lookup(vars, "FFMPEG_CRF"@) {
        None => Ok(AppConfig::DEFAULT_FFMPEG_CRF),
        Some(v) => match parse_unsigned(v, u8::MAX as nat) {
            None => Err(ConfigProblem::Invalid("FFMPEG_CRF"@, "must be an integer"@)),
            Some(n) => if n > AppConfig::MAX_FFMPEG_CRF {
                Err(ConfigProblem::Invalid("FFMPEG_CRF"@, "must be <= 51"@))
            } else {
                Ok(n as u8)
            },
        },
    }
}

/// The configuration the variables describe, or the first problem found, in
/// this order: `RTSP_URL` (present, starting with `rtsp://`), the S3 endpoint,
/// region and the two credentials (present), `RECORD_SECONDS`, the ffmpeg
/// preset, log level, video codec, audio codec and audio bitrate (not blank),
/// and `FFMPEG_CRF`.
pub open spec fn config_from_vars(vars: Map<String, String>) -> Result<ConfigModel, ConfigProblem> {
    match required_var(vars, "RTSP_URL"@) {
        Err(e) => Err(e),
        Ok(rtsp_url) => if !seq_starts_with(rtsp_url, "rtsp://"@) {
            Err(ConfigProblem::Invalid("RTSP_URL"@, "must start with rtsp://"@))
        } else {
            match required_var(vars, "RUSTFS_S3_ENDPOINT"@) {
                Err(e) => Err(e),
                Ok(s3_endpoint) => match required_var(vars, "RUSTFS_S3_REGION"@) {
                    Err(e) => Err(e),
                    Ok(s3_region) => match required_var(vars, "AWS_ACCESS_KEY_ID"@) {
                        Err(e) => Err(e),
                        Ok(aws_access_key_id) => match required_var(vars, "AWS_SECRET_ACCESS_KEY"@) {
                            Err(e) => Err(e),
                            Ok(aws_secret_access_key) => config_settings(
                                vars,
                                rtsp_url,
                                s3_endpoint,
                                s3_region,
                                aws_access_key_id,
                                aws_secret_access_key,
                            ),
                        },
                    },
                },
            }
        },
    }
}

/// The rest of [`config_from_vars`], once the required variables are known.
pub open spec fn config_settings(
    vars: Map<String, String>,
    rtsp_url: Seq<char>,
    s3_endpoint: Seq<char>,
    s3_region: Seq<char>,
    aws_access_key_id: Seq<char>,
    aws_secret_access_key: Seq<char>,
) -> Result<ConfigModel, ConfigProblem> {
    let s3_bucket = var_or(vars, "S3_BUCKET"@, AppConfig::DEFAULT_BUCKET@);
    let camera_id = var_or(vars, "CAMERA_ID"@, AppConfig::DEFAULT_CAMERA_ID@);
    match record_seconds_setting(vars) {
        Err(e) => Err(e),
        Ok(record_seconds) => match nonblank_setting(vars, "FFMPEG_PRESET"@, AppConfig::DEFAULT_FFMPEG_PRESET@) {
            Err(e) => Err(e),
            Ok(ffmpeg_preset) => match nonblank_setting(vars, "FFMPEG_LOGLEVEL"@, AppConfig::DEFAULT_FFMPEG_LOGLEVEL@) {
                Err(e) => Err(e),
                Ok(ffmpeg_loglevel) => match nonblank_setting(vars, "FFMPEG_VIDEO_CODEC"@, AppConfig::DEFAULT_FFMPEG_VIDEO_CODEC@) {
                    Err(e) => Err(e),
                    Ok(ffmpeg_video_codec) => match nonblank_setting(vars, "FFMPEG_AUDIO_CODEC"@, AppConfig::DEFAULT_FFMPEG_AUDIO_CODEC@) {
                        Err(e) => Err(e),
                        Ok(ffmpeg_audio_codec) => match nonblank_setting(vars, "FFMPEG_AUDIO_BITRATE"@, AppConfig::DEFAULT_FFMPEG_AUDIO_BITRATE@) {
                            Err(e) => Err(e),
                            Ok(ffmpeg_audio_bitrate) => match crf_setting(vars) {
                                Err(e) => Err(e),
                                Ok(ffmpeg_crf) => Ok(
                                    ConfigModel {
                                        rtsp_url,
                                        s3_endpoint,
                                        s3_region,
                                        aws_access_key_id,
                                        aws_secret_access_key,
                                        s3_bucket,
                                        camera_id,
                                        record_seconds,
                                        ffmpeg_loglevel,
                                        ffmpeg_video_codec,
                                        ffmpeg_audio_codec,
                                        ffmpeg_audio_bitrate,
                                        ffmpeg_preset,
                                        ffmpeg_crf,
                                    },
                                ),
                            },
                        },
                    },
                },
            },
        },
    }
}

/// The result of [`AppConfig::from_map`] as plain values.
pub open spec fn config_result_matches(r: Result<AppConfig, AppError>, vars: Map<String, String>) -> bool {
    match r {
        Ok(c) => config_from_vars(vars) == Ok::<ConfigModel, ConfigProblem>(c@),
        Err(e) => config_problem(e) is Some && config_from_vars(vars) == Err::<ConfigModel, ConfigProblem>(
            config_problem(e)->Some_0,
        ),
    }
}

/// Looks up a variable that must be present.
fn required(vars: &HashMap<String, String>, key: &'static str) -> (r: Result<String, AppError>)
    ensures
        match r {
            Ok(v) => required_var(vars@, key@) == Ok::<Seq<char>, ConfigProblem>(v@),
            Err(e) => e == AppError::MissingEnv(key) && required_var(vars@, key@) is Err,
        },
{
    match env_get(vars, key) {
        Some(v) => Ok(v.clone()),
        None => Err(AppError::MissingEnv(key)),
    }
}

/// Looks up a variable that falls back to `default`.
fn var_or_default(vars: &HashMap<String, String>, key: &'static str, default: &str) -> (r: String)
    ensures
        r@ == var_or(vars@, key@, default@),
{
    match env_get(vars, key) {
        Some(v) => v.clone(),
        None => String::from_str(default),
    }
}

/// Looks up a text setting that must not be blank.
fn nonblank(vars: &HashMap<String, String>, key: &'static str, default: &str) -> (r: Result<String, AppError>)
    ensures
        match r {
            Ok(v) => nonblank_setting(vars@, key@, default@) == Ok::<Seq<char>, ConfigProblem>(v@),
            Err(e) => config_problem(e) is Some && nonblank_setting(vars@, key@, default@) == Err::<
                Seq<char>,
                ConfigProblem,
            >(config_problem(e)->Some_0),
        },
{
    let v = var_or_default(vars, key, default);
    if trim_str(v.as_str()).is_empty() {
        return Err(AppError::InvalidEnv { name: key, reason: String::from_str("must not be empty") });
    }
    Ok(v)
}

impl AppConfig {
    /// Bucket used when `S3_BUCKET` is absent.
    pub const DEFAULT_BUCKET: &'static str = "home-camera-recordings";
    /// Camera id used when `CAMERA_ID` is absent.
    pub const DEFAULT_CAMERA_ID: &'static str = "camera";
    /// Recording length used when `RECORD_SECONDS` is absent: one hour.
    pub const DEFAULT_RECORD_SECONDS: u64 = 3600;
    /// ffmpeg log level used when `FFMPEG_LOGLEVEL` is absent.
    pub const DEFAULT_FFMPEG_LOGLEVEL: &'static str = "error";
    /// Video codec used when `FFMPEG_VIDEO_CODEC` is absent.
    pub const DEFAULT_FFMPEG_VIDEO_CODEC: &'static str = "libx264";
    /// Audio codec used when `FFMPEG_AUDIO_CODEC` is absent.
    pub const DEFAULT_FFMPEG_AUDIO_CODEC: &'static str = "aac";
    /// Audio bitrate used when `FFMPEG_AUDIO_BITRATE` is absent.
    pub const DEFAULT_FFMPEG_AUDIO_BITRATE: &'static str = "128k";
    /// x264 preset used when `FFMPEG_PRESET` is absent.
    pub const DEFAULT_FFMPEG_PRESET: &'static str = "veryfast";
    /// x264 CRF used when `FFMPEG_CRF` is absent.
    pub const DEFAULT_FFMPEG_CRF: u8 = 23;
    /// Largest CRF accepted.
    pub const MAX_FFMPEG_CRF: u8 = 51;

    /// Reads the configuration from a map of environment variables; the
    /// result and each error are those [`config_from_vars`] describes.
    pub fn from_map(vars: &HashMap<String, String>) -> (r: Result<Self, AppError>)
        ensures
            config_result_matches(r, vars@),
    {
        let rtsp_url = match required(vars, "RTSP_URL") {
            Ok(v) => v,
            Err(e) => return Err(e),
        };
        if !starts_with(rtsp_url.as_str(), "rtsp://") {
            return Err(AppError::InvalidEnv {
                name: "RTSP_URL",
                reason: String::from_str("must start with rtsp://"),
            });
        }
        let s3_endpoint = match required(vars, "RUSTFS_S3_ENDPOINT") {
            Ok(v) => v,
            Err(e) => return Err(e),
        };
        let s3_region = match required(vars, "RUSTFS_S3_REGION") {
            Ok(v) => v,
            Err(e) => return Err(e),
        };
        let aws_access_key_id = match required(vars, "AWS_ACCESS_KEY_ID") {
            Ok(v) => v,
            Err(e) => return Err(e),
        };
        let aws_secret_access_key = match required(vars, "AWS_SECRET_ACCESS_KEY") {
            Ok(v) => v,
            Err(e) => return Err(e),
        };
        let s3_bucket = var_or_default(vars, "S3_BUCKET", Self::DEFAULT_BUCKET);
        let camera_id = var_or_default(vars, "CAMERA_ID", Self::DEFAULT_CAMERA_ID);

        let record_seconds = match env_get(vars, "RECORD_SECONDS") {
            Some(v) => {
                let parsed = match parse_u64(v.as_str()) {
                    Some(n) => n,
                    None => {
                        return Err(AppError::InvalidEnv {
                            name: "RECORD_SECONDS",
                            reason: String::from_str("must be an integer"),
                        });
                    },
                };
                if parsed == 0 {
                    return Err(AppError::InvalidEnv {
                        name: "RECORD_SECONDS",
                        reason: String::from_str("must be > 0"),
                    });
                }
                parsed
            },
            None => Self::DEFAULT_RECORD_SECONDS,
        };

        let ffmpeg_preset = match nonblank(vars, "FFMPEG_PRESET", Self::DEFAULT_FFMPEG_PRESET) {
            Ok(v) => v,
            Err(e) => return Err(e),
        };
        let ffmpeg_loglevel = match nonblank(vars, "FFMPEG_LOGLEVEL", Self::DEFAULT_FFMPEG_LOGLEVEL) {
            Ok(v) => v,
            Err(e) => return Err(e),
        };
        let ffmpeg_video_codec = match nonblank(vars, "FFMPEG_VIDEO_CODEC", Self::DEFAULT_FFMPEG_VIDEO_CODEC) {
            Ok(v) => v,
            Err(e) => return Err(e),
        };
        let ffmpeg_audio_codec = match nonblank(vars, "FFMPEG_AUDIO_CODEC", Self::DEFAULT_FFMPEG_AUDIO_CODEC) {
            Ok(v) => v,
            Err(e) => return Err(e),
        };
        let ffmpeg_audio_bitrate = match nonblank(vars, "FFMPEG_AUDIO_BITRATE", Self::DEFAULT_FFMPEG_AUDIO_BITRATE) {
            Ok(v) => v,
            Err(e) => return Err(e),
        };

        let ffmpeg_crf = match env_get(vars, "FFMPEG_CRF") {
            Some(v) => {
                let parsed = match parse_u8(v.as_str()) {
                    Some(n) => n,
                    None => {
                        return Err(AppError::InvalidEnv {
                            name: "FFMPEG_CRF",
                            reason: String::from_str("must be an integer"),
                        });
                    },
                };
                if parsed > Self::MAX_FFMPEG_CRF {
                    return Err(AppError::InvalidEnv {
                        name: "FFMPEG_CRF",
                        reason: String::from_str("must be <= 51"),
                    });
                }
                parsed
            },
            None => Self::DEFAULT_FFMPEG_CRF,
        };

        Ok(AppConfig {
            rtsp_url,
            s3_endpoint,
            s3_region,
            aws_access_key_id,
            aws_secret_access_key,
            s3_bucket,
            camera_id,
            record_seconds,
            ffmpeg_loglevel,
            ffmpeg_video_codec,
            ffmpeg_audio_codec,
            ffmpeg_audio_bitrate,
            ffmpeg_preset,
            ffmpeg_crf,
        })
    }
}


/// The variables that must be present.
pub open spec fn is_required_var(name: Seq<char>) -> bool {
    ||| name == "RTSP_URL"@
    ||| name == "RUSTFS_S3_ENDPOINT"@
    ||| name == "RUSTFS_S3_REGION"@
    ||| name == "AWS_ACCESS_KEY_ID"@
    ||| name == "AWS_SECRET_ACCESS_KEY"@
}

/// Without any one of the required variables the configuration is refused.
pub proof fn lemma_missing_required_is_rejected(vars: Map<String, String>, name: Seq<char>)
    requires
        is_required_var(name),
        env_lookup(vars, name) is None,
    ensures
        config_from_vars(vars) is Err,
{
}

/// An accepted configuration keeps the documented constraints: the URL is an
/// `rtsp://` URL, the recording length is positive, the CRF is at most 51,
/// and no ffmpeg text setting is blank.
pub proof fn lemma_accepted_config_is_valid(vars: Map<String, String>)
    requires
        config_from_vars(vars) is Ok,
    ensures
        ({
            let c = config_from_vars(vars)->Ok_0;
            &&& seq_starts_with(c.rtsp_url, "rtsp://"@)
            &&& c.record_seconds > 0
            &&& c.ffmpeg_crf <= 51
            &&& trim_seq(c.ffmpeg_preset).len() > 0
            &&& trim_seq(c.ffmpeg_loglevel).len() > 0
            &&& trim_seq(c.ffmpeg_video_codec).len() > 0
            &&& trim_seq(c.ffmpeg_audio_codec).len() > 0
            &&& trim_seq(c.ffmpeg_audio_bitrate).len() > 0
        }),
{
}

/// Optional settings that are absent take their defaults.
pub proof fn lemma_absent_settings_take_defaults(vars: Map<String, String>)
    requires
        config_from_vars(vars) is Ok,
    ensures
        ({
            let c = config_from_vars(vars)->Ok_0;
            &&& env_lookup(vars, "S3_BUCKET"@) is None ==> c.s3_bucket == AppConfig::DEFAULT_BUCKET@
            &&& env_lookup(vars, "CAMERA_ID"@) is None ==> c.camera_id == AppConfig::DEFAULT_CAMERA_ID@
            &&& env_lookup(vars, "RECORD_SECONDS"@) is None ==> c.record_seconds
                == AppConfig::DEFAULT_RECORD_SECONDS
            &&& env_lookup(vars, "FFMPEG_PRESET"@) is None ==> c.ffmpeg_preset
                == AppConfig::DEFAULT_FFMPEG_PRESET@
            &&& env_lookup(vars, "FFMPEG_LOGLEVEL"@) is None ==> c.ffmpeg_loglevel
                == AppConfig::DEFAULT_FFMPEG_LOGLEVEL@
            &&& env_lookup(vars, "FFMPEG_VIDEO_CODEC"@) is None ==> c.ffmpeg_video_codec
                == AppConfig::DEFAULT_FFMPEG_VIDEO_CODEC@
            &&& env_lookup(vars, "FFMPEG_AUDIO_CODEC"@) is None ==> c.ffmpeg_audio_codec
                == AppConfig::DEFAULT_FFMPEG_AUDIO_CODEC@
            &&& env_lookup(vars, "FFMPEG_AUDIO_BITRATE"@) is None ==> c.ffmpeg_audio_bitrate
                == AppConfig::DEFAULT_FFMPEG_AUDIO_BITRATE@
            &&& env_lookup(vars, "FFMPEG_CRF"@) is None ==> c.ffmpeg_crf == AppConfig::DEFAULT_FFMPEG_CRF
        }),
{
}


/// A `RECORD_SECONDS` of zero is refused.
pub proof fn lemma_zero_record_seconds_is_rejected(vars: Map<String, String>)
    requires
        env_lookup(vars, "RECORD_SECONDS"@) == Some(decimal_seq(0)),
    ensures
        record_seconds_setting(vars) == Err::<u64, ConfigProblem>(
            ConfigProblem::Invalid("RECORD_SECONDS"@, "must be > 0"@),
        ),
        config_from_vars(vars) is Err,
{
    lemma_parse_reads_decimal(0, u64::MAX as nat);
}

/// A `FFMPEG_CRF` above 51 (that still fits a byte) is refused.
pub proof fn lemma_crf_above_max_is_rejected(vars: Map<String, String>, crf: u8)
    requires
        env_lookup(vars, "FFMPEG_CRF"@) == Some(decimal_seq(crf as nat)),
        crf > 51,
    ensures
        crf_setting(vars) == Err::<u8, ConfigProblem>(ConfigProblem::Invalid("FFMPEG_CRF"@, "must be <= 51"@)),
        config_from_vars(vars) is Err,
{
    lemma_parse_reads_decimal(crf as nat, u8::MAX as nat);
}

/// The ffmpeg text settings.
pub open spec fn is_ffmpeg_text_setting(name: Seq<char>) -> bool {
    ||| name == "FFMPEG_PRESET"@
    ||| name == "FFMPEG_LOGLEVEL"@
    ||| name == "FFMPEG_VIDEO_CODEC"@
    ||| name == "FFMPEG_AUDIO_CODEC"@
    ||| name == "FFMPEG_AUDIO_BITRATE"@
}

/// An ffmpeg text setting that is given but blank is refused.
pub proof fn lemma_blank_ffmpeg_setting_is_rejected(vars: Map<String, String>, name: Seq<char>, value: Seq<char>)
    requires
        is_ffmpeg_text_setting(name),
        env_lookup(vars, name) == Some(value),
        trim_seq(value).len() == 0,
    ensures
        config_from_vars(vars) is Err,
{
}

/// A positive `RECORD_SECONDS` written in decimal is read back exactly.
pub proof fn lemma_record_seconds_reads_decimal(vars: Map<String, String>, n: u64)
    requires
        env_lookup(vars, "RECORD_SECONDS"@) == Some(decimal_seq(n as nat)),
        n > 0,
    ensures
        record_seconds_setting(vars) == Ok::<u64, ConfigProblem>(n),
        config_from_vars(vars) is Ok ==> config_from_vars(vars)->Ok_0.record_seconds == n,
{
    lemma_parse_reads_decimal(n as nat, u64::MAX as nat);
}

/// A `FFMPEG_CRF` from 0 to 51 written in decimal is read back exactly.
pub proof fn lemma_crf_reads_decimal(vars: Map<String, String>, crf: u8)
    requires
        env_lookup(vars, "FFMPEG_CRF"@) == Some(decimal_seq(crf as nat)),
        crf <= 51,
    ensures
        crf_setting(vars) == Ok::<u8, ConfigProblem>(crf),
        config_from_vars(vars) is Ok ==> config_from_vars(vars)->Ok_0.ffmpeg_crf == crf,
{
    lemma_parse_reads_decimal(crf as nat, u8::MAX as nat);
}

} // verus!
