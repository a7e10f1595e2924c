use vstd::prelude::*;

use crate::error::AppError;
use crate::text::{
    ascii_lower_seq, ascii_lowercase, chars_equal, chars_of, decimal_seq, decimal_string,
    lemma_parse_reads_decimal, parse_unsigned,
    eq_ignore_ascii_case, push_chars, push_str, string_from_chars,
};

verus! {

/// What a finished recording reports.
#[derive(Debug, Clone, Copy)]
pub struct RecorderStats {
    pub recorded_seconds: u64,
}

/// `reqwest::Url` (the `url` crate's `Url`), carried as an opaque value.
#[verifier::external_type_specification]
#[verifier::external_body]
pub struct ExUrl(reqwest::Url);

/// What `Url::parse` gives for `s`: the URL, or the message of its error.
pub uninterp spec fn parsed_url_of(s: Seq<char>) -> Result<reqwest::Url, Seq<char>>;

/// The scheme of a parsed URL, as `Url::scheme` returns it.
pub uninterp spec fn url_scheme_of(u: reqwest::Url) -> Seq<char>;

/// Whether `Url::host_str` finds a host in a parsed URL.
pub uninterp spec fn url_has_host_of(u: reqwest::Url) -> bool;

/// Calls `reqwest::Url::parse`; an error is kept as its message.
#[verifier::external_body]
fn parse_url(s: &str) -> (r: Result<reqwest::Url, String>)
    ensures
        match r {
            Ok(u) => parsed_url_of(s@) == Ok::<reqwest::Url, Seq<char>>(u),
            Err(m) => parsed_url_of(s@) == Err::<reqwest::Url, Seq<char>>(m@),
        },
{
    reqwest::Url::parse(s).map_err(|e| e.to_string())
}

/// Calls `Url::scheme`, documented to be lower-cased ASCII.
#[verifier::external_body]
fn url_scheme(u: &reqwest::Url) -> (r: String)
    ensures
        r@ == url_scheme_of(*u),
        ascii_lower_seq(r@) == r@,
{
    u.scheme().to_string()
}

/// Whether `Url::host_str` returns a host.
#[verifier::external_body]
fn url_has_host(u: &reqwest::Url) -> (r: bool)
    ensures
        r == url_has_host_of(*u),
{
    u.host_str().is_some()
}

/// The scheme an RTSP URL must have.
pub const RTSP_SCHEME: &'static str = "rtsp";

/// Why an RTSP URL is refused, as plain values.
pub enum UrlProblem {
    /// The URL does not parse; the parser's message.
    Unparsable(Seq<char>),
    /// The URL parses but is not usable; the reason.
    Unusable(Seq<char>),
}

/// The outcome of checking an RTSP URL, over what the URL parser finds: a
/// URL that does not parse, one whose scheme is not `rtsp` (in any case), or
/// one that has no host is refused.
pub open spec fn rtsp_url_problem(s: Seq<char>) -> Option<UrlProblem> {
    match parsed_url_of(s) {
        Err(m) => Some(UrlProblem::Unparsable(m)),
        Ok(u) => if ascii_lower_seq(url_scheme_of(u)) != RTSP_SCHEME@ {
            Some(UrlProblem::Unusable("RTSP_URL scheme must be rtsp"@))
        } else if !url_has_host_of(u) {
            Some(UrlProblem::Unusable("RTSP_URL must include host"@))
        } else {
            None
        },
    }
}

/// Checks that `rtsp_url` parses as a URL with scheme `rtsp` (in any case)
/// and a host.
pub fn validate_rtsp_url(rtsp_url: &str) -> (r: Result<(), AppError>)
    ensures
        match rtsp_url_problem(rtsp_url@) {
            None => r is Ok,
            Some(UrlProblem::Unparsable(m)) => r matches Err(AppError::Uri(t)) && t@ == m,
            Some(UrlProblem::Unusable(m)) => r matches Err(AppError::Recording(t)) && t@ == m,
        },
{
    let url = match parse_url(rtsp_url) {
        Ok(u) => u,
        Err(m) => return Err(AppError::Uri(m)),
    };
    let scheme = url_scheme(&url);
    let lowered = ascii_lowercase(scheme.as_str());
    let expected = chars_of(RTSP_SCHEME);
    if !chars_equal(lowered.as_slice(), expected.as_slice()) {
        return Err(AppError::Recording(String::from_str("RTSP_URL scheme must be rtsp")));
    }
    if !url_has_host(&url) {
        return Err(AppError::Recording(String::from_str("RTSP_URL must include host")));
    }
    Ok(())
}

/// How long ffmpeg is asked to record: the requested whole seconds, at
/// least one.
pub open spec fn recording_seconds_spec(requested_secs: u64) -> u64 {
    if requested_secs < 1 { 1 } else { requested_secs }
}

/// The recording length passed to ffmpeg for a requested length.
pub fn recording_seconds(requested_secs: u64) -> (r: u64)
    ensures
        r == recording_seconds_spec(requested_secs),
{
    if requested_secs < 1 { 1 } else { requested_secs }
}

/// ffmpeg records for exactly the requested length whenever it is positive,
/// and for one second when zero is requested.
pub proof fn lemma_recording_length_is_requested(requested_secs: u64)
    ensures
        requested_secs >= 1 ==> recording_seconds_spec(requested_secs) == requested_secs,
        requested_secs == 0 ==> recording_seconds_spec(requested_secs) == 1,
{
}

/// The ffmpeg command-line arguments that come before the output path: read
/// the RTSP stream over TCP for `secs` seconds, keep the first video stream
/// and any audio, encode with the given codecs; x264 settings only for
/// `libx264` and an audio bitrate only when audio is re-encoded (codec names
/// compared ignoring ASCII case).
pub open spec fn ffmpeg_args_spec(
    rtsp_url: Seq<char>,
    secs: u64,
    loglevel: Seq<char>,
    video_codec: Seq<char>,
    audio_codec: Seq<char>,
    audio_bitrate: Seq<char>,
    preset: Seq<char>,
    crf: u8,
) -> Seq<Seq<char>> {
    let base = seq![
        "-hide_banner"@,
        "-loglevel"@,
        loglevel,
        "-rtsp_transport"@,
        "tcp"@,
        "-fflags"@,
        "+genpts+discardcorrupt"@,
        "-use_wallclock_as_timestamps"@,
        "1"@,
        "-i"@,
        rtsp_url,
        "-t"@,
        decimal_seq(secs as nat),
        "-map"@,
        "0:v:0"@,
        "-map"@,
        "0:a?"@,
        "-c:v"@,
        video_codec,
        "-c:a"@,
        audio_codec,
    ];
    let x264: Seq<Seq<char>> = if ascii_lower_seq(video_codec) == ascii_lower_seq("libx264"@) {
        seq!["-preset"@, preset, "-crf"@, decimal_seq(crf as nat), "-pix_fmt"@, "yuv420p"@]
    } else {
        Seq::empty()
    };
    let audio: Seq<Seq<char>> = if ascii_lower_seq(audio_codec) != ascii_lower_seq("copy"@) {
        seq!["-b:a"@, audio_bitrate]
    } else {
        Seq::empty()
    };
    base + x264 + audio + seq!["-movflags"@, "+faststart"@, "-y"@]
}

/// The ffmpeg command line carries the settings: the stream URL after
/// `-i`, a `-t` value that reads back as the recording length, the log level
/// and both codecs after their flags; x264 settings (preset, and a `-crf`
/// value that reads back as the CRF) exactly when the video codec is
/// `libx264` in any case, an audio bitrate exactly when audio is re-encoded,
/// and `-movflags +faststart -y` last.
pub proof fn lemma_ffmpeg_args_carry_settings(
    rtsp_url: Seq<char>,
    secs: u64,
    loglevel: Seq<char>,
    video_codec: Seq<char>,
    audio_codec: Seq<char>,
    audio_bitrate: Seq<char>,
    preset: Seq<char>,
    crf: u8,
)
    ensures
        ({
            let a = ffmpeg_args_spec(rtsp_url, secs, loglevel, video_codec, audio_codec, audio_bitrate, preset, crf);
            let x264 = ascii_lower_seq(video_codec) == ascii_lower_seq("libx264"@);
            let reencode = ascii_lower_seq(audio_codec) != ascii_lower_seq("copy"@);
            &&& a.len() == 24 + (if x264 { 6int } else { 0int }) + (if reencode { 2int } else { 0int })
            &&& a[1] == "-loglevel"@ && a[2] == loglevel
            &&& a[9] == "-i"@ && a[10] == rtsp_url
            &&& a[11] == "-t"@ && parse_unsigned(a[12], u64::MAX as nat) == Some(secs as nat)
            &&& a[17] == "-c:v"@ && a[18] == video_codec
            &&& a[19] == "-c:a"@ && a[20] == audio_codec
            &&& x264 ==> a[21] == "-preset"@ && a[22] == preset && a[23] == "-crf"@ && parse_unsigned(
                a[24],
                u8::MAX as nat,
            ) == Some(crf as nat)
            &&& reencode ==> a[a.len() - 5] == "-b:a"@ && a[a.len() - 4] == audio_bitrate
            &&& a[a.len() - 3] == "-movflags"@ && a[a.len() - 2] == "+faststart"@ && a[a.len() - 1] == "-y"@
        }),
{
    lemma_parse_reads_decimal(secs as nat, u64::MAX as nat);
    lemma_parse_reads_decimal(crf as nat, u8::MAX as nat);
}

/// The text of each argument.
pub open spec fn args_text(v: Seq<String>) -> Seq<Seq<char>> {
    v.map_values(|s: String| s@)
}

fn push_arg(args: &mut Vec<String>, a: String)
    ensures
        args_text(final(args)@) == args_text(old(args)@).push(a@),
{
    args.push(a);
    assert(args_text(args@) =~= args_text(old(args)@).push(a@));
}

fn push_lit(args: &mut Vec<String>, a: &str)
    ensures
        args_text(final(args)@) == args_text(old(args)@).push(a@),
{
    push_arg(args, String::from_str(a));
}

/// Builds the ffmpeg arguments that come before the output path.
pub fn ffmpeg_args(
    rtsp_url: &str,
    secs: u64,
    loglevel: &str,
    video_codec: &str,
    audio_codec: &str,
    audio_bitrate: &str,
    preset: &str,
    crf: u8,
) -> (r: Vec<String>)
    ensures
        args_text(r@) == ffmpeg_args_spec(
            rtsp_url@,
            secs,
            loglevel@,
            video_codec@,
            audio_codec@,
            audio_bitrate@,
            preset@,
            crf,
        ),
{
    let mut args: Vec<String> = Vec::new();
    push_lit(&mut args, "-hide_banner");
    push_lit(&mut args, "-loglevel");
    push_lit(&mut args, loglevel);
    push_lit(&mut args, "-rtsp_transport");
    push_lit(&mut args, "tcp");
    push_lit(&mut args, "-fflags");
    push_lit(&mut args, "+genpts+discardcorrupt");
    push_lit(&mut args, "-use_wallclock_as_timestamps");
    push_lit(&mut args, "1");
    push_lit(&mut args, "-i");
    push_lit(&mut args, rtsp_url);
    push_lit(&mut args, "-t");
    push_arg(&mut args, decimal_string(secs));
    push_lit(&mut args, "-map");
    push_lit(&mut args, "0:v:0");
    push_lit(&mut args, "-map");
    push_lit(&mut args, "0:a?");
    push_lit(&mut args, "-c:v");
    push_lit(&mut args, video_codec);
    push_lit(&mut args, "-c:a");
    push_lit(&mut args, audio_codec);
    if eq_ignore_ascii_case(video_codec, "libx264") {
        push_lit(&mut args, "-preset");
        push_lit(&mut args, preset);
        push_lit(&mut args, "-crf");
        push_arg(&mut args, decimal_string(crf as u64));
        push_lit(&mut args, "-pix_fmt");
        push_lit(&mut args, "yuv420p");
    }
    if !eq_ignore_ascii_case(audio_codec, "copy") {
        push_lit(&mut args, "-b:a");
        push_lit(&mut args, audio_bitrate);
    }
    push_lit(&mut args, "-movflags");
    push_lit(&mut args, "+faststart");
    push_lit(&mut args, "-y");
    assert(args_text(args@) =~= ffmpeg_args_spec(
        rtsp_url@,
        secs,
        loglevel@,
        video_codec@,
        audio_codec@,
        audio_bitrate@,
        preset@,
        crf,
    ));
    args
}


/// A line without the `\r` of a `\r\n` ending.
pub open spec fn strip_cr(line: Seq<char>) -> Seq<char> {
    if line.len() > 0 && line.last() == '\r' {
        line.drop_last()
    } else {
        line
    }
}

/// Splitting `s` at each `\n`: the lines ended so far, and the text after the
/// last `\n`.
pub open spec fn split_state(s: Seq<char>) -> (Seq<Seq<char>>, Seq<char>)
    decreases s.len(),
{
    if s.len() == 0 {
        (Seq::empty(), Seq::empty())
    } else {
        let prev = split_state(s.drop_last());
        if s.last() == '\n' {
            (prev.0.push(strip_cr(prev.1)), Seq::empty())
        } else {
            (prev.0, prev.1.push(s.last()))
        }
    }
}

/// The lines of `s`, as `str::lines`: split at `\n` or `\r\n`, terminators
/// removed, no empty line for a final line ending.
pub open spec fn lines_of(s: Seq<char>) -> Seq<Seq<char>> {
    let st = split_state(s);
    if st.1.len() > 0 {
        st.0.push(st.1)
    } else {
        st.0
    }
}

/// The last `n` elements of `s` (all of them when there are fewer).
pub open spec fn last_n<T>(s: Seq<T>, n: nat) -> Seq<T> {
    if s.len() <= n {
        s
    } else {
        s.skip(s.len() - n)
    }
}

/// `parts` joined with `sep` between neighbours.
pub open spec fn join_with(parts: Seq<Seq<char>>, sep: Seq<char>) -> Seq<char>
    decreases parts.len(),
{
    if parts.len() == 0 {
        Seq::empty()
    } else if parts.len() == 1 {
        parts[0]
    } else {
        join_with(parts.drop_last(), sep) + sep + parts.last()
    }
}

/// How many trailing lines of ffmpeg's error output a failure report keeps.
pub const FAILURE_TAIL_LINES: usize = 10;

/// Why ffmpeg failed, from its error output: the last ten lines joined with
/// ` | `, or a fixed text when there are none.
pub open spec fn failure_reason_spec(stderr_text: Seq<char>) -> Seq<char> {
    let lines = lines_of(stderr_text);
    if lines.len() == 0 {
        "unknown ffmpeg error"@
    } else {
        join_with(last_n(lines, FAILURE_TAIL_LINES as nat), " | "@)
    }
}

/// A failure report keeps the last ten lines of ffmpeg's error output: with
/// no lines it is `unknown ffmpeg error`, with up to ten all of them, and
/// with more the last ten, in order, joined with ` | `.
pub proof fn lemma_failure_reason_keeps_last_ten_lines(stderr_text: Seq<char>)
    ensures
        ({
            let lines = lines_of(stderr_text);
            let r = failure_reason_spec(stderr_text);
            &&& lines.len() == 0 ==> r == "unknown ffmpeg error"@
            &&& 0 < lines.len() <= 10 ==> r == join_with(lines, " | "@)
            &&& lines.len() > 10 ==> r == join_with(lines.subrange(lines.len() - 10, lines.len() as int), " | "@)
        }),
{
    let lines = lines_of(stderr_text);
    if lines.len() > 10 {
        assert(last_n(lines, 10) =~= lines.subrange(lines.len() - 10, lines.len() as int));
    }
}

/// The text `String::from_utf8_lossy` makes of `bytes`.
pub uninterp spec fn utf8_lossy_text(bytes: Seq<u8>) -> Seq<char>;

/// Calls `String::from_utf8_lossy`: the text is determined by the bytes.
#[verifier::external_body]
fn utf8_lossy(bytes: &[u8]) -> (r: String)
    ensures
        r@ == utf8_lossy_text(bytes@),
{
    String::from_utf8_lossy(bytes).into_owned()
}

/// The text of each row of characters.
pub open spec fn rows_text(v: Seq<Vec<char>>) -> Seq<Seq<char>> {
    v.map_values(|r: Vec<char>| r@)
}

/// The lines of `text`.
pub fn text_lines(text: &str) -> (r: Vec<Vec<char>>)
    ensures
        rows_text(r@) == lines_of(text@),
{
    let chars = chars_of(text);
    let mut done: Vec<Vec<char>> = Vec::new();
    let mut cur: Vec<char> = Vec::new();
    let mut i: usize = 0;
    while i < chars.len()
        invariant
            chars@ == text@,
            0 <= i <= chars@.len(),
            (rows_text(done@), cur@) == split_state(text@.take(i as int)),
        decreases chars@.len() - i,
    {
        let ghost before = text@.take(i as int);
        assert(text@.take(i + 1).drop_last() =~= before);
        let c = chars[i];
        if c == '\n' {
            let mut line: Vec<char> = Vec::new();
            std::mem::swap(&mut line, &mut cur);
            if line.len() > 0 && line[line.len() - 1] == '\r' {
                line.pop();
                assert(line@ =~= strip_cr(split_state(before).1));
            }
            done.push(line);
            assert(rows_text(done@) =~= split_state(before).0.push(strip_cr(split_state(before).1)));
        } else {
            cur.push(c);
        }
        i += 1;
    }
    assert(text@.take(chars@.len() as int) =~= text@);
    if cur.len() > 0 {
        done.push(cur);
        assert(rows_text(done@) =~= lines_of(text@));
    }
    done
}

/// Why ffmpeg failed, from its error output.
pub fn ffmpeg_failure_reason(stderr_text: &str) -> (r: String)
    ensures
        r@ == failure_reason_spec(stderr_text@),
{
    let lines = text_lines(stderr_text);
    if lines.len() == 0 {
        return String::from_str("unknown ffmpeg error");
    }
    let ghost all = rows_text(lines@);
    let start: usize = if lines.len() <= FAILURE_TAIL_LINES { 0 } else { lines.len() - FAILURE_TAIL_LINES };
    let ghost tail = last_n(all, FAILURE_TAIL_LINES as nat);
    assert(tail =~= all.subrange(start as int, all.len() as int));
    let mut out: Vec<char> = Vec::new();
    let mut k: usize = start;
    while k < lines.len()
        invariant
            rows_text(lines@) == all,
            start < all.len(),
            tail == all.subrange(start as int, all.len() as int),
            start <= k <= all.len(),
            k > start ==> out@ == join_with(tail.take(k - start), " | "@),
            k == start ==> out@.len() == 0,
        decreases all.len() - k,
    {
        let ghost prefix = tail.take(k - start);
        if k > start {
            push_str(&mut out, " | ");
        }
        push_chars(&mut out, lines[k].as_slice());
        k += 1;
        assert(tail.take(k - start).drop_last() =~= prefix);
        assert(tail.take(k - start).last() == all[k - 1]);
        if k - 1 == start {
            assert(out@ =~= all[k - 1]);
        } else {
            assert(out@ =~= join_with(prefix, " | "@) + " | "@ + all[k - 1]);
        }
    }
    assert(tail.take(all.len() - start) =~= tail);
    string_from_chars(out.as_slice())
}

/// The error reported when ffmpeg exits unsuccessfully: its exit status text
/// and why it failed.
pub fn ffmpeg_failure(status_text: &str, stderr: &[u8]) -> (r: AppError)
    ensures
        r matches AppError::Recording(m) && m@ == "ffmpeg failed with status "@ + status_text@ + ": "@
            + failure_reason_spec(utf8_lossy_text(stderr@)),
{
    let text = utf8_lossy(stderr);
    let reason = ffmpeg_failure_reason(text.as_str());
    let mut out: Vec<char> = Vec::new();
    push_str(&mut out, "ffmpeg failed with status ");
    push_str(&mut out, status_text);
    push_str(&mut out, ": ");
    push_str(&mut out, reason.as_str());
    AppError::Recording(string_from_chars(out.as_slice()))
}

/// The error reported when ffmpeg cannot be started.
pub fn ffmpeg_start_failure(detail: &str) -> (r: AppError)
    ensures
        r matches AppError::Recording(m) && m@ == "failed to start ffmpeg: "@ + detail@,
{
    let mut out: Vec<char> = Vec::new();
    push_str(&mut out, "failed to start ffmpeg: ");
    push_str(&mut out, detail);
    AppError::Recording(string_from_chars(out.as_slice()))
}

} // verus!
