//! Construction of one invocation of the external extraction tool.
//!
//! The library decides the full argument list for a job; spawning the
//! process, streaming its output and waiting for its exit happen outside
//! and feed back into the queue's step functions.

use vstd::prelude::*;
use crate::download_item::{spec_format_token, spec_quality_token, AudioFormat, Quality};

verus! {

/// Knows where downloads are stored and how the tool must be invoked.
pub struct Downloader {
    pub download_dir: String,
}

/// The output path template handed to the tool: the destination directory
/// followed by the tool's title and extension placeholders.
pub open spec fn spec_output_template(dir: Seq<char>) -> Seq<char> {
    dir + "/%(title)s.%(ext)s"@
}

/// The full argument list for one job: audio-only extraction in the
/// requested encoding and quality, thumbnail and metadata embedding, the
/// templated output path, newline-delimited progress, no playlist
/// expansion, and the source URL last.
pub open spec fn spec_tool_args(
    dir: Seq<char>,
    url: Seq<char>,
    format: AudioFormat,
    quality: Quality,
) -> Seq<Seq<char>> {
    seq![
        "--extract-audio"@,
        "--audio-format"@,
        spec_format_token(format),
        "--audio-quality"@,
        spec_quality_token(quality),
        "--embed-thumbnail"@,
        "--add-metadata"@,
        "--output"@,
        spec_output_template(dir),
        "--newline"@,
        "--no-playlist"@,
        url,
    ]
}

impl Downloader {
    /// Stores downloads in the platform's download directory when one is
    /// known, and in the working directory otherwise.
    pub fn new() -> Self {
        match system_download_dir() {
            Some(dir) => Downloader { download_dir: dir },
            None => Downloader { download_dir: String::from_str(".") },
        }
    }

    pub fn output_template(&self) -> (r: String)
        ensures
            r@ == spec_output_template(self.download_dir@),
    {
        let mut t = self.download_dir.clone();
        t.append("/%(title)s.%(ext)s");
        t
    }

    /// The argument list for one invocation of the tool on `url`.
    pub fn build_args(&self, url: &str, format: AudioFormat, quality: Quality) -> (r: Vec<
        String,
    >)
        ensures
            r.deep_view() == spec_tool_args(self.download_dir@, url@, format, quality),
    {
        let mut args: Vec<String> = Vec::new();
        args.push(String::from_str("--extract-audio"));
        args.push(String::from_str("--audio-format"));
        args.push(String::from_str(format.as_str()));
        args.push(String::from_str("--audio-quality"));
        args.push(String::from_str(quality.as_str()));
        args.push(String::from_str("--embed-thumbnail"));
        args.push(String::from_str("--add-metadata"));
        args.push(String::from_str("--output"));
        args.push(self.output_template());
        args.push(String::from_str("--newline"));
        args.push(String::from_str("--no-playlist"));
        args.push(String::from_str(url));
        proof {
            assert(args.deep_view() =~= spec_tool_args(self.download_dir@, url@, format, quality));
        }
        args
    }
}

/// The message recorded on a job when the tool exits unsuccessfully: it
/// names the exit code, or `unknown` when the process ended without one.
pub open spec fn spec_failure_message(exit_code: Option<i32>) -> Seq<char> {
    "yt-dlp failed with exit code: "@ + match exit_code {
        Some(v) => if v < 0 {
            "-"@ + crate::text::dec_rep(0 - v)
        } else {
            crate::text::dec_rep(v as int)
        },
        None => "unknown"@,
    }
}

/// Builds the failure message for an exit code.
pub fn failure_message(exit_code: Option<i32>) -> (r: String)
    ensures
        r@ == spec_failure_message(exit_code),
{
    let mut m = String::from_str("yt-dlp failed with exit code: ");
    match exit_code {
        Some(v) => {
            if v >= 0 {
                let digits = crate::text::u64_to_string(v as u64);
                m.append(digits.as_str());
            } else {
                m.append("-");
                let mag = -(v as i64);
                let digits = crate::text::u64_to_string(mag as u64);
                m.append(digits.as_str());
            }
        },
        None => {
            m.append("unknown");
        },
    }
    m
}

/// Relies on `dirs::download_dir`: the platform's download directory if the
/// environment defines one. The result depends on the environment, so
/// nothing is assumed of the value.
#[verifier::external_body]
fn system_download_dir() -> (r: Option<String>)
{
    dirs::download_dir().map(|p| p.to_string_lossy().to_string())
}

} // verus!
