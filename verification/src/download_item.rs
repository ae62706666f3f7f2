//! The job record: one requested download and its tracked state.

use vstd::prelude::*;

verus! {

/// Requested audio encoding, a closed set of variants with an explicit
/// mapping to the extraction tool's format tokens.
#[derive(Clone, Copy, Debug, PartialEq, Eq, Structural)]
pub enum AudioFormat {
    Mp3,
    M4a,
    Opus,
    Aac,
    Flac,
    Wav,
}

/// Requested quality tier, mapped to the extraction tool's quality tokens.
#[derive(Clone, Copy, Debug, PartialEq, Eq, Structural)]
pub enum Quality {
    Best,
    High,
    Medium,
    Low,
}

/// Lifecycle state of a job. Transitions follow
/// Queued -> Downloading -> Converting -> Completed | Failed | Cancelled,
/// where Converting may be skipped; Completed, Failed and Cancelled are
/// terminal.
#[derive(Clone, Copy, Debug, PartialEq, Eq, Structural)]
pub enum DownloadStatus {
    Queued,
    Downloading,
    Converting,
    Completed,
    Failed,
    Cancelled,
}

pub open spec fn spec_format_token(f: AudioFormat) -> Seq<char> {
    match f {
        AudioFormat::Mp3 => "mp3"@,
        AudioFormat::M4a => "m4a"@,
        AudioFormat::Opus => "opus"@,
        AudioFormat::Aac => "aac"@,
        AudioFormat::Flac => "flac"@,
        AudioFormat::Wav => "wav"@,
    }
}

impl AudioFormat {
    /// The token handed to the extraction tool for this encoding.
    pub fn as_str(&self) -> (r: &'static str)
        ensures
            r@ == spec_format_token(*self),
    {
        match self {
            AudioFormat::Mp3 => "mp3",
            AudioFormat::M4a => "m4a",
            AudioFormat::Opus => "opus",
            AudioFormat::Aac => "aac",
            AudioFormat::Flac => "flac",
            AudioFormat::Wav => "wav",
        }
    }
}

pub open spec fn spec_quality_token(q: Quality) -> Seq<char> {
    match q {
        Quality::Best => "0"@,
        Quality::High => "192K"@,
        Quality::Medium => "128K"@,
        Quality::Low => "96K"@,
    }
}

impl Quality {
    /// The token handed to the extraction tool for this tier; the tool reads
    /// `0` as its best variable quality.
    pub fn as_str(&self) -> (r: &'static str)
        ensures
            r@ == spec_quality_token(*self),
    {
        match self {
            Quality::Best => "0",
            Quality::High => "192K",
            Quality::Medium => "128K",
            Quality::Low => "96K",
        }
    }
}

/// Completed, Failed and Cancelled admit no further transition.
pub open spec fn is_terminal(s: DownloadStatus) -> bool {
    s == DownloadStatus::Completed || s == DownloadStatus::Failed || s == DownloadStatus::Cancelled
}

/// A job currently executing reports itself as Downloading or Converting.
pub open spec fn is_running(s: DownloadStatus) -> bool {
    s == DownloadStatus::Downloading || s == DownloadStatus::Converting
}

/// Progress is tracked in hundredths of a percent, so a finished job reads
/// ten thousand.
pub const PROGRESS_DONE: u32 = 10000;

/// One requested download and its mutable state. `progress` counts
/// hundredths of a percent, from 0 to 10000 inclusive.
pub struct DownloadItem {
    pub id: String,
    pub url: String,
    pub title: Option<String>,
    pub format: AudioFormat,
    pub quality: Quality,
    pub status: DownloadStatus,
    pub progress: u32,
    pub error: Option<String>,
}

impl DownloadItem {
    /// Progress stays in range and the error message is present exactly on a
    /// failed job.
    pub open spec fn wf(self) -> bool {
        &&& self.progress <= PROGRESS_DONE
        &&& self.error is Some <==> self.status == DownloadStatus::Failed
    }

    /// A fresh record: queued, no progress, no title, no error, and a newly
    /// generated identifier.
    pub fn new(url: String, format: AudioFormat, quality: Quality) -> (r: Self)
        ensures
            r.url == url,
            r.format == format,
            r.quality == quality,
            r.status == DownloadStatus::Queued,
            r.progress == 0,
            r.title is None,
            r.error is None,
            r.id@.len() == 36,
            r.wf(),
    {
        DownloadItem {
            id: fresh_id(),
            url,
            title: None,
            format,
            quality,
            status: DownloadStatus::Queued,
            progress: 0,
            error: None,
        }
    }

    /// Direct status mutation; callers uphold the state machine.
    pub fn update_status(&mut self, status: DownloadStatus)
        ensures
            *final(self) == (DownloadItem { status, ..*old(self) }),
    {
        self.status = status;
    }

    /// Direct progress mutation; callers only ever advance it.
    pub fn update_progress(&mut self, progress: u32)
        ensures
            *final(self) == (DownloadItem { progress, ..*old(self) }),
    {
        self.progress = progress;
    }

    pub fn set_title(&mut self, title: String)
        ensures
            *final(self) == (DownloadItem { title: Some(title), ..*old(self) }),
    {
        self.title = Some(title);
    }

    /// The error message and the Failed status are set together, never
    /// independently.
    pub fn set_error(&mut self, error: String)
        ensures
            *final(self) == (DownloadItem {
                error: Some(error),
                status: DownloadStatus::Failed,
                ..*old(self)
            }),
    {
        self.error = Some(error);
        self.status = DownloadStatus::Failed;
    }
}

impl Clone for DownloadItem {
    /// A field-for-field copy; listings snapshot records with it.
    fn clone(&self) -> (r: Self)
        ensures
            r == *self,
    {
        DownloadItem {
            id: self.id.clone(),
            url: self.url.clone(),
            title: clone_opt_string(&self.title),
            format: self.format,
            quality: self.quality,
            status: self.status,
            progress: self.progress,
            error: clone_opt_string(&self.error),
        }
    }
}

fn clone_opt_string(o: &Option<String>) -> (r: Option<String>)
    ensures
        r == *o,
{
    match o {
        Some(s) => Some(s.clone()),
        None => None,
    }
}

/// Relies on `uuid::Uuid::new_v4` and the hyphenated `Display` form of
/// `uuid::Uuid`: a freshly drawn random identifier rendered as 36 characters.
/// Nothing else is assumed of the value; the queue itself checks new
/// identifiers against the ones it already holds.
#[verifier::external_body]
fn fresh_id() -> (r: String)
    ensures
        r@.len() == 36,
{
    uuid::Uuid::new_v4().to_string()
}

} // verus!
