//! Presence of the two external programs the system needs, and the
//! install guidance shown when one is missing.
//!
//! Probing for the programs runs subprocesses and happens outside the
//! library; the probe results are combined and presented here.

use vstd::prelude::*;

verus! {

/// Outcome of the two presence probes.
pub struct DependencyStatus {
    pub yt_dlp_installed: bool,
    pub ffmpeg_installed: bool,
    pub all_installed: bool,
}

impl DependencyStatus {
    /// Combines the probe results; everything is installed exactly when
    /// both programs are.
    pub fn check(yt_dlp_installed: bool, ffmpeg_installed: bool) -> (r: Self)
        ensures
            r.yt_dlp_installed == yt_dlp_installed,
            r.ffmpeg_installed == ffmpeg_installed,
            r.all_installed == (yt_dlp_installed && ffmpeg_installed),
    {
        DependencyStatus {
            yt_dlp_installed,
            ffmpeg_installed,
            all_installed: yt_dlp_installed && ffmpeg_installed,
        }
    }
}

/// The platforms install guidance is written for.
#[derive(Clone, Copy, Debug, PartialEq, Eq, Structural)]
pub enum Platform {
    MacOs,
    Windows,
    Linux,
    Other,
}

/// Platform-specific commands for installing the two external programs.
pub struct InstallGuide {
    pub platform: String,
    pub yt_dlp_command: String,
    pub ffmpeg_command: String,
    pub notes: Vec<String>,
}

impl InstallGuide {
    /// The guidance for the given platform.
    pub fn get(platform: Platform) -> (r: Self)
        ensures
            platform == Platform::MacOs ==> {
                &&& r.platform@ == "macOS"@
                &&& r.yt_dlp_command@ == "brew install yt-dlp"@
                &&& r.ffmpeg_command@ == "brew install ffmpeg"@
                &&& r.notes.deep_view() == seq![
                    "Homebrew must be installed first"@,
                    "Visit https://brew.sh for Homebrew installation"@,
                ]
            },
            platform == Platform::Windows ==> {
                &&& r.platform@ == "Windows"@
                &&& r.yt_dlp_command@ == "winget install yt-dlp.yt-dlp"@
                &&& r.ffmpeg_command@ == "winget install Gyan.FFmpeg"@
                &&& r.notes.deep_view() == seq![
                    "Windows 10+ required for winget"@,
                    "Alternatively, download binaries from official websites"@,
                ]
            },
            platform == Platform::Linux ==> {
                &&& r.platform@ == "Linux"@
                &&& r.yt_dlp_command@ == "sudo apt install yt-dlp"@
                &&& r.ffmpeg_command@ == "sudo apt install ffmpeg"@
                &&& r.notes.deep_view() == seq![
                    "For Debian/Ubuntu based systems"@,
                    "For other distros, use your package manager"@,
                ]
            },
            platform == Platform::Other ==> {
                &&& r.platform@ == "Unknown"@
                &&& r.yt_dlp_command@ == "Visit https://github.com/yt-dlp/yt-dlp"@
                &&& r.ffmpeg_command@ == "Visit https://ffmpeg.org/download.html"@
                &&& r.notes.deep_view() == seq!["Please install manually"@]
            },
    {
        match platform {
            Platform::MacOs => {
                let mut notes: Vec<String> = Vec::new();
                notes.push(String::from_str("Homebrew must be installed first"));
                notes.push(String::from_str("Visit https://brew.sh for Homebrew installation"));
                proof {
                    assert(notes.deep_view() =~= seq![
                        "Homebrew must be installed first"@,
                        "Visit https://brew.sh for Homebrew installation"@,
                    ]);
                }
                InstallGuide {
                    platform: String::from_str("macOS"),
                    yt_dlp_command: String::from_str("brew install yt-dlp"),
                    ffmpeg_command: String::from_str("brew install ffmpeg"),
                    notes,
                }
            },
            Platform::Windows => {
                let mut notes: Vec<String> = Vec::new();
                notes.push(String::from_str("Windows 10+ required for winget"));
                notes.push(
                    String::from_str("Alternatively, download binaries from official websites"),
                );
                proof {
                    assert(notes.deep_view() =~= seq![
                        "Windows 10+ required for winget"@,
                        "Alternatively, download binaries from official websites"@,
                    ]);
                }
                InstallGuide {
                    platform: String::from_str("Windows"),
                    yt_dlp_command: String::from_str("winget install yt-dlp.yt-dlp"),
                    ffmpeg_command: String::from_str("winget install Gyan.FFmpeg"),
                    notes,
                }
            },
            Platform::Linux => {
                let mut notes: Vec<String> = Vec::new();
                notes.push(String::from_str("For Debian/Ubuntu based systems"));
                notes.push(String::from_str("For other distros, use your package manager"));
                proof {
                    assert(notes.deep_view() =~= seq![
                        "For Debian/Ubuntu based systems"@,
                        "For other distros, use your package manager"@,
                    ]);
                }
                InstallGuide {
                    platform: String::from_str("Linux"),
                    yt_dlp_command: String::from_str("sudo apt install yt-dlp"),
                    ffmpeg_command: String::from_str("sudo apt install ffmpeg"),
                    notes,
                }
            },
            Platform::Other => {
                let mut notes: Vec<String> = Vec::new();
                notes.push(String::from_str("Please install manually"));
                proof {
                    assert(notes.deep_view() =~= seq!["Please install manually"@]);
                }
                InstallGuide {
                    platform: String::from_str("Unknown"),
                    yt_dlp_command: String::from_str("Visit https://github.com/yt-dlp/yt-dlp"),
                    ffmpeg_command: String::from_str("Visit https://ffmpeg.org/download.html"),
                    notes,
                }
            },
        }
    }
}

} // verus!
