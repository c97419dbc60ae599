//! The helper programs that downloads rely on: their names, where to fetch
//! them for each platform, and how a download is unpacked.

use vstd::prelude::*;
use vstd::string::StringExecFns;
use crate::shell::ShellProcessResult;
use crate::text::{chars_of, first_line, spec_first_line, str_equal, string_of, trim_chars, trim_seq};

verus! {

/// A helper program.
#[derive(Debug, Clone, Copy, PartialEq, Eq, Structural)]
pub enum DependencyType {
    YtDlp,
    Ffmpeg,
}

/// Why a helper program cannot be had.
#[derive(Debug, Clone, Copy, PartialEq, Eq, Structural)]
pub enum DependencyError {
    /// No build of the program is known for the platform.
    UnsupportedPlatform,
}

/// The form in which a downloaded archive comes.
#[derive(Debug, Clone, Copy, PartialEq, Eq, Structural)]
pub enum ArchiveKind {
    Zip,
    TarXz,
}

impl DependencyType {
    /// The name of the program.
    pub open spec fn spec_name(self) -> Seq<char> {
        match self {
            DependencyType::YtDlp => "yt-dlp"@,
            DependencyType::Ffmpeg => "ffmpeg"@,
        }
    }

    /// The file name of the program's executable.
    pub open spec fn spec_executable_name(self, windows: bool) -> Seq<char> {
        match self {
            DependencyType::YtDlp => if windows {
                "yt-dlp.exe"@
            } else {
                "yt-dlp"@
            },
            DependencyType::Ffmpeg => if windows {
                "ffmpeg.exe"@
            } else {
                "ffmpeg"@
            },
        }
    }

    /// The argument that makes the program print its version.
    pub open spec fn spec_version_arg(self) -> Seq<char> {
        match self {
            DependencyType::YtDlp => "--version"@,
            DependencyType::Ffmpeg => "-version"@,
        }
    }

    /// Where the program is fetched from for `platform`.
    pub open spec fn spec_download_url(self, platform: Seq<char>) -> Result<Seq<char>, DependencyError> {
        match self {
            DependencyType::YtDlp => if platform == "windows-x64"@ || platform == "windows-x86"@ {
                Ok("https://github.com/yt-dlp/yt-dlp/releases/latest/download/yt-dlp.exe"@)
            } else {
                Ok("https://github.com/yt-dlp/yt-dlp/releases/latest/download/yt-dlp"@)
            },
            DependencyType::Ffmpeg => if platform == "windows-x64"@ {
                Ok(
                    "https://github.com/BtbN/FFmpeg-Builds/releases/download/latest/ffmpeg-master-latest-win64-gpl.zip"@,
                )
            } else if platform == "windows-x86"@ {
                Ok(
                    "https://github.com/BtbN/FFmpeg-Builds/releases/download/latest/ffmpeg-master-latest-win32-gpl.zip"@,
                )
            } else if platform == "macos-x64"@ || platform == "macos-arm64"@ {
                Ok("https://evermeet.cx/ffmpeg/getrelease/zip"@)
            } else if platform == "linux-x64"@ {
                Ok("https://johnvansickle.com/ffmpeg/releases/ffmpeg-release-amd64-static.tar.xz"@)
            } else if platform == "linux-arm64"@ {
                Ok("https://johnvansickle.com/ffmpeg/releases/ffmpeg-release-arm64-static.tar.xz"@)
            } else {
                Err(DependencyError::UnsupportedPlatform)
            },
        }
    }

    /// The name of the program.
    pub fn name(&self) -> (name: &'static str)
        ensures
            name@ == self.spec_name(),
    {
        match self {
            DependencyType::YtDlp => "yt-dlp",
            DependencyType::Ffmpeg => "ffmpeg",
        }
    }

    /// The file name of the program's executable, which ends in `.exe` on
    /// Windows.
    pub fn executable_name(&self, windows: bool) -> (name: &'static str)
        ensures
            name@ == self.spec_executable_name(windows),
    {
        match self {
            DependencyType::YtDlp => if windows {
                "yt-dlp.exe"
            } else {
                "yt-dlp"
            },
            DependencyType::Ffmpeg => if windows {
                "ffmpeg.exe"
            } else {
                "ffmpeg"
            },
        }
    }

    /// The argument that makes the program print its version.
    pub fn version_arg(&self) -> (arg: &'static str)
        ensures
            arg@ == self.spec_version_arg(),
    {
        match self {
            DependencyType::YtDlp => "--version",
            DependencyType::Ffmpeg => "-version",
        }
    }

    /// Where the program is fetched from for `platform`. The downloader has
    /// a build for every platform; the converter has one for the six
    /// platforms that `get_platform` names and for no other.
    pub fn get_download_url(&self, platform: &str) -> (url: Result<String, DependencyError>)
        ensures
            match url {
                Ok(u) => self.spec_download_url(platform@) == Ok::<Seq<char>, DependencyError>(u@),
                Err(e) => self.spec_download_url(platform@) == Err::<Seq<char>, DependencyError>(e),
            },
    {
        let url: &'static str = match self {
            DependencyType::YtDlp => {
                if str_equal(platform, "windows-x64") || str_equal(platform, "windows-x86") {
                    "https://github.com/yt-dlp/yt-dlp/releases/latest/download/yt-dlp.exe"
                } else {
                    "https://github.com/yt-dlp/yt-dlp/releases/latest/download/yt-dlp"
                }
            },
            DependencyType::Ffmpeg => {
                if str_equal(platform, "windows-x64") {
                    "https://github.com/BtbN/FFmpeg-Builds/releases/download/latest/ffmpeg-master-latest-win64-gpl.zip"
                } else if str_equal(platform, "windows-x86") {
                    "https://github.com/BtbN/FFmpeg-Builds/releases/download/latest/ffmpeg-master-latest-win32-gpl.zip"
                } else if str_equal(platform, "macos-x64") || str_equal(platform, "macos-arm64") {
                    "https://evermeet.cx/ffmpeg/getrelease/zip"
                } else if str_equal(platform, "linux-x64") {
                    "https://johnvansickle.com/ffmpeg/releases/ffmpeg-release-amd64-static.tar.xz"
                } else if str_equal(platform, "linux-arm64") {
                    "https://johnvansickle.com/ffmpeg/releases/ffmpeg-release-arm64-static.tar.xz"
                } else {
                    return Err(DependencyError::UnsupportedPlatform);
                }
            },
        };
        Ok(String::from_str(url))
    }

    /// Whether the program is fetched as an archive that must be unpacked.
    pub fn is_archive_download(&self) -> (archive: bool)
        ensures
            archive == (*self == DependencyType::Ffmpeg),
    {
        match self {
            DependencyType::Ffmpeg => true,
            DependencyType::YtDlp => false,
        }
    }
}

/// The name of the platform with this operating system and architecture.
pub open spec fn spec_platform(os: Seq<char>, arch: Seq<char>) -> Result<Seq<char>, DependencyError> {
    if os == "windows"@ && arch == "x86_64"@ {
        Ok("windows-x64"@)
    } else if os == "windows"@ && arch == "x86"@ {
        Ok("windows-x86"@)
    } else if os == "macos"@ && arch == "x86_64"@ {
        Ok("macos-x64"@)
    } else if os == "macos"@ && arch == "aarch64"@ {
        Ok("macos-arm64"@)
    } else if os == "linux"@ && arch == "x86_64"@ {
        Ok("linux-x64"@)
    } else if os == "linux"@ && arch == "aarch64"@ {
        Ok("linux-arm64"@)
    } else {
        Err(DependencyError::UnsupportedPlatform)
    }
}

/// The name of the platform with this operating system and architecture;
/// six combinations have one.
pub fn get_platform(os: &str, arch: &str) -> (platform: Result<&'static str, DependencyError>)
    ensures
        match platform {
            Ok(p) => spec_platform(os@, arch@) == Ok::<Seq<char>, DependencyError>(p@),
            Err(e) => spec_platform(os@, arch@) == Err::<Seq<char>, DependencyError>(e),
        },
{
    let windows = str_equal(os, "windows");
    let macos = str_equal(os, "macos");
    let linux = str_equal(os, "linux");
    let x86_64 = str_equal(arch, "x86_64");
    let x86 = str_equal(arch, "x86");
    let aarch64 = str_equal(arch, "aarch64");
    if windows && x86_64 {
        Ok("windows-x64")
    } else if windows && x86 {
        Ok("windows-x86")
    } else if macos && x86_64 {
        Ok("macos-x64")
    } else if macos && aarch64 {
        Ok("macos-arm64")
    } else if linux && x86_64 {
        Ok("linux-x64")
    } else if linux && aarch64 {
        Ok("linux-arm64")
    } else {
        Err(DependencyError::UnsupportedPlatform)
    }
}

/// The form of a downloaded archive: a zip file begins with the two bytes
/// `PK`, and anything else is taken for a compressed tar file.
pub fn archive_kind(bytes: &Vec<u8>) -> (kind: ArchiveKind)
    ensures
        kind == (if bytes.len() >= 2 && bytes[0] == 0x50 && bytes[1] == 0x4b {
            ArchiveKind::Zip
        } else {
            ArchiveKind::TarXz
        }),
{
    if bytes.len() >= 2 && bytes[0] == 0x50 && bytes[1] == 0x4b {
        ArchiveKind::Zip
    } else {
        ArchiveKind::TarXz
    }
}

/// The program that finds an executable on the search path.
pub fn which_command(windows: bool) -> (program: &'static str)
    ensures
        program@ == (if windows {
            "where"@
        } else {
            "which"@
        }),
{
    if windows {
        "where"
    } else {
        "which"
    }
}

/// The path that the search program printed: the first line of its output
/// without the white space around the output; none where it printed
/// nothing but white space.
pub open spec fn spec_located_path(stdout: Seq<char>) -> Option<Seq<char>> {
    if trim_seq(stdout).len() == 0 {
        None
    } else {
        Some(spec_first_line(trim_seq(stdout)))
    }
}

/// The path at which the search program found the executable, if the search
/// ran and printed one.
pub fn located_path(search: &Result<ShellProcessResult, String>) -> (path: Option<String>)
    ensures
        match path {
            Some(p) => search is Ok && spec_located_path(search->Ok_0.stdout@) == Some(p@),
            None => search is Err || spec_located_path(search->Ok_0.stdout@) is None,
        },
{
    match search {
        Ok(result) => {
            let chars = chars_of(result.stdout.as_str());
            let trimmed = trim_chars(&chars);
            if trimmed.len() == 0 {
                None
            } else {
                let line = first_line(&trimmed);
                Some(string_of(&line))
            }
        },
        Err(_) => None,
    }
}

/// Whether the program could be run and ended with exit code zero when it
/// was asked for its version.
pub fn version_check_passed(check: &Result<ShellProcessResult, String>) -> (passed: bool)
    ensures
        passed == (check is Ok && check->Ok_0.spec_succeeded()),
{
    match check {
        Ok(result) => result.succeeded(),
        Err(_) => false,
    }
}

} // verus!
