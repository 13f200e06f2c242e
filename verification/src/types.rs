use vstd::prelude::*;

use crate::errors::TransferError;
use crate::text::str_eq;

verus! {

/// A user row of the relational store.
#[derive(Debug, PartialEq)]
pub struct User {
    pub id: i64,
    pub telegram_id: i64,
    pub username: Option<String>,
    pub quality_preference: String,
    pub subscription_enabled: bool,
}

/// The ordinary user commands.
#[derive(Clone, Copy, Debug, PartialEq, Eq, Structural)]
pub enum Command {
    Help,
    Start,
}

/// The administrative commands.
#[derive(Clone, Debug, PartialEq, Eq)]
pub enum AdminCommand {
    AddChannel(String),
    DelChannel(String),
    ListChannels,
    ToggleSubscription,
}

/// Read an ordinary command word.
pub fn parse_command(text: &str) -> (r: Option<Command>)
    ensures
        text@ == "/help"@ ==> r == Some(Command::Help),
        text@ == "/start"@ ==> r == Some(Command::Start),
        text@ != "/help"@ && text@ != "/start"@ ==> r is None,
{
    proof {
        reveal_strlit("/help");
        reveal_strlit("/start");
        assert("/help"@.len() == 5);
        assert("/start"@.len() == 6);
    }
    if str_eq(text, "/help") {
        Some(Command::Help)
    } else if str_eq(text, "/start") {
        Some(Command::Start)
    } else {
        None
    }
}

/// Where the fetched binaries' versions are remembered.
pub struct VersionManager {
    pub storage_dir: String,
}

impl VersionManager {
    /// A manager writing under `storage_dir`.
    pub fn new(storage_dir: String) -> (m: Self)
        ensures
            m.storage_dir == storage_dir,
    {
        VersionManager { storage_dir }
    }
}

/// One managed external binary: where its releases are announced,
/// where it lives, and where a fresh copy is fetched from.
#[derive(Clone, Debug)]
pub struct BinaryConfig {
    pub rss_url: String,
    pub binary_path: String,
    pub download_url_template: String,
}

/// The external media-fetch tool and the directories it works with.
#[derive(Clone, Debug)]
pub struct YoutubeFetcher {
    pub yt_dlp_path: String,
    pub output_dir: String,
    pub ffmpeg_dir: String,
}

impl YoutubeFetcher {
    /// A fetcher around the tool at `yt_dlp_path`.
    pub fn new(yt_dlp_path: String, output_dir: String, ffmpeg_dir: String) -> (r: Result<
        Self,
        TransferError,
    >)
        ensures
            match r {
                Ok(f) => f.yt_dlp_path == yt_dlp_path && f.output_dir == output_dir
                    && f.ffmpeg_dir == ffmpeg_dir,
                Err(_) => false,
            },
    {
        Ok(YoutubeFetcher { yt_dlp_path, output_dir, ffmpeg_dir })
    }
}

/// Where the latest build of the fetch tool for this platform is
/// published.
pub fn get_latest_yt_dlp_url() -> (r: String)
    ensures
        r@ == "https://github.com/yt-dlp/yt-dlp/releases/latest/download/yt-dlp_linux"@,
{
    "https://github.com/yt-dlp/yt-dlp/releases/latest/download/yt-dlp_linux".to_owned()
}

/// Where the latest static encoder build for this platform is
/// published.
pub fn get_latest_ffmpeg_url() -> (r: String)
    ensures
        r@ == "https://johnvansickle.com/ffmpeg/builds/ffmpeg-git-amd64-static.tar.xz"@,
{
    "https://johnvansickle.com/ffmpeg/builds/ffmpeg-git-amd64-static.tar.xz".to_owned()
}

} // verus!
