//! The command lines that play or fetch a video in a chosen format.

use crate::text::views;
use vstd::prelude::*;

verus! {

/// The program that plays a video.
pub const PLAYER: &'static str = "mpv";

/// The program that fetches a video.
pub const DOWNLOADER: &'static str = "yt-dlp";

/// The selector that asks for the video stream `format_id` with the best
/// audio, and for the best of all where that cannot be had.
pub open spec fn selector_of(format_id: Seq<char>) -> Seq<char> {
    format_id + "+bestaudio/best"@
}

/// What the player is given to stream the video at `url`.
pub open spec fn stream_request(url: Seq<char>, format_id: Seq<char>) -> Seq<Seq<char>> {
    seq!["--ytdl-format="@ + selector_of(format_id), url]
}

/// What the downloader is given to fetch the video at `url`: the selector,
/// no change of the file's time, a progress display, and with `subs` the
/// generated subtitles in English and Indonesian, built into the file.
pub open spec fn download_request(url: Seq<char>, format_id: Seq<char>, subs: bool) -> Seq<
    Seq<char>,
> {
    let base = seq!["-f"@, selector_of(format_id), "--no-mtime"@, "--progress"@, url];
    if subs {
        base + seq!["--write-auto-subs"@, "--sub-lang"@, "en,id"@, "--embed-subs"@]
    } else {
        base
    }
}

/// The selector for the video stream `format_id`.
pub fn format_selector(format_id: &str) -> (out: String)
    ensures
        out@ == selector_of(format_id@),
{
    let mut out = format_id.to_owned();
    out.append("+bestaudio/best");
    out
}

/// The arguments with which the player streams the video at `url` in the
/// format `format_id`.
pub fn stream_args(url: &str, format_id: &str) -> (args: Vec<String>)
    ensures
        views(args@) == stream_request(url@, format_id@),
{
    let mut option = "--ytdl-format=".to_owned();
    option.append(format_selector(format_id).as_str());
    let mut args: Vec<String> = Vec::new();
    args.push(option);
    args.push(url.to_owned());
    assert(views(args@) =~= stream_request(url@, format_id@));
    args
}

/// The arguments with which the downloader fetches the video at `url` in
/// the format `format_id`, with subtitles where `subs` is set.
pub fn download_args(url: &str, format_id: &str, subs: bool) -> (args: Vec<String>)
    ensures
        views(args@) == download_request(url@, format_id@, subs),
{
    let mut args: Vec<String> = Vec::new();
    args.push("-f".to_owned());
    args.push(format_selector(format_id));
    args.push("--no-mtime".to_owned());
    args.push("--progress".to_owned());
    args.push(url.to_owned());
    if subs {
        args.push("--write-auto-subs".to_owned());
        args.push("--sub-lang".to_owned());
        args.push("en,id".to_owned());
        args.push("--embed-subs".to_owned());
    }
    assert(views(args@) =~= download_request(url@, format_id@, subs));
    args
}

} // verus!
