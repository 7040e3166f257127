//! The records that the browser works with: a search result, a playback
//! format, and what the user can choose.

use vstd::prelude::*;

verus! {

/// One search result.
#[derive(Debug, PartialEq, Eq)]
pub struct VideoItem {
    pub title: String,
    pub channel: String,
    pub duration: String,
    /// The key under which the platform knows the video.
    pub id: String,
    /// Where the preview picture is found; it follows from `id`.
    pub thumbnail: String,
}

/// What a `VideoItem` holds, as sequences of characters.
pub struct VideoItemView {
    pub title: Seq<char>,
    pub channel: Seq<char>,
    pub duration: Seq<char>,
    pub id: Seq<char>,
    pub thumbnail: Seq<char>,
}

impl View for VideoItem {
    type V = VideoItemView;

    open spec fn view(&self) -> VideoItemView {
        VideoItemView {
            title: self.title@,
            channel: self.channel@,
            duration: self.duration@,
            id: self.id@,
            thumbnail: self.thumbnail@,
        }
    }
}

impl Clone for VideoItem {
    fn clone(&self) -> (out: Self)
        ensures
            out@ == self@,
    {
        VideoItem {
            title: self.title.clone(),
            channel: self.channel.clone(),
            duration: self.duration.clone(),
            id: self.id.clone(),
            thumbnail: self.thumbnail.clone(),
        }
    }
}

/// One way in which a video can be played: a resolution in a container.
#[derive(Debug, PartialEq, Eq)]
pub struct VideoFormat {
    /// The height in lines, followed by `p`.
    pub resolution: String,
    pub ext: String,
    pub fps: u64,
    /// The key under which the platform knows the format.
    pub id: String,
    pub vcodec: String,
}

/// What a `VideoFormat` holds, as sequences of characters.
pub struct VideoFormatView {
    pub resolution: Seq<char>,
    pub ext: Seq<char>,
    pub fps: u64,
    pub id: Seq<char>,
    pub vcodec: Seq<char>,
}

impl View for VideoFormat {
    type V = VideoFormatView;

    open spec fn view(&self) -> VideoFormatView {
        VideoFormatView {
            resolution: self.resolution@,
            ext: self.ext@,
            fps: self.fps,
            id: self.id@,
            vcodec: self.vcodec@,
        }
    }
}

impl Clone for VideoFormat {
    fn clone(&self) -> (out: Self)
        ensures
            out@ == self@,
    {
        VideoFormat {
            resolution: self.resolution.clone(),
            ext: self.ext.clone(),
            fps: self.fps,
            id: self.id.clone(),
            vcodec: self.vcodec.clone(),
        }
    }
}

/// What to do with a video once its format is chosen.
#[derive(Clone, Copy, Debug, PartialEq, Eq, Structural)]
pub enum Action {
    Stream,
    Download,
}

/// What the user chose in the list of search results.
#[derive(Debug, PartialEq, Eq)]
pub enum Selection {
    Video(VideoItem),
    NextPage,
    PrevPage,
    Quit,
}

/// What a `Selection` holds.
pub enum SelectionView {
    Video(VideoItemView),
    NextPage,
    PrevPage,
    Quit,
}

impl View for Selection {
    type V = SelectionView;

    open spec fn view(&self) -> SelectionView {
        match self {
            Selection::Video(v) => SelectionView::Video(v@),
            Selection::NextPage => SelectionView::NextPage,
            Selection::PrevPage => SelectionView::PrevPage,
            Selection::Quit => SelectionView::Quit,
        }
    }
}

} // verus!
