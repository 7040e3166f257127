//! Requests to the search and metadata tool, and what is read out of its
//! answers: a page of search results, and the playback formats of one video.

use crate::json::{
    each_json_of, error_text, json_of, parsed_bytes, parsed_text, value_from_slice,
    value_from_str, value_member, Json,
};
use crate::text::{decimal, decimal_text, lemma_views_push, lines, lines_of, same, views};
use crate::types::{VideoFormat, VideoFormatView, VideoItem, VideoItemView};
use serde_json::Value;
use vstd::prelude::*;

verus! {

/// The program that searches, describes and fetches videos.
pub const TOOL: &'static str = "yt-dlp";

/// The number of results on one page.
pub const PAGE_SIZE: u64 = 10;

/// The part of the ranked results that one page asks for.
#[derive(Clone, Copy, Debug, PartialEq, Eq, Structural)]
pub struct SearchWindow {
    /// How many results the tool is asked to rank.
    pub limit: u64,
    /// The index of the first result of the page, counted from 1.
    pub start: u64,
    /// The index of the last result of the page.
    pub end: u64,
}

/// Whether `page` is the number of a page that can be asked for: pages
/// count from 1, as far as the index of a page's last result fits 64 bits.
pub open spec fn page_fits(page: int) -> bool {
    1 <= page && page * PAGE_SIZE <= u64::MAX
}

/// Whether `page` is the number of a page that can be asked for.
pub open spec fn page_in_range(page: u64) -> bool {
    page_fits(page as int)
}

/// Whether `page` can be asked for.
pub fn is_page(page: u64) -> (yes: bool)
    ensures
        yes == page_in_range(page),
{
    1 <= page && page <= u64::MAX / PAGE_SIZE
}

/// The window of page `page`: ten results that follow those of the pages
/// before it.
pub fn search_window(page: u64) -> (w: SearchWindow)
    requires
        page_in_range(page),
    ensures
        w.limit == page * PAGE_SIZE,
        w.start == (page - 1) * PAGE_SIZE + 1,
        w.end == page * PAGE_SIZE,
{
    SearchWindow {
        limit: page * PAGE_SIZE,
        start: (page - 1) * PAGE_SIZE + 1,
        end: page * PAGE_SIZE,
    }
}

/// What the search tool is asked for page `page` of the results for
/// `query`: the ranked results up to the page's last, one JSON record on a
/// line, no warnings, and of them the page's window.
pub open spec fn search_request(query: Seq<char>, page: u64) -> Seq<Seq<char>> {
    seq![
        "ytsearch"@ + decimal((page * PAGE_SIZE) as nat) + ":"@ + query,
        "--dump-json"@,
        "--flat-playlist"@,
        "--no-warnings"@,
        "--playlist-start"@,
        decimal(((page - 1) * PAGE_SIZE + 1) as nat),
        "--playlist-end"@,
        decimal((page * PAGE_SIZE) as nat),
    ]
}

/// What the metadata tool is asked for the video at `url`: one JSON
/// document.
pub open spec fn formats_request(url: Seq<char>) -> Seq<Seq<char>> {
    seq!["-J"@, url]
}

/// The arguments with which the search tool gives page `page` of the
/// results for `query`.
pub fn search_args(query: &str, page: u64) -> (args: Vec<String>)
    requires
        page_in_range(page),
    ensures
        views(args@) == search_request(query@, page),
{
    let w = search_window(page);
    let mut term = "ytsearch".to_owned();
    term.append(decimal_text(w.limit).as_str());
    term.append(":");
    term.append(query);
    let mut args: Vec<String> = Vec::new();
    args.push(term);
    args.push("--dump-json".to_owned());
    args.push("--flat-playlist".to_owned());
    args.push("--no-warnings".to_owned());
    args.push("--playlist-start".to_owned());
    args.push(decimal_text(w.start));
    args.push("--playlist-end".to_owned());
    args.push(decimal_text(w.end));
    assert(views(args@) =~= search_request(query@, page));
    args
}

/// The arguments with which the metadata tool describes the video at `url`.
pub fn formats_args(url: &str) -> (args: Vec<String>)
    ensures
        views(args@) == formats_request(url@),
{
    let mut args: Vec<String> = Vec::new();
    args.push("-J".to_owned());
    args.push(url.to_owned());
    assert(views(args@) =~= formats_request(url@));
    args
}

/// The text under `key` in `doc`, and `fallback` where `doc` has no text
/// there.
pub open spec fn text_or(doc: Json, key: Seq<char>, fallback: Seq<char>) -> Seq<char> {
    match doc.member(key).text() {
        Some(s) => s,
        None => fallback,
    }
}

/// The number under `key` in `doc`, and `fallback` where `doc` has no
/// integer from 0 to `u64::MAX` there.
pub open spec fn unsigned_or(doc: Json, key: Seq<char>, fallback: u64) -> u64 {
    match doc.member(key).unsigned() {
        Some(n) => n,
        None => fallback,
    }
}

/// Where the preview picture of the video `id` is found.
pub open spec fn thumbnail_of(id: Seq<char>) -> Seq<char> {
    "https://i.ytimg.com/vi/"@ + id + "/hqdefault.jpg"@
}

/// The address of the page of the video `id`.
pub open spec fn watch_address(id: Seq<char>) -> Seq<char> {
    "https://www.youtube.com/watch?v="@ + id
}

/// The search result that a record describes. A record without an `id`, or
/// with an empty one, describes none. A missing title reads `?`, a missing
/// channel `Unknown`, a missing duration `??:??`.
pub open spec fn video_of(doc: Json) -> Option<VideoItemView> {
    let id = text_or(doc, "id"@, Seq::empty());
    if id.len() == 0 {
        None
    } else {
        Some(
            VideoItemView {
                title: text_or(doc, "title"@, "?"@),
                channel: text_or(doc, "uploader"@, "Unknown"@),
                duration: text_or(doc, "duration_string"@, "??:??"@),
                id,
                thumbnail: thumbnail_of(id),
            },
        )
    }
}

/// The search result on one line of the tool's output: none where the line
/// is no JSON document, or describes no result.
pub open spec fn search_item(line: Seq<char>) -> Option<VideoItemView> {
    match parsed_text(line) {
        Some(doc) => video_of(doc),
        None => None,
    }
}

/// The search results on `lines`, in the order of the lines.
pub open spec fn search_items_of(lines: Seq<Seq<char>>) -> Seq<VideoItemView>
    decreases lines.len(),
{
    if lines.len() == 0 {
        Seq::empty()
    } else {
        let before = search_items_of(lines.drop_last());
        match search_item(lines.last()) {
            Some(v) => before.push(v),
            None => before,
        }
    }
}

/// The search results in the tool's output.
pub open spec fn search_items(output: Seq<char>) -> Seq<VideoItemView> {
    search_items_of(lines_of(output))
}

/// How many of `lines` hold no search result.
pub open spec fn skipped_lines(lines: Seq<Seq<char>>) -> nat
    decreases lines.len(),
{
    if lines.len() == 0 {
        0
    } else {
        skipped_lines(lines.drop_last()) + if search_item(lines.last()) is None {
            1nat
        } else {
            0nat
        }
    }
}

/// Every line gives one result or is skipped: of `n` lines with `k` that
/// hold no result, `n - k` results are left.
pub proof fn lemma_results_and_skipped_lines(lines: Seq<Seq<char>>)
    ensures
        search_items_of(lines).len() + skipped_lines(lines) == lines.len(),
    decreases lines.len(),
{
    if lines.len() > 0 {
        lemma_results_and_skipped_lines(lines.drop_last());
    }
}

/// Every search result read from the tool's output has an identifier, and
/// its preview picture is the one that follows from the identifier.
pub proof fn lemma_search_items_have_ids(lines: Seq<Seq<char>>)
    ensures
        forall|k: int|
            0 <= k < search_items_of(lines).len() ==> {
                let v = #[trigger] search_items_of(lines)[k];
                v.id.len() > 0 && v.thumbnail == thumbnail_of(v.id)
            },
    decreases lines.len(),
{
    if lines.len() > 0 {
        let before = search_items_of(lines.drop_last());
        let all = search_items_of(lines);
        lemma_search_items_have_ids(lines.drop_last());
        assert forall|k: int| 0 <= k < all.len() implies {
            let v = #[trigger] all[k];
            v.id.len() > 0 && v.thumbnail == thumbnail_of(v.id)
        } by {
            if k < before.len() {
                assert(all[k] == before[k]);
            }
        }
    }
}

/// The text under `key` in `doc`, or `fallback`.
fn text_field(doc: &Value, key: &str, fallback: &str) -> (out: String)
    ensures
        out@ == text_or(json_of(*doc), key@, fallback@),
{
    match value_member(doc, key).as_str() {
        Some(s) => s.to_owned(),
        None => fallback.to_owned(),
    }
}

/// The number under `key` in `doc`, or `fallback`.
fn unsigned_field(doc: &Value, key: &str, fallback: u64) -> (out: u64)
    ensures
        out == unsigned_or(json_of(*doc), key@, fallback),
{
    match value_member(doc, key).as_u64() {
        Some(n) => n,
        None => fallback,
    }
}

/// Where the preview picture of the video `id` is found.
pub fn thumbnail_url(id: &str) -> (out: String)
    ensures
        out@ == thumbnail_of(id@),
{
    let mut out = "https://i.ytimg.com/vi/".to_owned();
    out.append(id);
    out.append("/hqdefault.jpg");
    out
}

/// The address of the page of the video `id`.
pub fn watch_url(id: &str) -> (out: String)
    ensures
        out@ == watch_address(id@),
{
    let mut out = "https://www.youtube.com/watch?v=".to_owned();
    out.append(id);
    out
}

/// The search result that the record `doc` describes.
pub fn video_from_json(doc: &Value) -> (out: Option<VideoItem>)
    ensures
        match out {
            Some(v) => video_of(json_of(*doc)) == Some(v@),
            None => video_of(json_of(*doc)) is None,
        },
{
    proof {
        reveal_strlit("");
    }
    let id = text_field(doc, "id", "");
    assert(""@ =~= Seq::<char>::empty());
    if id.as_str().is_empty() {
        return None;
    }
    Some(
        VideoItem {
            title: text_field(doc, "title", "?"),
            channel: text_field(doc, "uploader", "Unknown"),
            duration: text_field(doc, "duration_string", "??:??"),
            thumbnail: thumbnail_url(id.as_str()),
            id,
        },
    )
}

/// The search results in the tool's output `output`: one for each line that
/// is a JSON record with an `id`, in the order of the lines. The other lines
/// are passed over.
pub fn search_results(output: &str) -> (out: Vec<VideoItem>)
    ensures
        views(out@) == search_items(output@),
        output@.len() == 0 ==> out@.len() == 0,
{
    let all = lines(output);
    let mut out: Vec<VideoItem> = Vec::new();
    let mut k: usize = 0;
    assert(views(all@).take(0) =~= Seq::<Seq<char>>::empty());
    assert(views(out@) =~= Seq::<VideoItemView>::empty());
    while k < all.len()
        invariant
            k <= all@.len(),
            views(out@) == search_items_of(views(all@).take(k as int)),
        decreases all@.len() - k,
    {
        proof {
            assert(views(all@).take(k + 1).drop_last() =~= views(all@).take(k as int));
            assert(views(all@).take(k + 1).last() == all@[k as int]@);
        }
        match value_from_str(all[k].as_str()) {
            Ok(doc) => {
                match video_from_json(&doc) {
                    Some(v) => {
                        proof {
                            lemma_views_push(out@, v);
                        }
                        out.push(v);
                    },
                    None => {},
                }
            },
            Err(_) => {},
        }
        k += 1;
    }
    assert(views(all@).take(k as int) =~= views(all@));
    out
}

/// The metadata document of a video could not be read.
#[derive(Debug, PartialEq, Eq)]
pub struct MalformedDocument {
    /// What the JSON reader said of it.
    pub reason: String,
}

/// The playback format that an entry of the metadata describes. An entry
/// whose video codec is missing or `none`, or whose height is missing or 0,
/// describes none. A missing extension reads `mp4`, a missing frame rate 30,
/// a missing identifier is empty.
pub open spec fn format_of(doc: Json) -> Option<VideoFormatView> {
    let vcodec = text_or(doc, "vcodec"@, "none"@);
    let height = unsigned_or(doc, "height"@, 0);
    if vcodec != "none"@ && height > 0 {
        Some(
            VideoFormatView {
                resolution: decimal(height as nat) + "p"@,
                ext: text_or(doc, "ext"@, "mp4"@),
                fps: unsigned_or(doc, "fps"@, 30),
                id: text_or(doc, "format_id"@, Seq::empty()),
                vcodec,
            },
        )
    } else {
        None
    }
}

/// The playback formats that `entries` describe, in the order of the
/// entries.
pub open spec fn usable_formats(entries: Seq<Json>) -> Seq<VideoFormatView>
    decreases entries.len(),
{
    if entries.len() == 0 {
        Seq::empty()
    } else {
        let before = usable_formats(entries.drop_last());
        match format_of(entries.last()) {
            Some(f) => before.push(f),
            None => before,
        }
    }
}

/// Whether two formats have the same resolution in the same container.
pub open spec fn same_slot(a: VideoFormatView, b: VideoFormatView) -> bool {
    a.resolution == b.resolution && a.ext == b.ext
}

/// Whether one of `formats` has the resolution and container of `f`.
pub open spec fn has_slot(formats: Seq<VideoFormatView>, f: VideoFormatView) -> bool {
    exists|i: int| 0 <= i < formats.len() && same_slot(#[trigger] formats[i], f)
}

/// `formats` without each format that has the resolution and container of
/// one before it.
pub open spec fn first_of_each_slot(formats: Seq<VideoFormatView>) -> Seq<VideoFormatView>
    decreases formats.len(),
{
    if formats.len() == 0 {
        Seq::empty()
    } else {
        let kept = first_of_each_slot(formats.drop_last());
        if has_slot(kept, formats.last()) {
            kept
        } else {
            kept.push(formats.last())
        }
    }
}

/// The playback formats that a metadata document offers: the usable entries
/// of its `formats` array, last entry first, one for each resolution and
/// container. A document without such an array offers none.
pub open spec fn formats_of(doc: Json) -> Seq<VideoFormatView> {
    match doc.member("formats"@).elements() {
        Some(entries) => first_of_each_slot(usable_formats(entries.reverse())),
        None => Seq::empty(),
    }
}

/// Whether `formats[i]` is the first of `formats` with its resolution and
/// container.
pub open spec fn is_first_of_slot(formats: Seq<VideoFormatView>, i: int) -> bool {
    0 <= i < formats.len() && forall|j: int| 0 <= j < i ==> !same_slot(#[trigger] formats[j], formats[i])
}

/// Whether `f` is one of `formats`, and the first of them with its
/// resolution and container.
pub open spec fn leads_slot(formats: Seq<VideoFormatView>, f: VideoFormatView) -> bool {
    exists|i: int| is_first_of_slot(formats, i) && #[trigger] formats[i] == f
}

/// Of the formats that share a resolution and a container, the first is
/// kept and no other: no two of the formats that are left have the same
/// resolution and container, each of them is the first of its kind in
/// `formats`, and each kind found in `formats` is still there.
pub proof fn lemma_first_of_each_slot(formats: Seq<VideoFormatView>)
    ensures
        forall|i: int, j: int|
            #![trigger first_of_each_slot(formats)[i], first_of_each_slot(formats)[j]]
            0 <= i < j < first_of_each_slot(formats).len() ==> !same_slot(
                first_of_each_slot(formats)[i],
                first_of_each_slot(formats)[j],
            ),
        forall|k: int|
            0 <= k < first_of_each_slot(formats).len() ==> leads_slot(
                formats,
                #[trigger] first_of_each_slot(formats)[k],
            ),
        forall|i: int|
            0 <= i < formats.len() ==> has_slot(first_of_each_slot(formats), #[trigger] formats[i]),
    decreases formats.len(),
{
    if formats.len() > 0 {
        let init = formats.drop_last();
        let last = formats.last();
        let kept = first_of_each_slot(init);
        let all = first_of_each_slot(formats);
        lemma_first_of_each_slot(init);
        assert forall|k: int| 0 <= k < kept.len() implies leads_slot(formats, #[trigger] kept[k]) by {
            let i = choose|i: int| is_first_of_slot(init, i) && #[trigger] init[i] == kept[k];
            assert(formats[i] == init[i]);
            assert forall|j: int| 0 <= j < i implies !same_slot(#[trigger] formats[j], formats[i]) by {
                assert(formats[j] == init[j]);
            }
            assert(is_first_of_slot(formats, i));
        }
        assert forall|i: int| 0 <= i < init.len() implies has_slot(all, #[trigger] formats[i]) by {
            assert(formats[i] == init[i]);
            let w = choose|w: int| 0 <= w < kept.len() && same_slot(#[trigger] kept[w], init[i]);
            assert(all[w] == kept[w]);
        }
        if has_slot(kept, last) {
            assert(all == kept);
        } else {
            assert(all == kept.push(last));
            let n = formats.len() - 1;
            assert forall|j: int| 0 <= j < n implies !same_slot(#[trigger] formats[j], formats[n]) by {
                assert(formats[j] == init[j]);
                let w = choose|w: int| 0 <= w < kept.len() && same_slot(#[trigger] kept[w], init[j]);
                if same_slot(formats[j], last) {
                    assert(same_slot(kept[w], last));
                }
            }
            assert(is_first_of_slot(formats, n));
            assert(leads_slot(formats, all[kept.len() as int]));
            assert(same_slot(all[kept.len() as int], formats[n]));
            assert forall|i: int, j: int|
                #![trigger all[i], all[j]]
                0 <= i < j < all.len() implies !same_slot(all[i], all[j]) by {
                if j < kept.len() {
                    assert(all[i] == kept[i] && all[j] == kept[j]);
                } else {
                    assert(all[i] == kept[i]);
                }
            }
            assert forall|k: int| 0 <= k < all.len() implies leads_slot(formats, #[trigger] all[k]) by {
                if k < kept.len() {
                    assert(all[k] == kept[k]);
                }
            }
        }
    }
}

/// The same of a whole document: among the formats that it offers no two
/// have the same resolution and container, and each of them comes from the
/// last entry of its kind in the document's `formats` array.
pub proof fn lemma_formats_distinct(doc: Json)
    ensures
        forall|i: int, j: int|
            #![trigger formats_of(doc)[i], formats_of(doc)[j]]
            0 <= i < j < formats_of(doc).len() ==> !same_slot(formats_of(doc)[i], formats_of(doc)[j]),
        doc.member("formats"@).elements() matches Some(entries) ==> forall|k: int|
            0 <= k < formats_of(doc).len() ==> leads_slot(
                usable_formats(entries.reverse()),
                #[trigger] formats_of(doc)[k],
            ),
{
    match doc.member("formats"@).elements() {
        Some(entries) => {
            lemma_first_of_each_slot(usable_formats(entries.reverse()));
        },
        None => {},
    }
}

/// Whether `f` can be shown: it has a video codec, and its resolution is a
/// height above 0.
pub open spec fn is_usable(f: VideoFormatView) -> bool {
    f.vcodec != "none"@ && exists|height: nat| height > 0 && f.resolution == decimal(height) + "p"@
}

/// Every format that a metadata document offers can be shown.
pub proof fn lemma_formats_are_usable(doc: Json)
    ensures
        forall|k: int| 0 <= k < formats_of(doc).len() ==> is_usable(#[trigger] formats_of(doc)[k]),
{
    match doc.member("formats"@).elements() {
        Some(entries) => {
            let usable = usable_formats(entries.reverse());
            lemma_usable_formats(entries.reverse());
            lemma_first_of_each_slot(usable);
            assert forall|k: int| 0 <= k < formats_of(doc).len() implies is_usable(
                #[trigger] formats_of(doc)[k],
            ) by {
                let f = formats_of(doc)[k];
                assert(leads_slot(usable, f));
                let i = choose|i: int| is_first_of_slot(usable, i) && #[trigger] usable[i] == f;
                assert(is_usable(usable[i]));
            }
        },
        None => {},
    }
}

/// Every one of the formats that entries describe can be shown.
proof fn lemma_usable_formats(entries: Seq<Json>)
    ensures
        forall|k: int|
            0 <= k < usable_formats(entries).len() ==> is_usable(
                #[trigger] usable_formats(entries)[k],
            ),
    decreases entries.len(),
{
    if entries.len() > 0 {
        let before = usable_formats(entries.drop_last());
        let all = usable_formats(entries);
        lemma_usable_formats(entries.drop_last());
        assert forall|k: int| 0 <= k < all.len() implies is_usable(#[trigger] all[k]) by {
            if k < before.len() {
                assert(all[k] == before[k]);
            } else {
                let height = unsigned_or(entries.last(), "height"@, 0) as nat;
                assert(height > 0 && all[k].resolution == decimal(height) + "p"@);
            }
        }
    }
}

/// The playback format that the entry `doc` describes.
pub fn format_from_json(doc: &Value) -> (out: Option<VideoFormat>)
    ensures
        match out {
            Some(f) => format_of(json_of(*doc)) == Some(f@),
            None => format_of(json_of(*doc)) is None,
        },
{
    proof {
        reveal_strlit("");
    }
    assert(""@ =~= Seq::<char>::empty());
    let vcodec = text_field(doc, "vcodec", "none");
    let height = unsigned_field(doc, "height", 0);
    if same(vcodec.as_str(), "none") || height == 0 {
        return None;
    }
    let mut resolution = decimal_text(height);
    resolution.append("p");
    Some(
        VideoFormat {
            resolution,
            ext: text_field(doc, "ext", "mp4"),
            fps: unsigned_field(doc, "fps", 30),
            id: text_field(doc, "format_id", ""),
            vcodec,
        },
    )
}

/// Whether one of `formats` has the resolution and container of `f`.
fn slot_taken(formats: &Vec<VideoFormat>, f: &VideoFormat) -> (yes: bool)
    ensures
        yes == has_slot(views(formats@), f@),
{
    let mut i: usize = 0;
    while i < formats.len()
        invariant
            i <= formats@.len(),
            forall|j: int| 0 <= j < i ==> !same_slot(#[trigger] views(formats@)[j], f@),
        decreases formats@.len() - i,
    {
        if same(formats[i].resolution.as_str(), f.resolution.as_str()) && same(
            formats[i].ext.as_str(),
            f.ext.as_str(),
        ) {
            assert(same_slot(views(formats@)[i as int], f@));
            return true;
        }
        i += 1;
    }
    false
}

/// The playback formats that the metadata document `doc` offers.
pub fn formats_from_json(doc: &Value) -> (out: Vec<VideoFormat>)
    ensures
        views(out@) == formats_of(json_of(*doc)),
{
    let mut out: Vec<VideoFormat> = Vec::new();
    assert(views(out@) =~= Seq::<VideoFormatView>::empty());
    match value_member(doc, "formats").as_array() {
        None => {},
        Some(entries) => {
            let n = entries.len();
            let ghost rev = each_json_of(entries@).reverse();
            let mut k: usize = n;
            assert(rev.take(0) =~= Seq::<Json>::empty());
            while k > 0
                invariant
                    k <= n == entries@.len(),
                    rev == each_json_of(entries@).reverse(),
                    views(out@) == first_of_each_slot(usable_formats(rev.take(n - k))),
                decreases k,
            {
                k -= 1;
                proof {
                    assert(rev.take(n - k).drop_last() =~= rev.take(n - k - 1));
                    assert(rev.take(n - k).last() == json_of(entries@[k as int]));
                }
                let ghost before = usable_formats(rev.take(n - k - 1));
                match format_from_json(&entries[k]) {
                    Some(f) => {
                        proof {
                            assert(before.push(f@).drop_last() =~= before);
                            assert(usable_formats(rev.take(n - k)) == before.push(f@));
                        }
                        if !slot_taken(&out, &f) {
                            proof {
                                lemma_views_push(out@, f);
                            }
                            out.push(f);
                        }
                    },
                    None => {},
                }
            }
            assert(rev.take(n as int) =~= rev);
        },
    }
    out
}

/// The playback formats that the metadata `bytes` offer. The bytes are one
/// JSON document; where they are none, that is the error.
pub fn parse_formats(bytes: &[u8]) -> (out: Result<Vec<VideoFormat>, MalformedDocument>)
    ensures
        match out {
            Ok(formats) => parsed_bytes(bytes@) is Some && views(formats@) == formats_of(
                parsed_bytes(bytes@)->0,
            ),
            Err(_) => parsed_bytes(bytes@) is None,
        },
{
    match value_from_slice(bytes) {
        Ok(doc) => Ok(formats_from_json(&doc)),
        Err(e) => Err(MalformedDocument { reason: error_text(&e) }),
    }
}

} // verus!
