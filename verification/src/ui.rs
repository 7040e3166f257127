//! The lists that the picker shows, and what a picked line means.
//!
//! A list is text: one row on a line, the columns of a row parted by
//! `delimiter()`. The picker hands back the row that the user chose, or
//! nothing; the column that holds an identifier says what was chosen.

use crate::text::{
    contains, decimal, decimal_text, has, is_digit, is_first_occurrence, lemma_decimal_digits,
    lemma_first_occurrence, lemma_no_occurrence, lemma_not_blank, lemma_trimmed_fixed, occurs_at,
    pad_right, padded, same, split, split_on, trim, trimmed, trimmed_end, trimmed_start, views,
};
use crate::types::{
    Action, Selection, SelectionView, VideoFormat, VideoFormatView, VideoItem, VideoItemView,
};
use vstd::prelude::*;

verus! {

/// The program that shows a list and lets the user pick a row.
pub const PICKER: &'static str = "fzf";

/// What parts the columns of a row: a vertical bar between two spaces.
pub open spec fn delimiter() -> Seq<char> {
    " │ "@
}

/// The row of one search result: title, channel, duration, identifier and
/// preview picture.
pub open spec fn video_row(v: VideoItemView) -> Seq<char> {
    v.title + delimiter() + v.channel + delimiter() + v.duration + delimiter() + v.id
        + delimiter() + v.thumbnail + "\n"@
}

/// The rows of `items`, in order.
pub open spec fn video_rows_of(items: Seq<VideoItemView>) -> Seq<char>
    decreases items.len(),
{
    if items.len() == 0 {
        Seq::empty()
    } else {
        video_rows_of(items.drop_last()) + video_row(items.last())
    }
}

/// The row that asks for the next page; its identifier column reads `next`.
pub open spec fn next_row() -> Seq<char> {
    "➡️  NEXT PAGE │ Nav │ - │ next │ -\n"@
}

/// The row that asks for the page before; its identifier column reads
/// `prev`.
pub open spec fn prev_row() -> Seq<char> {
    "⬅️  PREV PAGE │ Nav │ - │ prev │ -\n"@
}

/// The row that ends the session; its identifier column reads `quit`.
pub open spec fn quit_row() -> Seq<char> {
    "❌ QUIT │ Exit │ - │ quit │ -\n"@
}

/// The rows that follow the search results: next page, the page before
/// (not on the first page), quit.
pub open spec fn navigation_rows(page: u64) -> Seq<char> {
    if page > 1 {
        next_row() + prev_row() + quit_row()
    } else {
        next_row() + quit_row()
    }
}

/// The list of page `page` with the results `items`.
pub open spec fn video_list(items: Seq<VideoItemView>, page: u64) -> Seq<char> {
    video_rows_of(items) + navigation_rows(page)
}

/// Column `k` of `line`, counted from 0, without the white space around
/// it; `None` where the line has no such column.
pub open spec fn column(line: Seq<char>, k: int) -> Option<Seq<char>> {
    let parts = split_on(line, delimiter());
    if 0 <= k < parts.len() {
        Some(trimmed(parts[k]))
    } else {
        None
    }
}

/// The first of `items` with the identifier `id`.
pub open spec fn video_with_id(items: Seq<VideoItemView>, id: Seq<char>) -> Option<VideoItemView>
    decreases items.len(),
{
    if items.len() == 0 {
        None
    } else if items[0].id == id {
        Some(items[0])
    } else {
        video_with_id(items.drop_first(), id)
    }
}

/// What the picker's answer `output` chooses from `items`. The fourth
/// column decides: `next`, `prev` and `quit` are the navigation rows, and
/// anything else is looked up among the identifiers of `items`. No answer,
/// a line of fewer than four columns and an identifier that none of `items`
/// has all mean quit.
pub open spec fn video_choice(output: Seq<char>, items: Seq<VideoItemView>) -> SelectionView {
    if trimmed(output).len() == 0 {
        SelectionView::Quit
    } else {
        match column(output, 3) {
            None => SelectionView::Quit,
            Some(key) => if key == "next"@ {
                SelectionView::NextPage
            } else if key == "prev"@ {
                SelectionView::PrevPage
            } else if key == "quit"@ {
                SelectionView::Quit
            } else {
                match video_with_id(items, key) {
                    Some(v) => SelectionView::Video(v),
                    None => SelectionView::Quit,
                }
            },
        }
    }
}

/// What `video_with_id` finds has the identifier asked for and is one of
/// the items; it finds nothing only where no item has the identifier.
pub proof fn lemma_video_with_id(items: Seq<VideoItemView>, id: Seq<char>)
    ensures
        match video_with_id(items, id) {
            Some(v) => v.id == id && items.contains(v),
            None => forall|i: int| 0 <= i < items.len() ==> (#[trigger] items[i]).id != id,
        },
    decreases items.len(),
{
    if items.len() > 0 {
        if items[0].id == id {
            assert(items[0] == items[0]);
        } else {
            let rest = items.drop_first();
            lemma_video_with_id(rest, id);
            match video_with_id(rest, id) {
                Some(v) => {
                    let k = choose|k: int| 0 <= k < rest.len() && rest[k] == v;
                    assert(items[k + 1] == v);
                },
                None => {
                    assert forall|i: int| 0 <= i < items.len() implies (#[trigger] items[i]).id
                        != id by {
                        if i > 0 {
                            assert(rest[i - 1] == items[i]);
                        }
                    }
                },
            }
        }
    }
}

/// The navigation rows come before the search results: an answer whose
/// fourth column reads `next`, `prev` or `quit` chooses that, whatever the
/// items are, also where one of them has such an identifier. A search
/// result is chosen only by an identifier that is none of the three, and
/// then it is one of the items and has that identifier.
pub proof fn lemma_navigation_comes_first(output: Seq<char>, items: Seq<VideoItemView>)
    ensures
        trimmed(output).len() > 0 && column(output, 3) == Some("next"@) ==> video_choice(
            output,
            items,
        ) == SelectionView::NextPage,
        trimmed(output).len() > 0 && column(output, 3) == Some("prev"@) ==> video_choice(
            output,
            items,
        ) == SelectionView::PrevPage,
        trimmed(output).len() > 0 && column(output, 3) == Some("quit"@) ==> video_choice(
            output,
            items,
        ) == SelectionView::Quit,
        video_choice(output, items) matches SelectionView::Video(v) ==> {
            &&& column(output, 3) == Some(v.id)
            &&& v.id != "next"@
            &&& v.id != "prev"@
            &&& v.id != "quit"@
            &&& items.contains(v)
        },
{
    reveal_strlit("next");
    reveal_strlit("prev");
    reveal_strlit("quit");
    assert("next"@ != "prev"@) by {
        assert("next"@[0] != "prev"@[0]);
    }
    assert("next"@ != "quit"@) by {
        assert("next"@[0] != "quit"@[0]);
    }
    assert("prev"@ != "quit"@) by {
        assert("prev"@[0] != "quit"@[0]);
    }
    match column(output, 3) {
        Some(key) => {
            lemma_video_with_id(items, key);
        },
        None => {},
    }
}

/// Whether a column that holds `field` ends where the row means it to:
/// with the delimiter behind it, the delimiter stands nowhere before the
/// end of `field`.
pub open spec fn ends_column(field: Seq<char>) -> bool {
    is_first_occurrence(field + delimiter(), delimiter(), field.len() as int)
}

/// Whether the vertical bar of the delimiter stands in `s`.
pub open spec fn has_bar(s: Seq<char>) -> bool {
    exists|i: int| 0 <= i < s.len() && #[trigger] s[i] == '│'
}

/// A text without a vertical bar holds no delimiter, and ends its column
/// where the row means it to, padded or not, and with a line feed behind
/// it.
pub proof fn lemma_no_bar(s: Seq<char>, width: nat)
    requires
        !has_bar(s),
    ensures
        ends_column(s),
        ends_column(padded(s, width)),
        !contains(s, delimiter()),
        !contains(s + "\n"@, delimiter()),
{
    reveal_strlit(" │ ");
    reveal_strlit("\n");
    let d = delimiter();
    let p = padded(s, width);
    let l = s + "\n"@;
    assert forall|i: int| 0 <= i < p.len() implies p[i] != '│' by {
        if i < s.len() {
            assert(p[i] == s[i]);
        }
    }
    assert forall|i: int| 0 <= i < l.len() implies l[i] != '│' by {
        if i < s.len() {
            assert(l[i] == s[i]);
        }
    }
    assert forall|j: int| 0 <= j < s.len() implies !occurs_at(s + d, d, j) by {
        if occurs_at(s + d, d, j) {
            assert((s + d).subrange(j, j + 3)[1] == d[1]);
            if j + 1 < s.len() {
                assert((s + d)[j + 1] == s[j + 1]);
            }
        }
    }
    assert((s + d).subrange(s.len() as int, s.len() as int + 3) =~= d);
    assert forall|j: int| 0 <= j < p.len() implies !occurs_at(p + d, d, j) by {
        if occurs_at(p + d, d, j) {
            assert((p + d).subrange(j, j + 3)[1] == d[1]);
            if j + 1 < p.len() {
                assert((p + d)[j + 1] == p[j + 1]);
            }
        }
    }
    assert((p + d).subrange(p.len() as int, p.len() as int + 3) =~= d);
    assert forall|j: int| !occurs_at(s, d, j) by {
        if occurs_at(s, d, j) {
            assert(s.subrange(j, j + 3)[1] == d[1]);
            assert(s[j + 1] == '│');
        }
    }
    assert forall|j: int| !occurs_at(l, d, j) by {
        if occurs_at(l, d, j) {
            assert(l.subrange(j, j + 3)[1] == d[1]);
            assert(l[j + 1] == '│');
        }
    }
}

/// A row that starts with a column `a` and the delimiter splits into `a`
/// and the columns of what follows.
pub proof fn lemma_split_first_column(a: Seq<char>, rest: Seq<char>)
    requires
        ends_column(a),
    ensures
        split_on(a + delimiter() + rest, delimiter()) == seq![a] + split_on(rest, delimiter()),
{
    reveal_strlit(" │ ");
    let d = delimiter();
    let row = a + d + rest;
    let n = a.len() as int;
    assert(row.subrange(n, n + 3) =~= d);
    assert forall|j: int| 0 <= j < n implies !occurs_at(row, d, j) by {
        if occurs_at(row, d, j) {
            assert(row.subrange(j, j + 3) =~= (a + d).subrange(j, j + 3));
            assert(occurs_at(a + d, d, j));
        }
    }
    lemma_first_occurrence(row, d, n);
    assert(row.take(n) =~= a);
    assert(row.skip(n + 3) =~= rest);
}

/// A text without the delimiter is one column.
pub proof fn lemma_split_last_column(a: Seq<char>)
    requires
        !contains(a, delimiter()),
    ensures
        split_on(a, delimiter()) == seq![a],
{
    lemma_no_occurrence(a, delimiter());
}

/// The identifier that is written into the row of a search result is the
/// one that is read from the row, provided that in the first four columns
/// the delimiter stands only where the row puts it, and that the
/// identifier has no white space at either end. Such a row is never taken
/// for no answer.
pub proof fn lemma_video_row_round_trip(v: VideoItemView)
    requires
        ends_column(v.title),
        ends_column(v.channel),
        ends_column(v.duration),
        ends_column(v.id),
        trimmed(v.id) == v.id,
    ensures
        column(video_row(v), 3) == Some(v.id),
        trimmed(video_row(v)).len() > 0,
{
    reveal_strlit(" │ ");
    let d = delimiter();
    let row = video_row(v);
    let r4 = v.thumbnail + "\n"@;
    let r3 = v.id + d + r4;
    let r2 = v.duration + d + r3;
    let r1 = v.channel + d + r2;
    assert(row =~= v.title + d + r1);
    lemma_split_first_column(v.title, r1);
    lemma_split_first_column(v.channel, r2);
    lemma_split_first_column(v.duration, r3);
    lemma_split_first_column(v.id, r4);
    assert(split_on(row, d) =~= seq![v.title, v.channel, v.duration, v.id] + split_on(r4, d));
    assert(split_on(row, d)[3] == v.id);
    assert(row[v.title.len() as int + 1] == '│');
    lemma_not_blank(row, v.title.len() as int + 1);
}

/// The identifier that is written into the row of a format is the one
/// that is read from the row, provided that the delimiter stands in the
/// row only where the row puts it, and that the identifier has no white
/// space at either end.
pub proof fn lemma_format_row_round_trip(f: VideoFormatView)
    requires
        ends_column(padded(f.resolution, 8)),
        ends_column(padded(f.ext, 5)),
        ends_column(f.vcodec),
        !contains(f.id + "\n"@, delimiter()),
        trimmed(f.id) == f.id,
    ensures
        chosen_format_id(format_row(f)) == Some(f.id),
{
    reveal_strlit(" │ ");
    reveal_strlit("\n");
    reveal_strlit("fps");
    let d = delimiter();
    let a1 = padded(f.resolution, 8);
    let a2 = padded(f.ext, 5);
    let rate = decimal(f.fps as nat) + "fps"@;
    let a3 = padded(rate, 10);
    let a4 = f.vcodec;
    let a5 = f.id + "\n"@;
    let row = format_row(f);
    lemma_decimal_digits(f.fps as nat);
    assert forall|i: int| 0 <= i < rate.len() implies rate[i] != '│' by {
        if i < decimal(f.fps as nat).len() {
            assert(is_digit(decimal(f.fps as nat)[i]));
        }
    }
    lemma_no_bar(rate, 10);
    let r4 = a4 + d + a5;
    let r3 = a3 + d + r4;
    let r2 = a2 + d + r3;
    assert(row =~= a1 + d + r2);
    lemma_split_first_column(a1, r2);
    lemma_split_first_column(a2, r3);
    lemma_split_first_column(a3, r4);
    lemma_split_first_column(a4, a5);
    lemma_split_last_column(a5);
    let parts = split_on(row, d);
    assert(parts =~= seq![a1, a2, a3, a4, a5]);
    // the row is not blank: its first delimiter holds a bar
    assert(row[a1.len() as int + 1] == '│');
    lemma_not_blank(row, a1.len() as int + 1);
    // the line feed behind the identifier is trimmed away, and nothing else
    if f.id.len() == 0 {
        assert(a5 =~= seq!['\n']);
        assert(a5.drop_first() =~= Seq::<char>::empty());
        assert(trimmed_start(a5) == trimmed_start(Seq::<char>::empty()));
        assert(trimmed(a5) =~= f.id);
    } else {
        lemma_trimmed_fixed(f.id);
        assert(a5[0] == f.id[0]);
        assert(trimmed_start(a5) == a5);
        assert(a5.drop_last() =~= f.id);
        assert(trimmed_end(a5) == trimmed_end(f.id));
    }
}

/// What parts the columns of a row.
pub fn separator() -> (out: &'static str)
    ensures
        out@ == delimiter(),
        out@.len() == 3,
{
    proof {
        reveal_strlit(" │ ");
    }
    " │ "
}

/// The row of one search result.
fn video_row_text(v: &VideoItem) -> (out: String)
    ensures
        out@ == video_row(v@),
{
    let mut out = v.title.clone();
    out.append(separator());
    out.append(v.channel.as_str());
    out.append(separator());
    out.append(v.duration.as_str());
    out.append(separator());
    out.append(v.id.as_str());
    out.append(separator());
    out.append(v.thumbnail.as_str());
    out.append("\n");
    out
}

/// The list that the picker shows for page `page`: the rows of `videos`,
/// and after them the navigation rows.
pub fn video_rows(videos: &[VideoItem], page: u64) -> (out: String)
    ensures
        out@ == video_list(views(videos@), page),
{
    let mut out = String::new();
    let mut k: usize = 0;
    assert(views(videos@).take(0) =~= Seq::<VideoItemView>::empty());
    while k < videos.len()
        invariant
            k <= videos@.len(),
            out@ == video_rows_of(views(videos@).take(k as int)),
        decreases videos@.len() - k,
    {
        proof {
            assert(views(videos@).take(k + 1).drop_last() =~= views(videos@).take(k as int));
            assert(views(videos@).take(k + 1).last() == videos@[k as int]@);
        }
        out.append(video_row_text(&videos[k]).as_str());
        k += 1;
    }
    assert(views(videos@).take(k as int) =~= views(videos@));
    out.append("➡️  NEXT PAGE │ Nav │ - │ next │ -\n");
    if page > 1 {
        out.append("⬅️  PREV PAGE │ Nav │ - │ prev │ -\n");
    }
    out.append("❌ QUIT │ Exit │ - │ quit │ -\n");
    assert(out@ =~= video_list(views(videos@), page));
    out
}

/// Column `k` of `line`, without the white space around it.
pub fn column_text(line: &str, k: usize) -> (out: Option<String>)
    ensures
        match out {
            Some(c) => column(line@, k as int) == Some(c@),
            None => column(line@, k as int) is None,
        },
{
    let parts = split(line, separator());
    assert(views(parts@).len() == parts@.len());
    if k < parts.len() {
        assert(views(parts@)[k as int] == parts@[k as int]@);
        Some(trim(parts[k].as_str()))
    } else {
        None
    }
}

/// Whether `line` is empty but for white space.
fn is_blank(line: &str) -> (yes: bool)
    ensures
        yes == (trimmed(line@).len() == 0),
{
    trim(line).as_str().is_empty()
}

/// The first of `videos` with the identifier `id`.
fn find_video(videos: &[VideoItem], id: &str) -> (out: Option<VideoItem>)
    ensures
        match out {
            Some(v) => video_with_id(views(videos@), id@) == Some(v@),
            None => video_with_id(views(videos@), id@) is None,
        },
{
    let mut k: usize = 0;
    assert(views(videos@).skip(0) =~= views(videos@));
    while k < videos.len()
        invariant
            k <= videos@.len(),
            video_with_id(views(videos@), id@) == video_with_id(views(videos@).skip(k as int), id@),
        decreases videos@.len() - k,
    {
        assert(views(videos@).skip(k as int)[0] == videos@[k as int]@);
        if same(videos[k].id.as_str(), id) {
            return Some(videos[k].clone());
        }
        assert(views(videos@).skip(k as int).drop_first() =~= views(videos@).skip(k + 1));
        k += 1;
    }
    None
}

/// What the picker's answer `output` chooses from `videos`.
pub fn chosen_video(output: &str, videos: &[VideoItem]) -> (out: Selection)
    ensures
        out@ == video_choice(output@, views(videos@)),
{
    if is_blank(output) {
        return Selection::Quit;
    }
    match column_text(output, 3) {
        None => Selection::Quit,
        Some(key) => {
            if same(key.as_str(), "next") {
                Selection::NextPage
            } else if same(key.as_str(), "prev") {
                Selection::PrevPage
            } else if same(key.as_str(), "quit") {
                Selection::Quit
            } else {
                match find_video(videos, key.as_str()) {
                    Some(v) => Selection::Video(v),
                    None => Selection::Quit,
                }
            }
        },
    }
}

/// The row of one playback format: resolution, container, frame rate and
/// codec in columns of fixed width, then the identifier.
pub open spec fn format_row(f: VideoFormatView) -> Seq<char> {
    padded(f.resolution, 8) + delimiter() + padded(f.ext, 5) + delimiter() + padded(
        decimal(f.fps as nat) + "fps"@,
        10,
    ) + delimiter() + f.vcodec + delimiter() + f.id + "\n"@
}

/// The rows of `formats`, in order.
pub open spec fn format_list(formats: Seq<VideoFormatView>) -> Seq<char>
    decreases formats.len(),
{
    if formats.len() == 0 {
        Seq::empty()
    } else {
        format_list(formats.drop_last()) + format_row(formats.last())
    }
}

/// The identifier column of the picker's answer `output` to a list of
/// formats: the fifth column. No answer and a line of fewer than five
/// columns have none.
pub open spec fn chosen_format_id(output: Seq<char>) -> Option<Seq<char>> {
    if trimmed(output).len() == 0 {
        None
    } else {
        column(output, 4)
    }
}

/// The first of `formats` with the identifier `id`.
pub open spec fn format_with_id(formats: Seq<VideoFormatView>, id: Seq<char>) -> Option<
    VideoFormatView,
>
    decreases formats.len(),
{
    if formats.len() == 0 {
        None
    } else if formats[0].id == id {
        Some(formats[0])
    } else {
        format_with_id(formats.drop_first(), id)
    }
}

/// What the picker's answer `output` chooses from `formats`: the first
/// format with the identifier in the answer's fifth column, if there is
/// one.
pub open spec fn format_choice(output: Seq<char>, formats: Seq<VideoFormatView>) -> Option<
    VideoFormatView,
> {
    match chosen_format_id(output) {
        Some(id) => format_with_id(formats, id),
        None => None,
    }
}

/// The list from which an action is picked.
pub open spec fn action_list() -> Seq<char> {
    "Stream\nDownload"@
}

/// What the picker's answer `output` to the list of actions chooses:
/// streaming where it holds `Stream`, else downloading where it holds
/// `Download`, else nothing.
pub open spec fn action_choice(output: Seq<char>) -> Option<Action> {
    if contains(output, "Stream"@) {
        Some(Action::Stream)
    } else if contains(output, "Download"@) {
        Some(Action::Download)
    } else {
        None
    }
}

/// The row of one playback format.
fn format_row_text(f: &VideoFormat) -> (out: String)
    ensures
        out@ == format_row(f@),
{
    let mut rate = decimal_text(f.fps);
    rate.append("fps");
    let mut out = pad_right(f.resolution.as_str(), 8);
    out.append(separator());
    out.append(pad_right(f.ext.as_str(), 5).as_str());
    out.append(separator());
    out.append(pad_right(rate.as_str(), 10).as_str());
    out.append(separator());
    out.append(f.vcodec.as_str());
    out.append(separator());
    out.append(f.id.as_str());
    out.append("\n");
    out
}

/// The list that the picker shows for `formats`.
pub fn format_rows(formats: &[VideoFormat]) -> (out: String)
    ensures
        out@ == format_list(views(formats@)),
{
    let mut out = String::new();
    let mut k: usize = 0;
    assert(views(formats@).take(0) =~= Seq::<VideoFormatView>::empty());
    while k < formats.len()
        invariant
            k <= formats@.len(),
            out@ == format_list(views(formats@).take(k as int)),
        decreases formats@.len() - k,
    {
        proof {
            assert(views(formats@).take(k + 1).drop_last() =~= views(formats@).take(k as int));
            assert(views(formats@).take(k + 1).last() == formats@[k as int]@);
        }
        out.append(format_row_text(&formats[k]).as_str());
        k += 1;
    }
    assert(views(formats@).take(k as int) =~= views(formats@));
    out
}

/// The identifier column of the picker's answer `output` to a list of
/// formats.
pub fn chosen_format_key(output: &str) -> (out: Option<String>)
    ensures
        match out {
            Some(id) => chosen_format_id(output@) == Some(id@),
            None => chosen_format_id(output@) is None,
        },
{
    if is_blank(output) {
        None
    } else {
        column_text(output, 4)
    }
}

/// The first of `formats` with the identifier `id`.
fn find_format(formats: &[VideoFormat], id: &str) -> (out: Option<VideoFormat>)
    ensures
        match out {
            Some(f) => format_with_id(views(formats@), id@) == Some(f@),
            None => format_with_id(views(formats@), id@) is None,
        },
{
    let mut k: usize = 0;
    assert(views(formats@).skip(0) =~= views(formats@));
    while k < formats.len()
        invariant
            k <= formats@.len(),
            format_with_id(views(formats@), id@) == format_with_id(
                views(formats@).skip(k as int),
                id@,
            ),
        decreases formats@.len() - k,
    {
        assert(views(formats@).skip(k as int)[0] == formats@[k as int]@);
        if same(formats[k].id.as_str(), id) {
            return Some(formats[k].clone());
        }
        assert(views(formats@).skip(k as int).drop_first() =~= views(formats@).skip(k + 1));
        k += 1;
    }
    None
}

/// What the picker's answer `output` chooses from `formats`.
pub fn chosen_format(output: &str, formats: &[VideoFormat]) -> (out: Option<VideoFormat>)
    ensures
        match out {
            Some(f) => format_choice(output@, views(formats@)) == Some(f@),
            None => format_choice(output@, views(formats@)) is None,
        },
{
    match chosen_format_key(output) {
        Some(id) => find_format(formats, id.as_str()),
        None => None,
    }
}

/// The list from which an action is picked.
pub fn action_rows() -> (out: String)
    ensures
        out@ == action_list(),
{
    "Stream\nDownload".to_owned()
}

/// What the picker's answer `output` to the list of actions chooses.
pub fn chosen_action(output: &str) -> (out: Option<Action>)
    ensures
        out == action_choice(output@),
{
    if has(output, "Stream") {
        Some(Action::Stream)
    } else if has(output, "Download") {
        Some(Action::Download)
    } else {
        None
    }
}

/// How the picker is set up for page `page` of the results: it shows the
/// first three columns, names the page in its header, and draws the
/// picture of the fifth column beside the list.
pub open spec fn video_picker_setup(page: u64) -> Seq<Seq<char>> {
    seq![
        "--ansi"@,
        "--delimiter"@,
        delimiter(),
        "--with-nth"@,
        "1,2,3"@,
        "--header"@,
        "Page "@ + decimal(page as nat) + " (Enhanced Preview)"@,
        "--layout"@,
        "reverse"@,
        "--height"@,
        "100%"@,
        "--cycle"@,
        "--preview"@,
        "curl -sL {5} | chafa --format=symbols --symbols=all --colors=full --size=60x30 --stretch -"@,
        "--preview-window"@,
        "right:60%"@,
        "--pointer"@,
        "▶"@,
    ]
}

/// How the picker is set up for a list of formats: it shows the first four
/// columns.
pub open spec fn format_picker_setup() -> Seq<Seq<char>> {
    seq![
        "--height"@,
        "40%"@,
        "--layout"@,
        "reverse"@,
        "--cycle"@,
        "--header"@,
        "Select Resolution"@,
        "--delimiter"@,
        delimiter(),
        "--with-nth"@,
        "1,2,3,4"@,
    ]
}

/// How the picker is set up for the list of actions.
pub open spec fn action_picker_setup() -> Seq<Seq<char>> {
    seq!["--height"@, "20%"@, "--layout"@, "reverse"@, "--cycle"@, "--header"@, "Action"@]
}

/// The arguments of the picker for page `page` of the results.
pub fn video_picker_args(page: u64) -> (args: Vec<String>)
    ensures
        views(args@) == video_picker_setup(page),
{
    let mut header = "Page ".to_owned();
    header.append(decimal_text(page).as_str());
    header.append(" (Enhanced Preview)");
    let mut args: Vec<String> = Vec::new();
    args.push("--ansi".to_owned());
    args.push("--delimiter".to_owned());
    args.push(separator().to_owned());
    args.push("--with-nth".to_owned());
    args.push("1,2,3".to_owned());
    args.push("--header".to_owned());
    args.push(header);
    args.push("--layout".to_owned());
    args.push("reverse".to_owned());
    args.push("--height".to_owned());
    args.push("100%".to_owned());
    args.push("--cycle".to_owned());
    args.push("--preview".to_owned());
    args.push(
        "curl -sL {5} | chafa --format=symbols --symbols=all --colors=full --size=60x30 --stretch -".to_owned(),
    );
    args.push("--preview-window".to_owned());
    args.push("right:60%".to_owned());
    args.push("--pointer".to_owned());
    args.push("▶".to_owned());
    assert(views(args@) =~= video_picker_setup(page));
    args
}

/// The arguments of the picker for a list of formats.
pub fn format_picker_args() -> (args: Vec<String>)
    ensures
        views(args@) == format_picker_setup(),
{
    let mut args: Vec<String> = Vec::new();
    args.push("--height".to_owned());
    args.push("40%".to_owned());
    args.push("--layout".to_owned());
    args.push("reverse".to_owned());
    args.push("--cycle".to_owned());
    args.push("--header".to_owned());
    args.push("Select Resolution".to_owned());
    args.push("--delimiter".to_owned());
    args.push(separator().to_owned());
    args.push("--with-nth".to_owned());
    args.push("1,2,3,4".to_owned());
    assert(views(args@) =~= format_picker_setup());
    args
}

/// The arguments of the picker for the list of actions.
pub fn action_picker_args() -> (args: Vec<String>)
    ensures
        views(args@) == action_picker_setup(),
{
    let mut args: Vec<String> = Vec::new();
    args.push("--height".to_owned());
    args.push("20%".to_owned());
    args.push("--layout".to_owned());
    args.push("reverse".to_owned());
    args.push("--cycle".to_owned());
    args.push("--header".to_owned());
    args.push("Action".to_owned());
    assert(views(args@) =~= action_picker_setup());
    args
}

} // verus!
