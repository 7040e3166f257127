use yurei::types::{Action, Selection, VideoFormat, VideoItem};
use yurei::ui::{
    action_picker_args, action_rows, chosen_action, chosen_format, chosen_format_key,
    chosen_video, column_text, format_picker_args, format_rows, separator, video_picker_args,
    video_rows,
};

fn video(id: &str, title: &str) -> VideoItem {
    VideoItem {
        title: title.to_string(),
        channel: "Chan".to_string(),
        duration: "1:00".to_string(),
        id: id.to_string(),
        thumbnail: format!("https://i.ytimg.com/vi/{}/hqdefault.jpg", id),
    }
}

fn format(resolution: &str, ext: &str, fps: u64, id: &str, vcodec: &str) -> VideoFormat {
    VideoFormat {
        resolution: resolution.to_string(),
        ext: ext.to_string(),
        fps,
        id: id.to_string(),
        vcodec: vcodec.to_string(),
    }
}

const NEXT: &str = "➡️  NEXT PAGE │ Nav │ - │ next │ -\n";
const PREV: &str = "⬅️  PREV PAGE │ Nav │ - │ prev │ -\n";
const QUIT: &str = "❌ QUIT │ Exit │ - │ quit │ -\n";

#[test]
fn the_separator_is_a_bar_between_spaces() {
    assert_eq!(separator(), " \u{2502} ");
}

#[test]
fn video_rows_of_the_first_page_have_no_way_back() {
    let videos = vec![video("a1", "First"), video("b2", "Second")];
    let expected = format!(
        "First │ Chan │ 1:00 │ a1 │ https://i.ytimg.com/vi/a1/hqdefault.jpg\n\
         Second │ Chan │ 1:00 │ b2 │ https://i.ytimg.com/vi/b2/hqdefault.jpg\n{}{}",
        NEXT, QUIT
    );
    assert_eq!(video_rows(&videos, 1), expected);
}

#[test]
fn video_rows_of_a_later_page_offer_the_page_before() {
    let videos = vec![video("a1", "First")];
    let expected = format!(
        "First │ Chan │ 1:00 │ a1 │ https://i.ytimg.com/vi/a1/hqdefault.jpg\n{}{}{}",
        NEXT, PREV, QUIT
    );
    assert_eq!(video_rows(&videos, 2), expected);
    assert_eq!(video_rows(&[], 7), format!("{}{}{}", NEXT, PREV, QUIT));
    assert_eq!(video_rows(&[], 1), format!("{}{}", NEXT, QUIT));
}

#[test]
fn column_text_counts_from_zero_and_trims() {
    assert_eq!(column_text(" a │  b  │ c\n", 0), Some("a".to_string()));
    assert_eq!(column_text(" a │  b  │ c\n", 1), Some("b".to_string()));
    assert_eq!(column_text(" a │  b  │ c\n", 2), Some("c".to_string()));
    assert_eq!(column_text(" a │  b  │ c\n", 3), None);
    assert_eq!(column_text("", 0), Some(String::new()));
    assert_eq!(column_text("", 1), None);
}

#[test]
fn a_picked_result_is_found_by_its_identifier() {
    let videos = vec![video("a1", "First"), video("b2", "Second"), video("c3", "Third")];
    let picked = "Second │ Chan │ 1:00 │ b2 │ https://i.ytimg.com/vi/b2/hqdefault.jpg\n";
    assert_eq!(chosen_video(picked, &videos), Selection::Video(video("b2", "Second")));
}

#[test]
fn every_row_of_the_list_chooses_what_it_shows() {
    let videos = vec![video("a1", "First"), video("b2", "Second")];
    let list = video_rows(&videos, 2);
    let rows: Vec<&str> = list.split_inclusive('\n').collect();
    assert_eq!(rows.len(), 5);
    assert_eq!(chosen_video(rows[0], &videos), Selection::Video(video("a1", "First")));
    assert_eq!(chosen_video(rows[1], &videos), Selection::Video(video("b2", "Second")));
    assert_eq!(chosen_video(rows[2], &videos), Selection::NextPage);
    assert_eq!(chosen_video(rows[3], &videos), Selection::PrevPage);
    assert_eq!(chosen_video(rows[4], &videos), Selection::Quit);
}

#[test]
fn of_two_results_with_one_identifier_the_first_is_chosen() {
    let videos = vec![video("a1", "First"), video("a1", "Again")];
    assert_eq!(
        chosen_video("Again │ Chan │ 1:00 │ a1 │ x\n", &videos),
        Selection::Video(video("a1", "First"))
    );
}

#[test]
fn no_answer_means_quit() {
    let videos = vec![video("a1", "First")];
    assert_eq!(chosen_video("", &videos), Selection::Quit);
    assert_eq!(chosen_video(" \n\t", &videos), Selection::Quit);
}

#[test]
fn a_short_line_means_quit() {
    let videos = vec![video("a1", "First")];
    assert_eq!(chosen_video("First │ Chan │ a1\n", &videos), Selection::Quit);
    assert_eq!(chosen_video("a1", &videos), Selection::Quit);
}

#[test]
fn an_unknown_identifier_means_quit() {
    let videos = vec![video("a1", "First")];
    assert_eq!(chosen_video("First │ Chan │ 1:00 │ zz │ x\n", &videos), Selection::Quit);
    assert_eq!(chosen_video("First │ Chan │ 1:00 │ A1 │ x\n", &videos), Selection::Quit);
    assert_eq!(chosen_video("First │ Chan │ 1:00 │  │ x\n", &videos), Selection::Quit);
}

#[test]
fn a_result_named_like_a_navigation_row_is_never_chosen() {
    let videos = vec![video("next", "N"), video("prev", "P"), video("quit", "Q")];
    assert_eq!(
        chosen_video("N │ Chan │ 1:00 │ next │ x\n", &videos),
        Selection::NextPage
    );
    assert_eq!(
        chosen_video("P │ Chan │ 1:00 │ prev │ x\n", &videos),
        Selection::PrevPage
    );
    assert_eq!(chosen_video("Q │ Chan │ 1:00 │ quit │ x\n", &videos), Selection::Quit);
}

#[test]
fn a_title_that_holds_the_delimiter_moves_the_columns() {
    let videos = vec![video("a1", "One │ Two")];
    let list = video_rows(&videos, 1);
    let row = list.split_inclusive('\n').next().unwrap();
    // the fourth column is now the duration
    assert_eq!(chosen_video(row, &videos), Selection::Quit);
}

#[test]
fn format_rows_are_padded_to_fixed_widths() {
    let formats = vec![
        format("1080p", "mp4", 60, "299", "avc1.64002a"),
        format("720p", "webm", 30, "247", "vp9"),
    ];
    assert_eq!(
        format_rows(&formats),
        "1080p    │ mp4   │ 60fps      │ avc1.64002a │ 299\n\
         720p     │ webm  │ 30fps      │ vp9 │ 247\n"
    );
    assert_eq!(format_rows(&[]), "");
}

#[test]
fn format_rows_agree_with_the_format_macro() {
    let f = format("4320p", "matroska", 18446744073709551615, "x-1", "av01");
    let expected = format!(
        "{:<8} │ {:<5} │ {:<10} │ {} │ {}\n",
        f.resolution,
        f.ext,
        format!("{}fps", f.fps),
        f.vcodec,
        f.id
    );
    assert_eq!(format_rows(&[f]), expected);
}

#[test]
fn the_identifier_of_a_row_is_read_back() {
    for id in ["299", "", "hls-1080p", "a b", "248+251"] {
        let f = format("1080p", "mp4", 60, id, "avc1");
        let row = format_rows(&[f]);
        assert_eq!(chosen_format_key(&row), Some(id.to_string()), "{:?}", id);
    }
}

#[test]
fn an_identifier_with_space_around_it_is_read_back_trimmed() {
    let f = format("1080p", "mp4", 60, " 299 ", "avc1");
    assert_eq!(chosen_format_key(&format_rows(&[f])), Some("299".to_string()));
}

#[test]
fn a_picked_format_is_found_by_its_identifier() {
    let formats = vec![
        format("1080p", "mp4", 60, "299", "avc1"),
        format("720p", "webm", 30, "247", "vp9"),
    ];
    let list = format_rows(&formats);
    let rows: Vec<&str> = list.split_inclusive('\n').collect();
    assert_eq!(chosen_format(rows[0], &formats), Some(format("1080p", "mp4", 60, "299", "avc1")));
    assert_eq!(chosen_format(rows[1], &formats), Some(format("720p", "webm", 30, "247", "vp9")));
}

#[test]
fn a_format_without_identifier_is_found_by_the_empty_one() {
    let formats = vec![format("1080p", "mp4", 60, "299", "avc1"), format("720p", "mp4", 30, "", "x")];
    let list = format_rows(&formats);
    let rows: Vec<&str> = list.split_inclusive('\n').collect();
    assert_eq!(chosen_format(rows[1], &formats), Some(format("720p", "mp4", 30, "", "x")));
}

#[test]
fn no_format_is_chosen_without_an_answer() {
    let formats = vec![format("1080p", "mp4", 60, "299", "avc1")];
    assert_eq!(chosen_format("", &formats), None);
    assert_eq!(chosen_format("\n", &formats), None);
    assert_eq!(chosen_format_key(""), None);
}

#[test]
fn no_format_is_chosen_by_a_short_line_or_an_unknown_identifier() {
    let formats = vec![format("1080p", "mp4", 60, "299", "avc1")];
    assert_eq!(chosen_format("1080p │ mp4 │ 60fps │ 299\n", &formats), None);
    assert_eq!(chosen_format_key("1080p │ mp4 │ 60fps │ 299\n"), None);
    assert_eq!(chosen_format("1080p │ mp4 │ 60fps │ avc1 │ 300\n", &formats), None);
}

#[test]
fn the_actions_are_stream_and_download() {
    assert_eq!(action_rows(), "Stream\nDownload");
}

#[test]
fn an_answer_chooses_the_action_it_names() {
    assert_eq!(chosen_action("Stream\n"), Some(Action::Stream));
    assert_eq!(chosen_action("Download\n"), Some(Action::Download));
    assert_eq!(chosen_action("Stream"), Some(Action::Stream));
}

#[test]
fn stream_is_looked_for_first() {
    assert_eq!(chosen_action("Download Stream"), Some(Action::Stream));
}

#[test]
fn no_action_is_chosen_by_anything_else() {
    assert_eq!(chosen_action(""), None);
    assert_eq!(chosen_action("\n"), None);
    assert_eq!(chosen_action("stream"), None);
    assert_eq!(chosen_action("Downloa"), None);
}

#[test]
fn the_video_picker_names_its_page() {
    let args = video_picker_args(3);
    assert_eq!(
        args,
        vec![
            "--ansi",
            "--delimiter",
            " │ ",
            "--with-nth",
            "1,2,3",
            "--header",
            "Page 3 (Enhanced Preview)",
            "--layout",
            "reverse",
            "--height",
            "100%",
            "--cycle",
            "--preview",
            "curl -sL {5} | chafa --format=symbols --symbols=all --colors=full --size=60x30 --stretch -",
            "--preview-window",
            "right:60%",
            "--pointer",
            "▶",
        ]
    );
}

#[test]
fn the_format_picker_shows_four_columns() {
    assert_eq!(
        format_picker_args(),
        vec![
            "--height",
            "40%",
            "--layout",
            "reverse",
            "--cycle",
            "--header",
            "Select Resolution",
            "--delimiter",
            " │ ",
            "--with-nth",
            "1,2,3,4",
        ]
    );
}

#[test]
fn the_action_picker_is_small() {
    assert_eq!(
        action_picker_args(),
        vec!["--height", "20%", "--layout", "reverse", "--cycle", "--header", "Action"]
    );
}
