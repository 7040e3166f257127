use yurei::types::{Selection, VideoFormat, VideoItem};
use yurei::ui::{chosen_format_key, chosen_video, format_rows, video_rows};
use yurei::youtube::{formats_from_json, search_results};

fn video(id: &str, title: &str, channel: &str) -> VideoItem {
    VideoItem {
        title: title.to_string(),
        channel: channel.to_string(),
        duration: "12:34".to_string(),
        id: id.to_string(),
        thumbnail: format!("https://i.ytimg.com/vi/{}/hqdefault.jpg", id),
    }
}

#[test]
fn every_result_has_an_identifier_and_its_picture() {
    let out = "{\"id\":\"a\"}\n{\"id\":\"\"}\n{\"id\":\"b\",\"thumbnail\":\"elsewhere\"}\nnull\n";
    let found = search_results(out);
    assert_eq!(found.len(), 2);
    for v in &found {
        assert!(!v.id.is_empty());
        assert_eq!(v.thumbnail, format!("https://i.ytimg.com/vi/{}/hqdefault.jpg", v.id));
    }
}

#[test]
fn results_and_skipped_lines_add_up() {
    let lines = ["{\"id\":\"a\"}", "x", "{}", "{\"id\":\"b\"}", "[]", "{\"id\":null}", "{\"id\":\"c\"}"];
    let bad = 4;
    let out = lines.join("\n");
    assert_eq!(search_results(&out).len(), lines.len() - bad);
}

#[test]
fn every_format_has_a_codec_and_a_height() {
    let doc: serde_json::Value = serde_json::from_str(
        r#"{"formats":[
            {"format_id":"a","vcodec":"none","height":720},
            {"format_id":"b","vcodec":"avc1","height":0},
            {"format_id":"c","vcodec":"avc1","height":2160,"ext":"mkv"},
            {"format_id":"d","height":720},
            {"format_id":"e","vcodec":"vp9","height":1}
        ]}"#,
    )
    .unwrap();
    let found: Vec<VideoFormat> = formats_from_json(&doc);
    let shown: Vec<(&str, &str)> =
        found.iter().map(|f| (f.resolution.as_str(), f.vcodec.as_str())).collect();
    assert_eq!(shown, vec![("1p", "vp9"), ("2160p", "avc1")]);
}

#[test]
fn the_row_of_a_result_chooses_a_result_with_its_identifier() {
    let videos = vec![
        video("x1", "A | B", "C"),
        video("y-2", "Tab\there", " padded "),
        video("z_3", "", ""),
    ];
    let list = video_rows(&videos, 1);
    let rows: Vec<&str> = list.split_inclusive('\n').collect();
    for (i, v) in videos.iter().enumerate() {
        match chosen_video(rows[i], &videos) {
            Selection::Video(found) => assert_eq!(found.id, v.id),
            other => panic!("{:?}", other),
        }
    }
}

#[test]
fn a_bar_without_spaces_does_not_part_columns() {
    let f = VideoFormat {
        resolution: "720p".to_string(),
        ext: "mp4".to_string(),
        fps: 30,
        id: "22".to_string(),
        vcodec: "a│b".to_string(),
    };
    assert_eq!(chosen_format_key(&format_rows(&[f])), Some("22".to_string()));
}

#[test]
fn a_codec_that_holds_the_delimiter_hides_the_identifier() {
    let f = VideoFormat {
        resolution: "720p".to_string(),
        ext: "mp4".to_string(),
        fps: 30,
        id: "22".to_string(),
        vcodec: "a │ b".to_string(),
    };
    assert_eq!(chosen_format_key(&format_rows(&[f])), Some("b".to_string()));
}
