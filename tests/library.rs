use sortmusic::{
    file_name, parse_json, probe_options, transcode_options, trim_index, without_slashes,
    ContainerFormat, Json, Metadata, Plan, FILE_NAME_MAXIMUM_LENGTH,
};

fn song(title: &str, album: &str, artist: &str, track: usize, disc: usize) -> Metadata {
    Metadata {
        container_format: ContainerFormat::Flac,
        title: title.to_string(),
        album: album.to_string(),
        album_artist: artist.to_string(),
        track,
        disc,
    }
}

fn extract(report: &str) -> Option<Metadata> {
    Metadata::new(Some(report.as_bytes())).expect("the report is JSON")
}

#[test]
fn format_names() {
    assert_eq!(ContainerFormat::from_name("ogg"), Some(ContainerFormat::Ogg));
    assert_eq!(ContainerFormat::from_name("flac"), Some(ContainerFormat::Flac));
    assert_eq!(ContainerFormat::from_name("mp3"), None);
    assert_eq!(ContainerFormat::from_name("OGG"), None);
    assert_eq!(ContainerFormat::from_name(""), None);
}

#[test]
fn trim_index_keeps_leading_digits() {
    assert_eq!(trim_index("7/20"), Some("7"));
    assert_eq!(trim_index("12"), Some("12"));
    assert_eq!(trim_index("abc"), Some(""));
    assert_eq!(trim_index(""), Some(""));
}

#[test]
fn slashes_become_hyphens() {
    assert_eq!(without_slashes("Song/Title".to_string()), "Song-Title");
    assert_eq!(without_slashes("a//b/".to_string()), "a--b-");
    assert_eq!(without_slashes("plain".to_string()), "plain");
}

#[test]
fn short_file_names() {
    assert_eq!(file_name(&song("Song/Title", "A", "B", 3, 1)), "Disc 1 - 03 - Song-Title.mp3");
    assert_eq!(file_name(&song("X", "A", "B", 12, 2)), "Disc 2 - 12 - X.mp3");
    assert_eq!(file_name(&song("X", "A", "B", 0, 10)), "Disc 10 - 00 - X.mp3");
    assert_eq!(file_name(&song("X", "A", "B", 123, 1)), "Disc 1 - 123 - X.mp3");
}

#[test]
fn file_name_of_exactly_the_maximum_is_kept() {
    // "Disc 1 - 01 - " is 14 characters and ".mp3" is 4.
    let title = "t".repeat(FILE_NAME_MAXIMUM_LENGTH - 18);
    let name = file_name(&song(&title, "A", "B", 1, 1));
    assert_eq!(name, format!("Disc 1 - 01 - {}.mp3", title));
    assert_eq!(name.chars().count(), 63);
    assert!(!name.ends_with("---.mp3"));
}

#[test]
fn long_file_names_are_shortened() {
    let title = "t".repeat(FILE_NAME_MAXIMUM_LENGTH - 17);
    let name = file_name(&song(&title, "A", "B", 1, 1));
    assert_eq!(name.chars().count(), 63);
    assert!(name.ends_with("---.mp3"));
    assert_eq!(name, format!("Disc 1 - 01 - {}---.mp3", "t".repeat(42)));

    let name = file_name(&song(&"x/".repeat(100), "A", "B", 5, 3));
    assert_eq!(name.chars().count(), 63);
    assert!(name.ends_with("---.mp3"));
    assert!(!name.contains('/'));
}

#[test]
fn long_names_count_characters() {
    let title = "é".repeat(80);
    let name = file_name(&song(&title, "A", "B", 1, 1));
    assert_eq!(name.chars().count(), 63);
    assert_eq!(name, format!("Disc 1 - 01 - {}---.mp3", "é".repeat(42)));
}

const FLAC_REPORT: &str = r#"{"streams":[{"index":0}],"format":{"format_name":"flac","tags":{"TITLE":"Song/Title","ALBUM":"A","album_artist":"B","track":"3/12"}}}"#;

const OGG_REPORT: &str = r#"{"streams":[{"index":0,"tags":{"TITLE":"Song/Title","ALBUM":"A","album_artist":"B","track":"3/12"}}],"format":{"format_name":"ogg"}}"#;

#[test]
fn flac_example() {
    let m = extract(FLAC_REPORT).expect("a record");
    assert_eq!(m.container_format, ContainerFormat::Flac);
    assert_eq!(m.title, "Song/Title");
    assert_eq!(m.album, "A");
    assert_eq!(m.album_artist, "B");
    assert_eq!(m.track, 3);
    assert_eq!(m.disc, 1);
    assert_eq!(file_name(&m), "Disc 1 - 03 - Song-Title.mp3");
    assert!(transcode_options(m.container_format).is_empty());
}

#[test]
fn ogg_example() {
    let m = extract(OGG_REPORT).expect("a record");
    assert_eq!(m.container_format, ContainerFormat::Ogg);
    assert_eq!(m.album, "A");
    assert_eq!(m.album_artist, "B");
    assert_eq!(file_name(&m), "Disc 1 - 03 - Song-Title.mp3");
    assert_eq!(transcode_options(m.container_format), vec!["-map_metadata", "0:s:0"]);
}

#[test]
fn track_with_total() {
    let report = r#"{"format":{"format_name":"flac","tags":{"TITLE":"t","ALBUM":"a","album_artist":"b","track":"7/20","disc":"2/3"}}}"#;
    let m = extract(report).expect("a record");
    assert_eq!(m.track, 7);
    assert_eq!(m.disc, 2);
}

#[test]
fn disc_absent_or_unreadable_is_one() {
    let m = extract(FLAC_REPORT).expect("a record");
    assert_eq!(m.disc, 1);
    let report = r#"{"format":{"format_name":"flac","tags":{"TITLE":"t","ALBUM":"a","album_artist":"b","track":"1","disc":"x"}}}"#;
    assert_eq!(extract(report).expect("a record").disc, 1);
    let report = r#"{"format":{"format_name":"flac","tags":{"TITLE":"t","ALBUM":"a","album_artist":"b","track":"1","disc":4}}}"#;
    assert_eq!(extract(report).expect("a record").disc, 1);
}

#[test]
fn flac_without_album() {
    let report = r#"{"format":{"format_name":"flac","tags":{"TITLE":"t","album_artist":"b","track":"1"}}}"#;
    assert!(extract(report).is_none());
}

#[test]
fn ogg_tags_only_at_container_level() {
    let report = r#"{"streams":[{"index":0}],"format":{"format_name":"ogg","tags":{"TITLE":"t","ALBUM":"a","album_artist":"b","track":"1"}}}"#;
    assert!(extract(report).is_none());
}

#[test]
fn flac_tags_on_stream_only() {
    let report = r#"{"streams":[{"tags":{"TITLE":"t","ALBUM":"a","album_artist":"b","track":"1"}}],"format":{"format_name":"flac"}}"#;
    assert!(extract(report).is_none());
}

#[test]
fn unreadable_track_gives_no_record() {
    for track in ["abc", "", "/3", "99999999999999999999999999"] {
        let report = format!(
            r#"{{"format":{{"format_name":"flac","tags":{{"TITLE":"t","ALBUM":"a","album_artist":"b","track":"{}"}}}}}}"#,
            track
        );
        assert!(extract(&report).is_none(), "track {:?}", track);
    }
}

#[test]
fn other_formats_give_no_record() {
    let report = r#"{"format":{"format_name":"mp3","tags":{"TITLE":"t","ALBUM":"a","album_artist":"b","track":"1"}}}"#;
    assert!(extract(report).is_none());
    assert!(extract("[]").is_none());
    assert!(extract(r#"{"format":[]}"#).is_none());
}

#[test]
fn failed_probe_is_not_media() {
    assert!(matches!(Metadata::new(None), Ok(None)));
}

#[test]
fn report_that_is_not_json_is_an_error() {
    assert!(Metadata::new(Some(b"this is not json".as_slice())).is_err());
    assert!(parse_json(b"{".as_slice()).is_err());
}

#[test]
fn json_is_read() {
    let v = parse_json(br#"{"a":["x",1,null,true]}"#.as_slice()).expect("JSON");
    let a = v.get("a").expect("member a");
    assert_eq!(a.first().and_then(|x| x.as_str()), Some("x"));
    assert!(v.get("b").is_none());
    assert!(v.is_object());
    match a {
        Json::Array(items) => assert_eq!(items.len(), 4),
        _ => panic!("not an array"),
    }
}

#[test]
fn probe_asks_for_json() {
    assert_eq!(
        probe_options(),
        vec!["-v", "quiet", "-print_format", "json", "-show_format", "-show_streams"]
    );
}

#[test]
fn plan_groups_by_album() {
    let mut plan: Plan<String> = Plan::new();
    plan.add("a.flac".to_string(), song("One", "A", "B", 1, 1), false);
    plan.add("b.flac".to_string(), song("Two", "A", "B", 2, 1), false);
    plan.add("c.flac".to_string(), song("Three", "C", "B", 1, 1), false);
    let groups = plan.groups();
    assert_eq!(groups.len(), 2);
    assert_eq!(groups[0].album_artist, "B");
    assert_eq!(groups[0].album, "A");
    assert_eq!(groups[0].jobs.len(), 2);
    assert_eq!(groups[0].jobs[0].source, "a.flac");
    assert_eq!(groups[0].jobs[1].file_name, "Disc 1 - 02 - Two.mp3");
    assert_eq!(groups[1].album, "C");
    assert_eq!(groups[1].jobs.len(), 1);
}

#[test]
fn existing_outputs_are_not_planned() {
    let mut plan: Plan<String> = Plan::new();
    plan.add("a.flac".to_string(), song("One", "A", "B", 1, 1), true);
    plan.add("b.ogg".to_string(), song("Two", "A", "B", 2, 1), true);
    assert!(plan.groups().is_empty());
}

#[test]
fn one_job_per_output_file() {
    let mut plan: Plan<String> = Plan::new();
    plan.add("a.flac".to_string(), song("One", "A", "B", 1, 1), false);
    plan.add("copy/a.flac".to_string(), song("One", "A", "B", 1, 1), false);
    assert_eq!(plan.groups().len(), 1);
    assert_eq!(plan.groups()[0].jobs.len(), 1);
    assert_eq!(plan.groups()[0].jobs[0].source, "a.flac");
}
