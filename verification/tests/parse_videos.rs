use ytpodcast::ytdlp::{parse_videos, Ytdlp};

fn record(id: &str, date: &str) -> String {
    let mut json = String::new();
    json.push_str(&format!("{{\"id\":\"{id}\",\"title\":\"Title {id}\","));
    json.push_str(&format!("\"description\":\"About {id}\","));
    json.push_str(&format!("\"thumbnail\":\"https://img.example/{id}.jpg\","));
    json.push_str(&format!("\"original_url\":\"https://www.youtube.com/watch?v={id}\","));
    json.push_str(&format!("\"webpage_url\":\"https://www.youtube.com/watch?v={id}\","));
    json.push_str(&format!("\"upload_date\":\"{date}\",\"duration_string\":\"3:45\","));
    json.push_str("\"extra\":\"ignored\"}");
    json
}

#[test]
fn two_records_with_trailing_newline() {
    let output = format!("{}\n{}\n", record("aaa", "20240101"), record("bbb", "20231231"));
    let videos = parse_videos(&output.into_bytes()).expect("both records are well formed");
    assert_eq!(videos.len(), 2);
    assert_eq!(videos[0].id, "aaa");
    assert_eq!(videos[0].title, "Title aaa");
    assert_eq!(videos[0].description, "About aaa");
    assert_eq!(videos[0].thumbnail, "https://img.example/aaa.jpg");
    assert_eq!(videos[0].webpage_url, "https://www.youtube.com/watch?v=aaa");
    assert_eq!(videos[0].upload_date, "20240101");
    assert_eq!(videos[0].duration_string, "3:45");
    assert_eq!(videos[1].id, "bbb");
    assert_eq!(videos[1].upload_date, "20231231");
}

#[test]
fn empty_output_is_an_empty_window() {
    let videos = parse_videos(&Vec::new()).expect("zero records are not an error");
    assert!(videos.is_empty());
    let videos = parse_videos(&b"\n\n".to_vec()).expect("blank lines carry no record");
    assert!(videos.is_empty());
}

#[test]
fn malformed_record_is_an_error() {
    let output = b"this is not json\n".to_vec();
    assert!(parse_videos(&output).is_err());
    let output = format!("{}\nnot json either\n", record("aaa", "20240101"));
    assert!(parse_videos(&output.into_bytes()).is_err());
}

#[test]
fn missing_field_is_an_error() {
    let output = b"{\"id\":\"aaa\",\"title\":\"no other fields\"}\n".to_vec();
    assert!(parse_videos(&output).is_err());
}

#[test]
fn bad_upload_date_is_an_error() {
    let output = record("aaa", "20240231").into_bytes();
    assert!(parse_videos(&output).is_err());
}

#[test]
fn non_string_field_is_an_error() {
    let output = record("aaa", "20240101").replace("\"3:45\"", "345").into_bytes();
    assert!(parse_videos(&output).is_err());
}

#[test]
fn tool_configuration_is_kept() {
    let tool = Ytdlp::new("/usr/local/bin/yt-dlp", "cookies.txt");
    assert_eq!(tool.path(), "/usr/local/bin/yt-dlp");
    assert_eq!(tool.cookies(), "cookies.txt");
}
