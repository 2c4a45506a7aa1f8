use ytpodcast::sync::{SyncAction, SyncEvent, SyncPass};
use ytpodcast::ytdlp::YtVideo;

fn candidate(id: &str, date: &str) -> YtVideo {
    YtVideo {
        id: id.to_string(),
        title: format!("title of {id}"),
        description: format!("description of {id}"),
        thumbnail: format!("https://img.example/{id}.jpg"),
        original_url: format!("https://www.youtube.com/watch?v={id}"),
        webpage_url: format!("https://www.youtube.com/watch?v={id}"),
        upload_date: date.to_string(),
        duration_string: "12:34".to_string(),
    }
}

/// Drive a pass against fixed answers, the way the worker's driver would.
fn drive(pass: &mut SyncPass, exists: &[bool], download_ok: &[bool], persist_ok: &[bool]) {
    loop {
        match pass.next_action() {
            SyncAction::CheckExists { index } => pass.apply(SyncEvent::Exists(exists[index])),
            SyncAction::Download { index } => {
                pass.apply(SyncEvent::Downloaded(download_ok[index]))
            }
            SyncAction::Persist { index } => pass.apply(SyncEvent::Persisted(persist_ok[index])),
            SyncAction::Done => break,
        }
    }
}

#[test]
fn idempotent_pass_touches_nothing() {
    let videos = vec![
        candidate("aaa", "20240101"),
        candidate("bbb", "20240102"),
        candidate("ccc", "20240103"),
    ];
    let mut pass = SyncPass::new(7, videos);
    drive(&mut pass, &[true, true, true], &[true, true, true], &[true, true, true]);
    assert!(pass.is_finished());
    assert!(!pass.has_failed());
    assert!(pass.persisted_indices().is_empty());
    assert!(pass.attempted_indices().is_empty());
}

#[test]
fn stop_on_download_failure() {
    // Candidates A, B, C all new; downloading B fails: A is persisted,
    // B was attempted, C is never touched.
    let videos = vec![
        candidate("aaa", "20240101"),
        candidate("bbb", "20240102"),
        candidate("ccc", "20240103"),
    ];
    let mut pass = SyncPass::new(7, videos);
    drive(&mut pass, &[false, false, false], &[true, false, true], &[true, true, true]);
    assert!(pass.is_finished());
    assert!(pass.has_failed());
    assert_eq!(pass.persisted_indices().as_slice(), &[0]);
    assert_eq!(pass.attempted_indices().as_slice(), &[0, 1]);
}

#[test]
fn stop_on_persist_failure() {
    let videos = vec![candidate("aaa", "20240101"), candidate("bbb", "20240102")];
    let mut pass = SyncPass::new(7, videos);
    drive(&mut pass, &[false, false], &[true, true], &[false, true]);
    assert!(pass.is_finished());
    assert!(pass.has_failed());
    assert!(pass.persisted_indices().is_empty());
    assert_eq!(pass.attempted_indices().as_slice(), &[0]);
}

#[test]
fn duplicate_candidate_is_skipped_once_known() {
    // The tool reports the same external id twice; after the first insert
    // the store answers "exists" for the second occurrence, so only one
    // row is created.
    let videos = vec![candidate("aaa", "20240101"), candidate("aaa", "20240101")];
    let mut pass = SyncPass::new(7, videos);
    drive(&mut pass, &[false, true], &[true, true], &[true, true]);
    assert!(pass.is_finished());
    assert!(!pass.has_failed());
    assert_eq!(pass.persisted_indices().as_slice(), &[0]);
}

#[test]
fn empty_candidate_list_is_done_at_once() {
    let mut pass = SyncPass::new(7, Vec::new());
    assert!(pass.is_finished());
    assert_eq!(pass.next_action(), SyncAction::Done);
    drive(&mut pass, &[], &[], &[]);
    assert!(!pass.has_failed());
    assert!(pass.persisted_indices().is_empty());
}

#[test]
fn full_pass_persists_all_in_order() {
    let videos: Vec<YtVideo> = (0..7)
        .map(|k| candidate(&format!("vid{k}"), &format!("2024010{}", k + 1)))
        .collect();
    let mut pass = SyncPass::new(42, videos);
    drive(&mut pass, &[false; 7], &[true; 7], &[true; 7]);
    assert!(pass.is_finished());
    assert!(!pass.has_failed());
    assert_eq!(pass.persisted_indices().as_slice(), &[0, 1, 2, 3, 4, 5, 6]);
    assert_eq!(pass.attempted_indices().as_slice(), &[0, 1, 2, 3, 4, 5, 6]);
}

#[test]
fn build_episode_copies_the_candidate() {
    let videos = vec![candidate("xyz", "20200101")];
    let pass = SyncPass::new(9, videos);
    let episode = pass.build_episode(0);
    assert_eq!(episode.channel_id, 9);
    assert_eq!(episode.title, "title of xyz");
    assert_eq!(episode.description, "description of xyz");
    assert_eq!(episode.yt_id, "xyz");
    assert_eq!(episode.webpage_url, "https://www.youtube.com/watch?v=xyz");
    assert_eq!(episode.published_at, 1577836800);
    assert_eq!(episode.duration, "12:34");
    assert_eq!(episode.image, "https://img.example/xyz.jpg");
    assert!(!episode.listen);
}

#[test]
fn dates_valid_rejects_a_bad_date() {
    let good = vec![candidate("a", "20240101"), candidate("b", "19991231")];
    assert!(ytpodcast::sync::dates_valid(&good));
    let bad = vec![candidate("a", "20240101"), candidate("b", "20240230")];
    assert!(!ytpodcast::sync::dates_valid(&bad));
}

#[test]
fn known_candidates_are_skipped_among_new_ones() {
    let videos = vec![
        candidate("aaa", "20240101"),
        candidate("bbb", "20240102"),
        candidate("ccc", "20240103"),
        candidate("ddd", "20240104"),
    ];
    let mut pass = SyncPass::new(7, videos);
    drive(&mut pass, &[true, false, true, false], &[true; 4], &[true; 4]);
    assert!(pass.is_finished());
    assert!(!pass.has_failed());
    assert_eq!(pass.persisted_indices().as_slice(), &[1, 3]);
    assert_eq!(pass.attempted_indices().as_slice(), &[1, 3]);
}
