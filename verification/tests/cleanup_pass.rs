use ytpodcast::cleanup::{retention_limit, CleanupAction, CleanupEvent, CleanupPass};
use ytpodcast::episode::Episode;
use ytpodcast::sync::{SyncAction, SyncEvent, SyncPass};
use ytpodcast::ytdlp::YtVideo;

/// An episode row, newest-first ordering is by descending `published_at`.
fn episode(id: i64, yt_id: &str, published_at: i64) -> Episode {
    Episode {
        id,
        channel_id: 7,
        title: format!("episode {yt_id}"),
        description: String::new(),
        yt_id: yt_id.to_string(),
        webpage_url: format!("https://www.youtube.com/watch?v={yt_id}"),
        published_at,
        duration: "1:00".to_string(),
        image: String::new(),
        listen: false,
        created_at: 0,
        updated_at: 0,
    }
}

/// Drive a cleanup pass against fixed answers, the way the worker's
/// driver would.
fn drive(pass: &mut CleanupPass, file_gone: &[bool], row_deleted: &[bool]) {
    loop {
        match pass.next_action() {
            CleanupAction::DeleteFile { index } => {
                pass.apply(CleanupEvent::FileGone(file_gone[index]))
            }
            CleanupAction::DeleteRow { index } => {
                pass.apply(CleanupEvent::RowDeleted(row_deleted[index]))
            }
            CleanupAction::Done => break,
        }
    }
}

#[test]
fn removes_everything_past_the_cap() {
    // Seven episodes, newest first; cap of five: the two oldest go.
    let episodes: Vec<Episode> =
        (0..7).map(|k| episode(k, &format!("v{k}"), 7000 - k * 100)).collect();
    let mut pass = CleanupPass::new(episodes, 5);
    drive(&mut pass, &[true; 7], &[true; 7]);
    assert!(pass.is_finished());
    assert_eq!(pass.removed_indices().as_slice(), &[5, 6]);
}

#[test]
fn cap_at_least_count_removes_nothing() {
    let episodes: Vec<Episode> = (0..3).map(|k| episode(k, &format!("v{k}"), 300 - k)).collect();
    let mut pass = CleanupPass::new(episodes, 5);
    assert!(pass.is_finished());
    drive(&mut pass, &[true; 3], &[true; 3]);
    assert!(pass.removed_indices().is_empty());
}

#[test]
fn unremovable_file_keeps_the_row() {
    // The file of the episode at position 2 cannot be removed: its row
    // stays, the later candidate is still processed.
    let episodes: Vec<Episode> = (0..4).map(|k| episode(k, &format!("v{k}"), 400 - k)).collect();
    let mut pass = CleanupPass::new(episodes, 1);
    drive(&mut pass, &[true, true, false, true], &[true; 4]);
    assert_eq!(pass.removed_indices().as_slice(), &[1, 3]);
}

#[test]
fn failed_row_deletion_does_not_stop_the_pass() {
    let episodes: Vec<Episode> = (0..4).map(|k| episode(k, &format!("v{k}"), 400 - k)).collect();
    let mut pass = CleanupPass::new(episodes, 1);
    drive(&mut pass, &[true; 4], &[true, false, true, true]);
    assert_eq!(pass.removed_indices().as_slice(), &[2, 3]);
}

#[test]
fn cap_of_zero_removes_everything() {
    let episodes: Vec<Episode> = (0..3).map(|k| episode(k, &format!("v{k}"), 300 - k)).collect();
    let mut pass = CleanupPass::new(episodes, 0);
    drive(&mut pass, &[true; 3], &[true; 3]);
    assert_eq!(pass.removed_indices().as_slice(), &[0, 1, 2]);
}

#[test]
fn retention_limit_rejects_a_negative_cap() {
    assert_eq!(retention_limit(-1), None);
    assert_eq!(retention_limit(0), Some(0));
    assert_eq!(retention_limit(5), Some(5));
}

fn candidate(id: &str, date: &str) -> YtVideo {
    YtVideo {
        id: id.to_string(),
        title: id.to_string(),
        description: String::new(),
        thumbnail: String::new(),
        original_url: String::new(),
        webpage_url: String::new(),
        upload_date: date.to_string(),
        duration_string: String::new(),
    }
}

#[test]
fn seven_new_candidates_then_cap_of_five() {
    // A channel with no episodes and a cap of five: a pass persists all
    // seven candidates in order, and the following cleanup pass over the
    // seven rows (newest first) deletes the two oldest, leaving five.
    let videos: Vec<YtVideo> =
        (1..=7).map(|k| candidate(&format!("v{k}"), &format!("2024010{k}"))).collect();
    let mut pass = SyncPass::new(7, videos);
    let mut persisted: Vec<Episode> = Vec::new();
    loop {
        match pass.next_action() {
            SyncAction::CheckExists { .. } => pass.apply(SyncEvent::Exists(false)),
            SyncAction::Download { .. } => pass.apply(SyncEvent::Downloaded(true)),
            SyncAction::Persist { index } => {
                let row = pass.build_episode(index);
                persisted.push(episode(index as i64, &row.yt_id, row.published_at));
                pass.apply(SyncEvent::Persisted(true));
            }
            SyncAction::Done => break,
        }
    }
    assert_eq!(persisted.len(), 7);
    assert!(!pass.has_failed());

    // Newest first, as the store would enumerate them.
    persisted.sort_by(|a, b| b.published_at.cmp(&a.published_at));
    let mut cleanup = CleanupPass::new(persisted, 5);
    drive(&mut cleanup, &[true; 7], &[true; 7]);
    assert_eq!(cleanup.removed_indices().as_slice(), &[5, 6]);
    let kept: Vec<&str> = (0..5).map(|k| cleanup.episode(k).yt_id.as_str()).collect();
    assert_eq!(kept, vec!["v7", "v6", "v5", "v4", "v3"]);
}

#[test]
fn one_new_candidate_over_a_full_channel() {
    // Five stored episodes at the cap of five; one new candidate arrives:
    // the pass persists it (six rows), and cleanup deletes the single
    // oldest, restoring the count to five.
    let videos = vec![candidate("new", "20240106")];
    let mut pass = SyncPass::new(7, videos);
    let mut rows: Vec<Episode> =
        (1..=5).map(|k| episode(k, &format!("old{k}"), k * 1000)).collect();
    loop {
        match pass.next_action() {
            SyncAction::CheckExists { .. } => pass.apply(SyncEvent::Exists(false)),
            SyncAction::Download { .. } => pass.apply(SyncEvent::Downloaded(true)),
            SyncAction::Persist { index } => {
                let row = pass.build_episode(index);
                rows.push(episode(6, &row.yt_id, row.published_at));
                pass.apply(SyncEvent::Persisted(true));
            }
            SyncAction::Done => break,
        }
    }
    assert_eq!(rows.len(), 6);
    rows.sort_by(|a, b| b.published_at.cmp(&a.published_at));
    let oldest = rows.last().unwrap().yt_id.clone();
    assert_eq!(oldest, "old1");
    let mut cleanup = CleanupPass::new(rows, 5);
    drive(&mut cleanup, &[true; 6], &[true; 6]);
    assert_eq!(cleanup.removed_indices().as_slice(), &[5]);
    assert_eq!(cleanup.episode(5).yt_id, "old1");
}
