//! The download orchestrator: progress counts, the single finish event, and
//! what the cache reflects afterwards.

use music_server::db::Cache;
use music_server::request::AnswerType;
use music_server::source_types::{Playlist, Song};
use music_server::utils::{drain_job, DownloadJob, UtilsError};

fn song(id: &str) -> Song {
    Song {
        title: format!("title {}", id),
        artists: vec![],
        tags: vec![],
        id: String::from(id),
        duration: 10,
        url: String::new(),
        downloaded: false,
    }
}

fn done_song(id: &str) -> Song {
    let mut s = song(id);
    s.set_url(format!("/music/{}.opus", id));
    s.set_downloaded(true);
    s
}

fn playlist() -> Playlist {
    Playlist { title: String::from("mix"), tags: vec![], id: String::from("pl-1"), size: 3 }
}

#[test]
fn job_over_three_songs_with_one_failure() {
    // N = 3 songs, K = 2 succeed: exactly N progress answers with strictly
    // increasing counts 1..N, then exactly one finish.
    let client = String::from("Youtube");
    let pending = vec![song("s1"), song("s2"), song("s3")];
    let mut job = DownloadJob::new(client.clone(), playlist(), &pending);

    let outcomes: Vec<Result<Song, UtilsError>> = vec![
        Ok(done_song("s1")),
        Err(UtilsError::YtDLErr),
        Ok(done_song("s3")),
    ];
    let answers = drain_job(&mut job, outcomes);

    assert_eq!(answers.len(), 4);
    for (i, a) in answers.iter().take(3).enumerate() {
        assert_eq!(a.client, client);
        match &a.data {
            AnswerType::DownloadProgress(p, completed, total) => {
                assert_eq!(p.id, String::from("pl-1"));
                assert_eq!(*completed, (i + 1) as u64);
                assert_eq!(*total, 3);
            }
            other => panic!("expected progress, got {:?}", other),
        }
    }
    match &answers[3].data {
        AnswerType::DownloadFinish(p) => assert_eq!(p.id, String::from("pl-1")),
        other => panic!("expected the finish event, got {:?}", other),
    }

    // Only the successes are persisted, and the cache afterwards reflects
    // exactly K = 2 songs with the downloaded flag set.
    assert_eq!(job.succeeded.len(), 2);
    let source = String::from("Youtube");
    let mut cache = Cache::new();
    cache
        .add_playlist(&source, &playlist(), &pending, &String::from("v1"))
        .unwrap();
    cache.update_songs(&job.succeeded, &source).unwrap();

    let rows = cache.get_playlist_songs(&playlist().id, &source).unwrap();
    let flagged: Vec<&Song> = rows.iter().filter(|s| s.downloaded).collect();
    assert_eq!(flagged.len(), 2);
    assert!(rows[0].downloaded && rows[2].downloaded && !rows[1].downloaded);

    // The failed song is re-included by the next download request.
    let on_disk = vec![true, false, true];
    let retry = cache.remove_downloaded(&pending, &source, &on_disk).unwrap();
    assert_eq!(retry.len(), 1);
    assert_eq!(retry[0].id, String::from("s2"));
}

#[test]
fn record_completion_counts_monotonically() {
    let pending = vec![song("s1"), song("s2")];
    let mut job = DownloadJob::new(String::from("A"), playlist(), &pending);
    assert!(!job.is_done());

    let a1 = job.record_completion(Ok(done_song("s1")));
    match a1.data {
        AnswerType::DownloadProgress(_, c, t) => {
            assert_eq!((c, t), (1, 2));
        }
        other => panic!("expected progress, got {:?}", other),
    }
    let a2 = job.record_completion(Err(UtilsError::YtDLErr));
    match a2.data {
        AnswerType::DownloadProgress(_, c, t) => {
            assert_eq!((c, t), (2, 2));
        }
        other => panic!("expected progress, got {:?}", other),
    }
    assert!(job.is_done());
    let fin = job.finish();
    assert!(matches!(fin.data, AnswerType::DownloadFinish(_)));
}

#[test]
fn empty_job_finishes_at_once() {
    let pending: Vec<Song> = vec![];
    let mut job = DownloadJob::new(String::from("A"), playlist(), &pending);
    let answers = drain_job(&mut job, vec![]);
    assert_eq!(answers.len(), 1);
    assert!(matches!(answers[0].data, AnswerType::DownloadFinish(_)));
    assert_eq!(job.succeeded.len(), 0);
}
