use media_queue::download_item::{AudioFormat, DownloadStatus, Quality};
use media_queue::downloader::Downloader;
use media_queue::deps::{DependencyStatus, InstallGuide, Platform};
use media_queue::queue::DownloadQueue;

#[test]
fn format_and_quality_tokens() {
    assert_eq!(AudioFormat::Mp3.as_str(), "mp3");
    assert_eq!(AudioFormat::M4a.as_str(), "m4a");
    assert_eq!(AudioFormat::Opus.as_str(), "opus");
    assert_eq!(AudioFormat::Aac.as_str(), "aac");
    assert_eq!(AudioFormat::Flac.as_str(), "flac");
    assert_eq!(AudioFormat::Wav.as_str(), "wav");
    assert_eq!(Quality::Best.as_str(), "0");
    assert_eq!(Quality::High.as_str(), "192K");
    assert_eq!(Quality::Medium.as_str(), "128K");
    assert_eq!(Quality::Low.as_str(), "96K");
}

#[test]
fn build_args_lists_the_full_invocation() {
    let d = Downloader { download_dir: "/tmp/media".to_string() };
    let args = d.build_args("https://youtu.be/abc", AudioFormat::Mp3, Quality::High);
    assert_eq!(
        args,
        vec![
            "--extract-audio",
            "--audio-format",
            "mp3",
            "--audio-quality",
            "192K",
            "--embed-thumbnail",
            "--add-metadata",
            "--output",
            "/tmp/media/%(title)s.%(ext)s",
            "--newline",
            "--no-playlist",
            "https://youtu.be/abc",
        ]
    );
}

#[test]
fn successful_job_reaches_completed_with_full_progress() {
    let mut q = DownloadQueue::new(3);
    let id = q.add_item("https://youtu.be/abc".to_string(), AudioFormat::Mp3, Quality::High);
    let t = q.dispatch_next().expect("a slot is free and a job is pending");
    assert_eq!(t.index, 0);
    assert_eq!(t.url, "https://youtu.be/abc");

    q.apply_output_line(t.index, "[info] My Song: Downloading webpage");
    q.apply_output_line(t.index, "[download]  45.2%");
    let mid = q.get_all_items();
    assert_eq!(mid[0].progress, 4520);
    assert_eq!(mid[0].status, DownloadStatus::Downloading);

    q.apply_output_line(t.index, "[ExtractAudio] Destination: song.mp3");
    assert_eq!(q.get_all_items()[0].status, DownloadStatus::Converting);

    q.finish_job(t.index, true, Some(0));
    let items = q.get_all_items();
    assert_eq!(items.len(), 1);
    assert_eq!(items[0].id, id);
    assert_eq!(items[0].title, Some("My Song".to_string()));
    assert_eq!(items[0].status, DownloadStatus::Completed);
    assert_eq!(items[0].progress, 10000);
    assert_eq!(items[0].error, None);
}

#[test]
fn failing_job_records_the_exit_code() {
    let mut q = DownloadQueue::new(3);
    q.add_item("https://youtu.be/abc".to_string(), AudioFormat::Opus, Quality::Best);
    let t = q.dispatch_next().unwrap();
    q.apply_output_line(t.index, "some unrecognized chatter");
    q.finish_job(t.index, false, Some(1));
    let items = q.get_all_items();
    assert_eq!(items[0].status, DownloadStatus::Failed);
    assert!(items[0].error.as_ref().unwrap().contains("1"));
    assert_eq!(items[0].error.as_ref().unwrap(), "yt-dlp failed with exit code: 1");
    assert_eq!(items[0].progress, 0);
}

#[test]
fn progress_never_goes_backwards() {
    let mut q = DownloadQueue::new(1);
    q.add_item("youtu.be/abc".to_string(), AudioFormat::Mp3, Quality::Low);
    let t = q.dispatch_next().unwrap();
    q.apply_output_line(t.index, "[download] 50%");
    assert_eq!(q.get_all_items()[0].progress, 5000);
    q.apply_output_line(t.index, "[download]  20.5%");
    assert_eq!(q.get_all_items()[0].progress, 5000);
    q.apply_output_line(t.index, "[download]  80.5%");
    assert_eq!(q.get_all_items()[0].progress, 8050);
}

#[test]
fn concurrency_cap_holds_and_third_job_waits() {
    let mut q = DownloadQueue::new(2);
    for n in 0..4 {
        q.add_item(format!("youtu.be/video{n}"), AudioFormat::Mp3, Quality::Medium);
    }
    let t1 = q.dispatch_next().expect("first slot");
    let t2 = q.dispatch_next().expect("second slot");
    assert_eq!(t1.index, 0);
    assert_eq!(t2.index, 1);
    assert!(q.dispatch_next().is_none(), "both slots are taken");

    let running = q
        .get_all_items()
        .iter()
        .filter(|it| it.status == DownloadStatus::Downloading || it.status == DownloadStatus::Converting)
        .count();
    assert_eq!(running, 2);

    q.finish_job(t1.index, true, Some(0));
    let t3 = q.dispatch_next().expect("a slot is free again");
    assert_eq!(t3.index, 2, "the third job starts only after one of the first two ended");
}

#[test]
fn cancelling_a_queued_job_hides_it_and_it_never_runs() {
    let mut q = DownloadQueue::new(1);
    let first = q.add_item("youtu.be/first".to_string(), AudioFormat::Mp3, Quality::High);
    q.add_item("youtu.be/second".to_string(), AudioFormat::Mp3, Quality::High);
    assert!(q.remove_item(&first));
    let items = q.get_all_items();
    assert_eq!(items.len(), 1);
    assert_eq!(items[0].url, "youtu.be/second");
    let t = q.dispatch_next().unwrap();
    assert_eq!(t.index, 1, "the cancelled job is never dispatched");
    assert_eq!(t.url, "youtu.be/second");
}

#[test]
fn cancelling_twice_fails_the_second_time() {
    let mut q = DownloadQueue::new(2);
    let id = q.add_item("youtu.be/abc".to_string(), AudioFormat::Mp3, Quality::High);
    assert!(q.remove_item(&id));
    assert!(!q.remove_item(&id));
}

#[test]
fn cancelling_an_unknown_id_fails() {
    let mut q = DownloadQueue::new(2);
    q.add_item("youtu.be/abc".to_string(), AudioFormat::Mp3, Quality::High);
    assert!(!q.remove_item("no-such-id"));
}

#[test]
fn cancelling_an_active_job_hides_it_but_its_process_runs_on() {
    let mut q = DownloadQueue::new(1);
    let id = q.add_item("youtu.be/abc".to_string(), AudioFormat::Mp3, Quality::High);
    let t = q.dispatch_next().unwrap();
    assert!(q.remove_item(&id));
    assert!(q.get_all_items().is_empty());
    // the runner's later reports land on the detached record without
    // resurfacing it
    q.apply_output_line(t.index, "[download] 90%");
    q.finish_job(t.index, true, Some(0));
    assert!(q.get_all_items().is_empty());
    // the freed slot serves the next submission
    q.add_item("youtu.be/next".to_string(), AudioFormat::Mp3, Quality::High);
    assert!(q.dispatch_next().is_some());
}

#[test]
fn submitting_a_block_of_urls_queues_one_job_per_line() {
    let mut q = DownloadQueue::new(3);
    let ids = q
        .add_download(
            "https://youtu.be/abc\n\n  youtube.com/watch?v=def  \n",
            AudioFormat::Flac,
            Quality::Best,
        )
        .unwrap();
    assert_eq!(ids.len(), 2);
    let items = q.get_all_items();
    assert_eq!(items.len(), 2);
    assert_eq!(items[0].url, "https://youtu.be/abc");
    assert_eq!(items[1].url, "youtube.com/watch?v=def");
    assert_eq!(items[0].id, ids[0]);
    assert_eq!(items[1].id, ids[1]);
    assert!(items.iter().all(|it| it.status == DownloadStatus::Queued && it.progress == 0));
}

#[test]
fn submitting_nothing_valid_is_an_error_and_queues_nothing() {
    let mut q = DownloadQueue::new(3);
    let err = q.add_download("", AudioFormat::Mp3, Quality::High).unwrap_err();
    assert_eq!(err, "No valid URLs provided");
    assert!(q.get_all_items().is_empty());

    let err = q.add_download("   \n\t\n", AudioFormat::Mp3, Quality::High).unwrap_err();
    assert_eq!(err, "No valid URLs provided");
    assert!(q.get_all_items().is_empty());

    let err = q
        .add_download("https://www.google.com\nyoutu.be/ok", AudioFormat::Mp3, Quality::High)
        .unwrap_err();
    assert_eq!(err, "Invalid YouTube URLs:\nhttps://www.google.com");
    assert!(q.get_all_items().is_empty(), "no partial submission on error");
}

#[test]
fn identifiers_are_distinct_and_carry_the_random_prefix() {
    let mut q = DownloadQueue::new(3);
    let a = q.add_item("youtu.be/one".to_string(), AudioFormat::Mp3, Quality::High);
    let b = q.add_item("youtu.be/two".to_string(), AudioFormat::Mp3, Quality::High);
    assert_ne!(a, b);
    assert!(a.ends_with("-0"));
    assert!(b.ends_with("-1"));
    assert_eq!(a.len(), 38, "36 random characters, a separator and the position");
}

#[test]
fn cancelling_a_middle_job_keeps_dispatch_order() {
    let mut q = DownloadQueue::new(1);
    q.add_item("youtu.be/one".to_string(), AudioFormat::Mp3, Quality::High);
    let middle = q.add_item("youtu.be/two".to_string(), AudioFormat::Mp3, Quality::High);
    q.add_item("youtu.be/three".to_string(), AudioFormat::Mp3, Quality::High);
    assert!(q.remove_item(&middle));
    let t = q.dispatch_next().unwrap();
    assert_eq!(t.index, 0);
    q.finish_job(t.index, true, Some(0));
    let t = q.dispatch_next().unwrap();
    assert_eq!(t.index, 2);
}

#[test]
fn reports_for_unknown_or_settled_jobs_change_nothing() {
    let mut q = DownloadQueue::new(2);
    q.add_item("youtu.be/abc".to_string(), AudioFormat::Mp3, Quality::High);
    q.apply_output_line(99, "[download] 50%");
    q.finish_job(99, true, Some(0));
    assert_eq!(q.get_all_items()[0].status, DownloadStatus::Queued);
    assert_eq!(q.get_all_items()[0].progress, 0);

    // a line arriving before dispatch leaves the queued record alone
    q.apply_output_line(0, "[download] 50%");
    assert_eq!(q.get_all_items()[0].progress, 0);

    let t = q.dispatch_next().unwrap();
    q.finish_job(t.index, true, Some(0));
    // late reports after the exit land on a settled record and are dropped
    q.apply_output_line(t.index, "[download] 10%");
    q.fail_job(t.index, "late failure".to_string());
    let items = q.get_all_items();
    assert_eq!(items[0].status, DownloadStatus::Completed);
    assert_eq!(items[0].progress, 10000);
    assert_eq!(items[0].error, None);
}

#[test]
fn dependency_status_combines_the_probes() {
    let s = DependencyStatus::check(true, false);
    assert!(s.yt_dlp_installed);
    assert!(!s.ffmpeg_installed);
    assert!(!s.all_installed);
    assert!(DependencyStatus::check(true, true).all_installed);
}

#[test]
fn install_guide_names_the_platform_commands() {
    let g = InstallGuide::get(Platform::Linux);
    assert_eq!(g.platform, "Linux");
    assert_eq!(g.yt_dlp_command, "sudo apt install yt-dlp");
    assert_eq!(g.ffmpeg_command, "sudo apt install ffmpeg");
    assert_eq!(g.notes.len(), 2);
    let g = InstallGuide::get(Platform::MacOs);
    assert_eq!(g.yt_dlp_command, "brew install yt-dlp");
    let g = InstallGuide::get(Platform::Other);
    assert_eq!(g.platform, "Unknown");
}
