use kk_slider::discovery::SiteConfig;
use kk_slider::download::{image_extension, plan_downloads, song_file_target, Asset};
use kk_slider::pipeline::{partition_metadata, summarize_downloads, Pipeline, Stage};
use kk_slider::song::AssetUrls;
use kk_slider::transfer::{FileWrite, WritePhase, WriteStep};
use kk_slider::{Error, SongInfo, SongType};

fn song(title: &str, image: Option<&str>, assets: &[(SongType, &str)]) -> SongInfo {
    let mut urls = AssetUrls::new();
    for (k, u) in assets {
        urls.insert(*k, u.to_string());
    }
    SongInfo {
        title: title.to_string(),
        number: 88,
        wiki_url: "https://example.org/wiki/song".to_string(),
        image_url: image.map(|s| s.to_string()),
        song_file_urls: urls,
    }
}

/// Streams `chunks` into a simulated destination, failing the write of chunk
/// `fail_at` if given. Gives the final step and what the destination holds.
fn stream(chunks: &[&[u8]], fail_at: Option<usize>) -> (WriteStep, Option<Vec<u8>>) {
    let mut disk: Option<Vec<u8>> = None;
    let mut w = FileWrite::new();
    assert_eq!(w.current_phase(), WritePhase::NotCreated);
    disk = Some(Vec::new());
    assert!(matches!(w.created(Ok(())), WriteStep::Continue));
    for (i, chunk) in chunks.iter().enumerate() {
        if fail_at == Some(i) {
            disk.as_mut().unwrap().extend_from_slice(&chunk[..chunk.len() / 2]);
            let step = w.failed(Error::FileError("disk full".to_string()));
            assert!(matches!(step, WriteStep::RemovePartialFile));
            disk = None;
            let step = w.removed(Ok(()));
            assert_eq!(w.current_phase(), WritePhase::Failed);
            return (step, disk);
        }
        disk.as_mut().unwrap().extend_from_slice(chunk);
        w.chunk_written(chunk);
    }
    let step = w.flushed();
    assert_eq!(w.current_phase(), WritePhase::Complete);
    (step, disk)
}

#[test]
fn failed_chunk_write_leaves_no_file_and_retry_writes_everything() {
    let chunks: [&[u8]; 3] = [b"abcd", b"efgh", b"ij"];
    let (step, disk) = stream(&chunks, Some(1));
    assert!(matches!(step, WriteStep::Failed(Error::FileError(ref m)) if m == "disk full"));
    assert!(disk.is_none());
    let (step, disk) = stream(&chunks, None);
    assert!(matches!(step, WriteStep::Finished));
    assert_eq!(disk.unwrap().len(), 10);
}

#[test]
fn failed_creation_needs_no_cleanup() {
    let mut w = FileWrite::new();
    let step = w.created(Err(Error::FileError("denied".to_string())));
    assert!(matches!(step, WriteStep::Failed(Error::FileError(_))));
    assert_eq!(w.current_phase(), WritePhase::Failed);
}

#[test]
fn failed_removal_still_reports_the_cause() {
    let mut w = FileWrite::new();
    w.created(Ok(()));
    w.failed(Error::RequestError("reset".to_string()));
    let step = w.removed(Err(Error::FileError("busy".to_string())));
    assert!(matches!(step, WriteStep::Failed(Error::RequestError(_))));
}

#[test]
fn image_extensions() {
    assert_eq!(image_extension("https://x/a.png"), Ok("png"));
    assert_eq!(image_extension("https://x/a.jpg"), Ok("jpg"));
    assert_eq!(image_extension("https://x/a.jpeg"), Ok("jpg"));
    assert_eq!(image_extension("https://x/a.gif"), Err(Error::UnsupportedImageType("https://x/a.gif".to_string())));
}

#[test]
fn song_files_are_named_by_kind() {
    assert_eq!(song_file_target("out/x", SongType::AircheckCheap), "out/x/aircheck_cheap.flac");
    assert_eq!(song_file_target("out/x", SongType::DjKkRemix), "out/x/dj_kk_remix.flac");
}

#[test]
fn plan_covers_image_then_each_kind() {
    let s = song(
        "Bubblegum K.K.",
        Some("https://x/img.png"),
        &[(SongType::Aircheck, "https://x/a.flac"), (SongType::Live, "https://x/l.flac")],
    );
    let plan = plan_downloads(&s, "songs");
    assert_eq!(plan.directory, "songs/bubblegum_kk");
    let tasks: Vec<(Asset, &str, &str)> =
        plan.tasks.iter().map(|t| (t.asset, t.url.as_str(), t.path.as_str())).collect();
    assert_eq!(
        tasks,
        vec![
            (Asset::Image, "https://x/img.png", "songs/bubblegum_kk/image.png"),
            (Asset::Song(SongType::Live), "https://x/l.flac", "songs/bubblegum_kk/live.flac"),
            (Asset::Song(SongType::Aircheck), "https://x/a.flac", "songs/bubblegum_kk/aircheck.flac"),
        ]
    );
    assert!(plan.report.is_success());
    assert_eq!(plan.report.title, "Bubblegum K.K.");
}

#[test]
fn unsupported_image_does_not_stop_the_songs() {
    let s = song("A", Some("https://x/img.gif"), &[(SongType::MusicBox, "https://x/m.flac")]);
    let plan = plan_downloads(&s, "r");
    assert_eq!(plan.tasks.len(), 1);
    assert_eq!(plan.tasks[0].path, "r/a/music_box.flac");
    assert_eq!(plan.report.failures.len(), 1);
    assert_eq!(plan.report.failures[0].asset, Asset::Image);
    assert_eq!(plan.report.failures[0].errors, vec![Error::UnsupportedImageType("https://x/img.gif".to_string())]);
}

#[test]
fn song_with_nothing_to_fetch_is_a_no_op() {
    let plan = plan_downloads(&song("Empty", None, &[]), "r");
    assert!(plan.tasks.is_empty());
    let report = plan.finish(vec![]);
    assert!(report.is_success());
}

#[test]
fn failures_are_itemized_per_asset() {
    let s = song(
        "B",
        Some("https://x/i.jpeg"),
        &[(SongType::Live, "https://x/l.flac"), (SongType::Aircheck, "https://x/a.flac")],
    );
    let plan = plan_downloads(&s, "r");
    assert_eq!(plan.tasks[0].path, "r/b/image.jpg");
    let report = plan.finish(vec![
        Err(vec![Error::RequestError("timeout".to_string())]),
        Ok(()),
        Err(vec![Error::ResponseStatusError(404, "https://x/a.flac".to_string())]),
    ]);
    assert!(!report.is_success());
    let assets: Vec<Asset> = report.failures.iter().map(|f| f.asset).collect();
    assert_eq!(assets, vec![Asset::Image, Asset::Song(SongType::Aircheck)]);
    assert_eq!(report.failures[1].errors, vec![Error::ResponseStatusError(404, "https://x/a.flac".to_string())]);
}

#[test]
fn one_malformed_page_among_three_is_isolated() {
    let urls = vec!["u1".to_string(), "u2".to_string(), "u3".to_string()];
    let results = vec![
        Ok(song("One", None, &[])),
        Err(Error::MissingElement("title".to_string())),
        Ok(song("Three", None, &[])),
    ];
    let (songs, failures) = partition_metadata(urls, results);
    assert_eq!(songs.iter().map(|s| s.title.as_str()).collect::<Vec<_>>(), vec!["One", "Three"]);
    assert_eq!(failures, vec![("u2".to_string(), Error::MissingElement("title".to_string()))]);
}

#[test]
fn summary_counts_complete_songs() {
    let ok = plan_downloads(&song("A", None, &[(SongType::Live, "l")]), "r").finish(vec![Ok(())]);
    let bad = plan_downloads(&song("B", None, &[(SongType::Live, "l")]), "r")
        .finish(vec![Err(vec![Error::RequestError("x".to_string())])]);
    let (complete, failed) = summarize_downloads(vec![ok, bad]);
    assert_eq!(complete, 1);
    assert_eq!(failed.len(), 1);
    assert_eq!(failed[0].title, "B");
}

#[test]
fn discovery_failure_ends_the_run() {
    let mut p = Pipeline::new();
    p.start();
    p.discovery_finished(Err(Error::RequestError("offline".to_string())));
    assert_eq!(p.current_stage(), Stage::Failed);
    assert_eq!(p.into_error(), Some(Error::RequestError("offline".to_string())));
}

#[test]
fn snapshot_failure_ends_the_run() {
    let mut p = Pipeline::new();
    p.start();
    p.discovery_finished(Ok(0));
    let songs = p.metadata_finished(vec![], vec![]);
    assert!(songs.is_empty());
    p.snapshot_finished(Err(Error::JsonError("bad".to_string())));
    assert_eq!(p.current_stage(), Stage::Failed);
}

fn detail_page(title: &str) -> String {
    format!(
        r#"<html><head><meta property="og:title" content="{title}">
<meta property="og:url" content="https://nookipedia.com/wiki/A"></head><body>
<table class="infobox"><tbody>
<tr><td><table><tbody><tr><td><big><i><b>#88</b></i></big></td></tr></tbody></table></td></tr>
<tr><td><audio src="https://x/NH_%28Live%29.flac"></audio></td></tr>
<tr><td><audio src="https://x/NH_%28Aircheck%2C_Hi-Fi%29.flac"></audio></td></tr>
</tbody></table></body></html>"#
    )
}

#[test]
fn end_to_end_run_against_mocked_pages() {
    let config = SiteConfig::new();
    let index = r#"<table class="styled"><tbody>
<tr><td><a href="/wiki/A" title="A">A</a></td></tr>
<tr><td><a href="/wiki/B" title="B">B</a></td></tr>
</tbody></table>"#;
    let mut p = Pipeline::new();
    p.start();
    let urls = config.song_wiki_urls(index).unwrap();
    assert_eq!(urls.len(), 2);
    p.discovery_finished(Ok(urls.len()));
    assert_eq!(p.current_stage(), Stage::ExtractingMetadata);
    let pages = [detail_page("Bubblegum K.K."), "<html><body>nothing here</body></html>".to_string()];
    let results: Vec<Result<SongInfo, Error>> = pages.iter().map(|d| SongInfo::parse_document(d)).collect();
    let songs = p.metadata_finished(urls, results);
    assert_eq!(songs.len(), 1);
    assert_eq!(songs[0].title, "Bubblegum K.K.");
    assert_eq!(songs[0].number, 88);
    assert_eq!(songs[0].song_file_urls.kinds(), vec![SongType::Live, SongType::Aircheck]);
    p.snapshot_finished(Ok(()));
    assert_eq!(p.current_stage(), Stage::Downloading);

    let mut files: Vec<(String, Vec<u8>)> = Vec::new();
    let mut reports = Vec::new();
    for s in &songs {
        let plan = plan_downloads(s, "out");
        let mut outcomes = Vec::new();
        for t in &plan.tasks {
            let payload: Vec<u8> = t.url.bytes().collect();
            let mut w = FileWrite::new();
            w.created(Ok(()));
            w.chunk_written(&payload);
            assert!(matches!(w.flushed(), WriteStep::Finished));
            files.push((t.path.clone(), payload));
            outcomes.push(Ok(()));
        }
        reports.push(plan.finish(outcomes));
    }
    let names: Vec<&str> = files.iter().map(|f| f.0.as_str()).collect();
    assert_eq!(names, vec!["out/bubblegum_kk/live.flac", "out/bubblegum_kk/aircheck.flac"]);
    assert_eq!(files[0].1, b"https://x/NH_%28Live%29.flac".to_vec());
    let result = p.downloads_finished(reports);
    assert_eq!(result.discovered, 2);
    assert_eq!(result.extracted, 1);
    assert_eq!(result.metadata_failures.len(), 1);
    assert_eq!(result.metadata_failures[0].0, "https://nookipedia.com/wiki/B");
    assert_eq!(result.fully_downloaded, 1);
    assert_eq!(result.download_failures.len(), 0);
}
