use kk_slider::song::{parse_ordinal, AssetUrls, PageFields};
use kk_slider::text::{ends_with, filelize, parse_i32};
use kk_slider::{Error, SongInfo, SongType};

#[test]
fn iterator_lists_every_kind_once_in_order() {
    let kinds = SongType::iterator();
    assert_eq!(
        kinds,
        vec![
            SongType::Live,
            SongType::Aircheck,
            SongType::AircheckCheap,
            SongType::AircheckRetro,
            SongType::AircheckPhono,
            SongType::MusicBox,
            SongType::DjKkRemix,
        ]
    );
}

#[test]
fn file_strings_are_the_stored_names() {
    let names: Vec<&str> = SongType::iterator().iter().map(|k| k.file_string()).collect();
    assert_eq!(
        names,
        vec!["live", "aircheck", "aircheck_cheap", "aircheck_retro", "aircheck_phono", "music_box", "dj_kk_remix"]
    );
}

#[test]
fn url_endings_match_the_variants() {
    assert_eq!(SongType::Live.url_ending(), "%28Live%29.flac");
    assert_eq!(SongType::Aircheck.url_ending(), "%28Aircheck%2C_Hi-Fi%29.flac");
    assert_eq!(SongType::AircheckCheap.url_ending(), "%28Aircheck%2C_Cheap%29.flac");
    assert_eq!(SongType::AircheckRetro.url_ending(), "%28Aircheck%2C_Retro%29.flac");
    assert_eq!(SongType::AircheckPhono.url_ending(), "%28Aircheck%2C_Phono%29.flac");
    assert_eq!(SongType::MusicBox.url_ending(), "%28Music_Box%29.flac");
    assert_eq!(SongType::DjKkRemix.url_ending(), "%28DJ_KK_Remix%29.flac");
}

#[test]
fn filelize_replaces_spaces_and_drops_periods() {
    assert_eq!(filelize("bubblegum k.k."), "bubblegum_kk");
    assert_eq!(filelize(""), "");
    assert_eq!(filelize("a b.c d"), "a_bc_d");
}

fn song_titled(title: &str) -> SongInfo {
    SongInfo {
        title: title.to_string(),
        number: 1,
        wiki_url: "https://example.org/wiki/x".to_string(),
        image_url: None,
        song_file_urls: AssetUrls::new(),
    }
}

#[test]
fn filelized_title_lowercases_first() {
    assert_eq!(song_titled("Bubblegum K.K.").filelized_title(), "bubblegum_kk");
    assert_eq!(song_titled("K.K. Ballad").filelized_title(), "kk_ballad");
    assert_eq!(song_titled("Café K.K.").filelized_title(), "café_kk");
}

#[test]
fn ends_with_checks_suffixes() {
    assert!(ends_with("a/b.png", ".png"));
    assert!(!ends_with("a/b.png", ".jpg"));
    assert!(ends_with("x", ""));
    assert!(!ends_with("g", ".png"));
}

#[test]
fn parse_i32_reads_signed_decimals() {
    assert_eq!(parse_i32("88"), Some(88));
    assert_eq!(parse_i32("-5"), Some(-5));
    assert_eq!(parse_i32("+7"), Some(7));
    assert_eq!(parse_i32("0000000000012"), Some(12));
    assert_eq!(parse_i32("2147483647"), Some(i32::MAX));
    assert_eq!(parse_i32("-2147483648"), Some(i32::MIN));
    assert_eq!(parse_i32("2147483648"), None);
    assert_eq!(parse_i32("-2147483649"), None);
    assert_eq!(parse_i32("99999999999999999999"), None);
    assert_eq!(parse_i32(""), None);
    assert_eq!(parse_i32("-"), None);
    assert_eq!(parse_i32("+"), None);
    assert_eq!(parse_i32("12a"), None);
    assert_eq!(parse_i32(" 1"), None);
}

#[test]
fn parse_ordinal_skips_the_marker() {
    assert_eq!(parse_ordinal("#88"), Some(88));
    assert_eq!(parse_ordinal("#"), None);
    assert_eq!(parse_ordinal(""), None);
    assert_eq!(parse_ordinal("#x1"), None);
}

fn fields(title: Option<&str>, url: Option<&str>, number: Option<&str>) -> PageFields {
    let mut urls = AssetUrls::new();
    urls.insert(SongType::Live, "https://example.org/live.flac".to_string());
    PageFields {
        title: title.map(|s| s.to_string()),
        url: url.map(|s| s.to_string()),
        image: Some("https://example.org/img.png".to_string()),
        number: number.map(|s| s.to_string()),
        song_file_urls: urls,
    }
}

#[test]
fn from_fields_builds_a_song() {
    let song = SongInfo::from_fields(fields(Some("Bubblegum K.K."), Some("https://example.org/wiki/b"), Some("#88")))
        .unwrap();
    assert_eq!(song.title, "Bubblegum K.K.");
    assert_eq!(song.number, 88);
    assert_eq!(song.wiki_url, "https://example.org/wiki/b");
    assert_eq!(song.image_url.as_deref(), Some("https://example.org/img.png"));
    assert_eq!(song.song_file_urls.len(), 1);
    assert_eq!(song.song_file_urls.get(&SongType::Live).unwrap(), "https://example.org/live.flac");
    assert!(song.song_file_urls.get(&SongType::Aircheck).is_none());
}

#[test]
fn from_fields_reports_the_first_missing_field() {
    let missing = |t, u, n| SongInfo::from_fields(fields(t, u, n)).unwrap_err();
    assert_eq!(missing(None, Some("u"), Some("#1")), Error::MissingElement("title".to_string()));
    assert_eq!(missing(Some(""), Some("u"), Some("#1")), Error::MissingElement("title".to_string()));
    assert_eq!(missing(Some("t"), None, Some("#1")), Error::MissingElement("url".to_string()));
    assert_eq!(missing(Some("t"), Some("u"), None), Error::MissingElement("number".to_string()));
    assert_eq!(missing(None, None, None), Error::MissingElement("title".to_string()));
    assert_eq!(missing(Some("t"), Some("u"), Some("#abc")), Error::CouldNotParseNumber("#abc".to_string()));
}

#[test]
fn asset_urls_insert_replaces_and_lists_in_kind_order() {
    let mut urls = AssetUrls::new();
    assert!(urls.is_empty());
    urls.insert(SongType::MusicBox, "m1".to_string());
    urls.insert(SongType::Live, "l".to_string());
    urls.insert(SongType::MusicBox, "m2".to_string());
    assert_eq!(urls.len(), 2);
    assert_eq!(urls.kinds(), vec![SongType::Live, SongType::MusicBox]);
    assert_eq!(urls.get(&SongType::MusicBox).unwrap(), "m2");
}

#[test]
fn index_follows_iterator_order() {
    for (i, k) in SongType::iterator().iter().enumerate() {
        assert_eq!(k.index(), i);
    }
}
