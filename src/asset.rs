use vstd::prelude::*;

verus! {

/// The closed set of audio variants a song page may offer.
#[derive(PartialEq, Eq, Structural, Hash, Clone, Copy, Debug)]
pub enum SongType {
    Live,
    Aircheck,
    AircheckCheap,
    AircheckRetro,
    AircheckPhono,
    MusicBox,
    DjKkRemix,
}

/// Every variant, in the order downloads and lookups walk them.
pub open spec fn all_song_types() -> Seq<SongType> {
    seq![
        SongType::Live,
        SongType::Aircheck,
        SongType::AircheckCheap,
        SongType::AircheckRetro,
        SongType::AircheckPhono,
        SongType::MusicBox,
        SongType::DjKkRemix,
    ]
}

impl SongType {
    /// The file name stem the variant is stored under.
    pub open spec fn spec_file_string(self) -> Seq<char> {
        match self {
            SongType::Live => "live"@,
            SongType::Aircheck => "aircheck"@,
            SongType::AircheckCheap => "aircheck_cheap"@,
            SongType::AircheckRetro => "aircheck_retro"@,
            SongType::AircheckPhono => "aircheck_phono"@,
            SongType::MusicBox => "music_box"@,
            SongType::DjKkRemix => "dj_kk_remix"@,
        }
    }

    /// The suffix by which the variant's audio url is recognised.
    pub open spec fn spec_url_ending(self) -> Seq<char> {
        match self {
            SongType::Live => "%28Live%29.flac"@,
            SongType::Aircheck => "%28Aircheck%2C_Hi-Fi%29.flac"@,
            SongType::AircheckCheap => "%28Aircheck%2C_Cheap%29.flac"@,
            SongType::AircheckRetro => "%28Aircheck%2C_Retro%29.flac"@,
            SongType::AircheckPhono => "%28Aircheck%2C_Phono%29.flac"@,
            SongType::MusicBox => "%28Music_Box%29.flac"@,
            SongType::DjKkRemix => "%28DJ_KK_Remix%29.flac"@,
        }
    }

    /// All variants, each exactly once.
    pub fn iterator() -> (r: Vec<SongType>)
        ensures
            r@ == all_song_types(),
    {
        let r = vec![
            SongType::Live,
            SongType::Aircheck,
            SongType::AircheckCheap,
            SongType::AircheckRetro,
            SongType::AircheckPhono,
            SongType::MusicBox,
            SongType::DjKkRemix,
        ];
        assert(r@ =~= all_song_types());
        r
    }

    pub fn file_string(&self) -> (r: &'static str)
        ensures
            r@ == self.spec_file_string(),
    {
        match self {
            SongType::Live => "live",
            SongType::Aircheck => "aircheck",
            SongType::AircheckCheap => "aircheck_cheap",
            SongType::AircheckRetro => "aircheck_retro",
            SongType::AircheckPhono => "aircheck_phono",
            SongType::MusicBox => "music_box",
            SongType::DjKkRemix => "dj_kk_remix",
        }
    }

    pub fn url_ending(&self) -> (r: &'static str)
        ensures
            r@ == self.spec_url_ending(),
    {
        match self {
            SongType::Live => "%28Live%29.flac",
            SongType::Aircheck => "%28Aircheck%2C_Hi-Fi%29.flac",
            SongType::AircheckCheap => "%28Aircheck%2C_Cheap%29.flac",
            SongType::AircheckRetro => "%28Aircheck%2C_Retro%29.flac",
            SongType::AircheckPhono => "%28Aircheck%2C_Phono%29.flac",
            SongType::MusicBox => "%28Music_Box%29.flac",
            SongType::DjKkRemix => "%28DJ_KK_Remix%29.flac",
        }
    }
}

/// Every variant is listed, and listed once.
pub proof fn lemma_all_song_types_complete(k: SongType)
    ensures
        all_song_types().contains(k),
        all_song_types().no_duplicates(),
{
    let s = all_song_types();
    match k {
        SongType::Live => assert(s[0] == k),
        SongType::Aircheck => assert(s[1] == k),
        SongType::AircheckCheap => assert(s[2] == k),
        SongType::AircheckRetro => assert(s[3] == k),
        SongType::AircheckPhono => assert(s[4] == k),
        SongType::MusicBox => assert(s[5] == k),
        SongType::DjKkRemix => assert(s[6] == k),
    }
}

} // verus!
