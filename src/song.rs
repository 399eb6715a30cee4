use vstd::prelude::*;
use crate::asset::{SongType, all_song_types};
use crate::error::Error;
use crate::text::{filelize, filelize_chars, i32_value, lower_of, parse_i32, to_lowercase};

verus! {

/// Position of a variant in `all_song_types()`.
pub open spec fn kind_index(k: SongType) -> int {
    match k {
        SongType::Live => 0,
        SongType::Aircheck => 1,
        SongType::AircheckCheap => 2,
        SongType::AircheckRetro => 3,
        SongType::AircheckPhono => 4,
        SongType::MusicBox => 5,
        SongType::DjKkRemix => 6,
    }
}

pub const SONG_TYPE_COUNT: usize = 7;

impl SongType {
    pub fn index(&self) -> (r: usize)
        ensures
            r == kind_index(*self),
            r < SONG_TYPE_COUNT,
            all_song_types()[r as int] == *self,
    {
        match self {
            SongType::Live => 0,
            SongType::Aircheck => 1,
            SongType::AircheckCheap => 2,
            SongType::AircheckRetro => 3,
            SongType::AircheckPhono => 4,
            SongType::MusicBox => 5,
            SongType::DjKkRemix => 6,
        }
    }
}

/// The variants among the first `n` whose slot holds a url, in variant order.
pub open spec fn kinds_present(slots: Seq<Option<String>>, n: int) -> Seq<SongType>
    decreases n,
{
    if n <= 0 {
        Seq::empty()
    } else {
        let p = kinds_present(slots, n - 1);
        if slots[n - 1] is Some {
            p.push(all_song_types()[n - 1])
        } else {
            p
        }
    }
}

/// The audio url found for each variant; at most one url per variant.
#[derive(Debug)]
pub struct AssetUrls {
    slots: Vec<Option<String>>,
}

impl AssetUrls {
    #[verifier::type_invariant]
    spec fn inv(self) -> bool {
        self.slots@.len() == SONG_TYPE_COUNT
    }

    /// The url recorded for `k`, if any.
    pub closed spec fn spec_get(&self, k: SongType) -> Option<Seq<char>> {
        match self.slots@[kind_index(k)] {
            Some(u) => Some(u@),
            None => None,
        }
    }

    /// The variants that have a url, in the order of `all_song_types()`.
    pub closed spec fn spec_kinds(&self) -> Seq<SongType> {
        kinds_present(self.slots@, SONG_TYPE_COUNT as int)
    }

    pub fn new() -> (r: AssetUrls)
        ensures
            forall|k: SongType| #[trigger] r.spec_get(k) is None,
    {
        let mut slots: Vec<Option<String>> = Vec::new();
        let mut i: usize = 0;
        while i < SONG_TYPE_COUNT
            invariant
                i <= SONG_TYPE_COUNT,
                slots@.len() == i,
                forall|j: int| 0 <= j < i ==> (#[trigger] slots@[j]) is None,
            decreases SONG_TYPE_COUNT - i,
        {
            slots.push(None);
            i = i + 1;
        }
        AssetUrls { slots }
    }

    /// Records `url` for `kind`, replacing an earlier one.
    pub fn insert(&mut self, kind: SongType, url: String)
        ensures
            final(self).spec_get(kind) == Some(url@),
            forall|k: SongType| k != kind ==> #[trigger] final(self).spec_get(k) == old(self).spec_get(k),
    {
        let mut taken = AssetUrls::new();
        std::mem::swap(self, &mut taken);
        proof {
            use_type_invariant(&taken);
        }
        let AssetUrls { slots } = taken;
        let mut slots = slots;
        let i = kind.index();
        slots.set(i, Some(url));
        *self = AssetUrls { slots };
        proof {
            assert forall|k: SongType| k != kind implies #[trigger] self.spec_get(k) == old(self).spec_get(
                k,
            ) by {
                assert(kind_index(k) != kind_index(kind));
            }
        }
    }

    pub fn get(&self, kind: &SongType) -> (r: Option<&String>)
        ensures
            r is Some <==> self.spec_get(*kind) is Some,
            r matches Some(u) ==> u@ == self.spec_get(*kind)->0,
    {
        proof {
            use_type_invariant(self);
        }
        let i = kind.index();
        self.slots[i].as_ref()
    }

    /// The variants that have a url, in variant order.
    pub fn kinds(&self) -> (r: Vec<SongType>)
        ensures
            r@ == self.spec_kinds(),
            r@.no_duplicates(),
            forall|k: SongType| r@.contains(k) <==> #[trigger] self.spec_get(k) is Some,
    {
        proof {
            use_type_invariant(self);
            assert forall|k: SongType| self.spec_kinds().contains(k) <==> #[trigger] self.spec_get(k) is Some by {
                lemma_kinds_match_urls(*self, k);
            }
            lemma_kinds_match_urls(*self, SongType::Live);
        }
        let all = SongType::iterator();
        let mut r: Vec<SongType> = Vec::new();
        let mut i: usize = 0;
        while i < SONG_TYPE_COUNT
            invariant
                self.slots@.len() == SONG_TYPE_COUNT,
                all@ == all_song_types(),
                i <= SONG_TYPE_COUNT,
                r@ == kinds_present(self.slots@, i as int),
            decreases SONG_TYPE_COUNT - i,
        {
            if self.slots[i].is_some() {
                r.push(all[i]);
            }
            i = i + 1;
        }
        r
    }

    /// Number of variants with a url.
    pub fn len(&self) -> (r: usize)
        ensures
            r == self.spec_kinds().len(),
    {
        self.kinds().len()
    }

    pub fn is_empty(&self) -> (r: bool)
        ensures
            r <==> self.spec_kinds().len() == 0,
    {
        self.len() == 0
    }
}

proof fn lemma_kinds_present(slots: Seq<Option<String>>, n: int)
    requires
        0 <= n <= SONG_TYPE_COUNT,
        slots.len() == SONG_TYPE_COUNT,
    ensures
        forall|i: int|
            0 <= i < kinds_present(slots, n).len() ==> kind_index(#[trigger] kinds_present(slots, n)[i]) < n
                && slots[kind_index(kinds_present(slots, n)[i])] is Some,
        forall|k: SongType|
            kind_index(k) < n && #[trigger] slots[kind_index(k)] is Some ==> kinds_present(slots, n).contains(k),
        kinds_present(slots, n).no_duplicates(),
    decreases n,
{
    if n > 0 {
        lemma_kinds_present(slots, n - 1);
        let p = kinds_present(slots, n - 1);
        let k = all_song_types()[n - 1];
        assert(kind_index(k) == n - 1);
        if slots[n - 1] is Some {
            assert(!p.contains(k));
            assert forall|j: SongType| kind_index(j) < n && #[trigger] slots[kind_index(j)] is Some implies kinds_present(
                slots,
                n,
            ).contains(j) by {
                if kind_index(j) < n - 1 {
                    let w = choose|w: int| 0 <= w < p.len() && p[w] == j;
                    assert(kinds_present(slots, n)[w] == j);
                } else {
                    crate::asset::lemma_all_song_types_complete(j);
                    assert(kinds_present(slots, n)[p.len() as int] == j);
                }
            }
        }
    }
}

proof fn lemma_kinds_match_urls(a: AssetUrls, k: SongType)
    requires
        a.slots@.len() == SONG_TYPE_COUNT,
    ensures
        a.spec_kinds().contains(k) <==> a.spec_get(k) is Some,
        a.spec_kinds().no_duplicates(),
{
    lemma_kinds_present(a.slots@, SONG_TYPE_COUNT as int);
    if a.spec_kinds().contains(k) {
        let w = choose|w: int| 0 <= w < a.spec_kinds().len() && a.spec_kinds()[w] == k;
        assert(a.slots@[kind_index(a.spec_kinds()[w])] is Some);
    }
}

/// One song's metadata, as read from its page.
#[derive(Debug)]
pub struct SongInfo {
    pub title: String,
    pub number: i32,
    pub wiki_url: String,
    pub image_url: Option<String>,
    pub song_file_urls: AssetUrls,
}

/// What the page parser found on a song page, before validation.
#[derive(Debug)]
pub struct PageFields {
    pub title: Option<String>,
    pub url: Option<String>,
    pub image: Option<String>,
    pub number: Option<String>,
    pub song_file_urls: AssetUrls,
}

/// The ordinal an ordinal text denotes: its first character (a marker such
/// as `#`) is skipped and the rest read as a decimal `i32`.
pub open spec fn ordinal_value(text: Seq<char>) -> Option<int> {
    if text.len() == 0 {
        None
    } else {
        i32_value(text.drop_first())
    }
}

/// Reads an ordinal text such as `#88`.
pub fn parse_ordinal(text: &str) -> (r: Option<i32>)
    ensures
        r is Some <==> ordinal_value(text@) is Some,
        r matches Some(v) ==> v as int == ordinal_value(text@)->0,
{
    let n = text.unicode_len();
    if n == 0 {
        return None;
    }
    let rest = text.substring_char(1, n);
    assert(rest@ =~= text@.drop_first());
    parse_i32(rest)
}

impl PageFields {
    pub open spec fn has_title(&self) -> bool {
        self.title matches Some(t) && t@.len() > 0
    }

    /// All required fields are there and the ordinal is a valid integer.
    pub open spec fn is_complete(&self) -> bool {
        &&& self.has_title()
        &&& self.url is Some
        &&& self.number matches Some(t) && ordinal_value(t@) is Some
    }

    /// The error validation reports for incomplete fields: the first missing
    /// field among title, url and number, else the malformed ordinal.
    pub open spec fn reports(&self, e: Error) -> bool {
        if !self.has_title() {
            e matches Error::MissingElement(n) && n@ == "title"@
        } else if self.url is None {
            e matches Error::MissingElement(n) && n@ == "url"@
        } else if self.number is None {
            e matches Error::MissingElement(n) && n@ == "number"@
        } else {
            e matches Error::CouldNotParseNumber(t) && t == self.number->0
        }
    }

    /// What validating these fields gives.
    pub open spec fn validates_to(&self, r: Result<SongInfo, Error>) -> bool {
        &&& r is Ok <==> self.is_complete()
        &&& r matches Ok(info) ==> {
            &&& info.title == self.title->0
            &&& info.wiki_url == self.url->0
            &&& info.number as int == ordinal_value(self.number->0@)->0
            &&& info.image_url == self.image
            &&& info.song_file_urls == self.song_file_urls
        }
        &&& r matches Err(e) ==> self.reports(e)
    }
}

impl SongInfo {
    pub open spec fn wf(&self) -> bool {
        self.title@.len() > 0
    }

    /// Builds a song from the fields its page yielded. The title, the url and
    /// the ordinal are required; the image and the audio urls are optional.
    pub fn from_fields(fields: PageFields) -> (r: Result<SongInfo, Error>)
        ensures
            fields.validates_to(r),
            r matches Ok(info) ==> info.wf(),
    {
        let title = match fields.title {
            Some(t) => {
                if t.unicode_len() == 0 {
                    return Err(Error::MissingElement(String::from_str("title")));
                }
                t
            },
            None => return Err(Error::MissingElement(String::from_str("title"))),
        };
        let wiki_url = match fields.url {
            Some(u) => u,
            None => return Err(Error::MissingElement(String::from_str("url"))),
        };
        let number_text = match fields.number {
            Some(n) => n,
            None => return Err(Error::MissingElement(String::from_str("number"))),
        };
        let number = match parse_ordinal(number_text.as_str()) {
            Some(v) => v,
            None => return Err(Error::CouldNotParseNumber(number_text)),
        };
        Ok(SongInfo { title, number, wiki_url, image_url: fields.image, song_file_urls: fields.song_file_urls })
    }

    /// The directory name for this song: the title lower-cased, with spaces
    /// replaced by underscores and periods removed.
    pub fn filelized_title(&self) -> (r: String)
        ensures
            r@ == filelize_chars(lower_of(self.title@)),
    {
        let lower = to_lowercase(self.title.as_str());
        filelize(lower.as_str())
    }
}

} // verus!
