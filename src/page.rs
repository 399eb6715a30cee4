use vstd::prelude::*;
use scraper::{Html, Selector};
use crate::asset::{SongType, all_song_types};
use crate::error::Error;
use crate::song::{AssetUrls, PageFields, SongInfo, kind_index};

verus! {

/// Whether `scraper::Selector::parse` accepts the selector text.
pub uninterp spec fn selector_ok(selector: Seq<char>) -> bool;

/// For each element of the parsed document matching the selector, in
/// document order, the value of the attribute `attr`.
pub uninterp spec fn attrs_of(document: Seq<char>, selector: Seq<char>, attr: Seq<char>) -> Seq<Option<Seq<char>>>;

/// For each element of the parsed document matching the selector, in
/// document order, its inner HTML.
pub uninterp spec fn inner_htmls_of(document: Seq<char>, selector: Seq<char>) -> Seq<Seq<char>>;

pub open spec fn opt_view(o: Option<String>) -> Option<Seq<char>> {
    match o {
        Some(s) => Some(s@),
        None => None,
    }
}

pub open spec fn opt_views(s: Seq<Option<String>>) -> Seq<Option<Seq<char>>> {
    s.map_values(|o: Option<String>| opt_view(o))
}

pub open spec fn str_views(s: Seq<String>) -> Seq<Seq<char>> {
    s.map_values(|x: String| x@)
}

/// Relies on `scraper::Selector::parse`, `scraper::Html::parse_document`,
/// `scraper::Html::select` and `scraper::ElementRef::attr`: `None` exactly
/// when the selector does not parse; otherwise the attribute of each matching
/// element, which depends on the document and selector text alone.
#[verifier::external_body]
pub(crate) fn select_attrs(document: &str, selector: &str, attr: &str) -> (r: Option<Vec<Option<String>>>)
    ensures
        r is Some <==> selector_ok(selector@),
        r matches Some(v) ==> opt_views(v@) == attrs_of(document@, selector@, attr@),
{
    let selector = Selector::parse(selector).ok()?;
    let html = Html::parse_document(document);
    Some(html.select(&selector).map(|e| e.attr(attr).map(|v| v.to_string())).collect())
}

/// Relies on `scraper::Selector::parse`, `scraper::Html::parse_document`,
/// `scraper::Html::select` and `scraper::ElementRef::inner_html`: `None`
/// exactly when the selector does not parse; otherwise the inner HTML of each
/// matching element, which depends on the document and selector text alone.
#[verifier::external_body]
fn select_inner_html(document: &str, selector: &str) -> (r: Option<Vec<String>>)
    ensures
        r is Some <==> selector_ok(selector@),
        r matches Some(v) ==> str_views(v@) == inner_htmls_of(document@, selector@),
{
    let selector = Selector::parse(selector).ok()?;
    let html = Html::parse_document(document);
    Some(html.select(&selector).map(|e| e.inner_html()).collect())
}

/// The attribute of the first matching element, if there is one and it has it.
pub open spec fn first_attr_of(document: Seq<char>, selector: Seq<char>, attr: Seq<char>) -> Option<Seq<char>> {
    let all = attrs_of(document, selector, attr);
    if all.len() == 0 {
        None
    } else {
        all[0]
    }
}

/// The inner HTML of the first matching element, if there is one.
pub open spec fn first_inner_html_of(document: Seq<char>, selector: Seq<char>) -> Option<Seq<char>> {
    let all = inner_htmls_of(document, selector);
    if all.len() == 0 {
        None
    } else {
        Some(all[0])
    }
}

/// The selector for a `<meta property="og:...">` entry of the page head.
pub open spec fn meta_selector(property: Seq<char>) -> Seq<char> {
    "head > meta[property=\"og:"@ + property + "\"][content]"@
}

/// The selector for the ordinal in the infobox.
pub open spec fn number_selector() -> Seq<char> {
    "table.infobox > tbody table big > i > b"@
}

/// Where the infobox keeps its audio elements.
pub open spec fn infobox_scope() -> Seq<char> {
    "table.infobox > tbody > tr > td"@
}

/// Where the music section keeps its audio elements.
pub open spec fn music_scope() -> Seq<char> {
    "div.tabletop.color-music table > tbody > tr > td"@
}

/// The selector for an audio element whose source ends in `ending`, under the
/// element path `scope`.
pub open spec fn audio_selector(scope: Seq<char>, ending: Seq<char>) -> Seq<char> {
    scope + " > audio[src$=\""@ + ending + "\"]"@
}

/// The audio url of a variant: the first match in the infobox, else the
/// first match in the music section.
pub open spec fn song_url_of(document: Seq<char>, kind: SongType) -> Option<Seq<char>> {
    let ending = kind.spec_url_ending();
    let in_infobox = first_attr_of(document, audio_selector(infobox_scope(), ending), "src"@);
    if in_infobox is Some {
        in_infobox
    } else {
        first_attr_of(document, audio_selector(music_scope(), ending), "src"@)
    }
}

pub open spec fn kind_selectors_ok(kind: SongType) -> bool {
    &&& selector_ok(audio_selector(infobox_scope(), kind.spec_url_ending()))
    &&& selector_ok(audio_selector(music_scope(), kind.spec_url_ending()))
}

/// Every selector a song page is read with parses.
pub open spec fn page_selectors_ok() -> bool {
    &&& selector_ok(meta_selector("title"@))
    &&& selector_ok(meta_selector("url"@))
    &&& selector_ok(meta_selector("image"@))
    &&& selector_ok(number_selector())
    &&& forall|k: SongType| #[trigger] kind_selectors_ok(k)
}

/// The fields are those the document yields.
pub open spec fn fields_match(f: PageFields, document: Seq<char>) -> bool {
    &&& opt_view(f.title) == first_attr_of(document, meta_selector("title"@), "content"@)
    &&& opt_view(f.url) == first_attr_of(document, meta_selector("url"@), "content"@)
    &&& opt_view(f.image) == first_attr_of(document, meta_selector("image"@), "content"@)
    &&& opt_view(f.number) == first_inner_html_of(document, number_selector())
    &&& forall|k: SongType| #[trigger] f.song_file_urls.spec_get(k) == song_url_of(document, k)
}

fn first_attr(document: &str, selector: String, attr: &str) -> (r: Result<Option<String>, Error>)
    ensures
        r is Ok <==> selector_ok(selector@),
        r matches Ok(v) ==> opt_view(v) == first_attr_of(document@, selector@, attr@),
        r matches Err(e) ==> e == Error::InvalidSelector(selector),
{
    match select_attrs(document, selector.as_str(), attr) {
        None => Err(Error::InvalidSelector(selector)),
        Some(found) => {
            let mut found = found;
            if found.len() == 0 {
                Ok(None)
            } else {
                assert(opt_views(found@)[0] == opt_view(found@[0]));
                Ok(found.swap_remove(0))
            }
        },
    }
}

fn first_inner_html(document: &str, selector: String) -> (r: Result<Option<String>, Error>)
    ensures
        r is Ok <==> selector_ok(selector@),
        r matches Ok(v) ==> opt_view(v) == first_inner_html_of(document@, selector@),
        r matches Err(e) ==> e == Error::InvalidSelector(selector),
{
    match select_inner_html(document, selector.as_str()) {
        None => Err(Error::InvalidSelector(selector)),
        Some(found) => {
            let mut found = found;
            if found.len() == 0 {
                Ok(None)
            } else {
                assert(str_views(found@)[0] == found@[0]@);
                Ok(Some(found.swap_remove(0)))
            }
        },
    }
}

/// The `content` of the page's `og:<property>` meta entry.
fn meta_property(document: &str, property: &str) -> (r: Result<Option<String>, Error>)
    ensures
        r is Ok <==> selector_ok(meta_selector(property@)),
        r matches Ok(v) ==> opt_view(v) == first_attr_of(document@, meta_selector(property@), "content"@),
        r matches Err(e) ==> e is InvalidSelector,
{
    let mut text = String::from_str("head > meta[property=\"og:");
    text.append(property);
    text.append("\"][content]");
    first_attr(document, text, "content")
}

fn audio_url(document: &str, scope: &str, ending: &str) -> (r: Result<Option<String>, Error>)
    ensures
        r is Ok <==> selector_ok(audio_selector(scope@, ending@)),
        r matches Ok(v) ==> opt_view(v) == first_attr_of(document@, audio_selector(scope@, ending@), "src"@),
        r matches Err(e) ==> e is InvalidSelector,
{
    let mut text = String::from_str(scope);
    text.append(" > audio[src$=\"");
    text.append(ending);
    text.append("\"]");
    first_attr(document, text, "src")
}

/// The audio url of one variant: the infobox is searched first, then the
/// music section.
fn song_file_url(document: &str, kind: SongType) -> (r: Result<Option<String>, Error>)
    ensures
        kind_selectors_ok(kind) ==> r is Ok,
        r is Err ==> !kind_selectors_ok(kind),
        r matches Ok(v) ==> opt_view(v) == song_url_of(document@, kind),
        r matches Err(e) ==> e is InvalidSelector,
{
    let ending = kind.url_ending();
    let in_infobox = audio_url(document, "table.infobox > tbody > tr > td", ending)?;
    if in_infobox.is_some() {
        return Ok(in_infobox);
    }
    audio_url(document, "div.tabletop.color-music table > tbody > tr > td", ending)
}

proof fn lemma_kind_index_of_position(i: int)
    requires
        0 <= i < 7,
    ensures
        kind_index(all_song_types()[i]) == i,
{
    if i == 0 {} else if i == 1 {} else if i == 2 {} else if i == 3 {} else if i == 4 {} else if i == 5 {} else {}
}

fn song_file_urls(document: &str) -> (r: Result<AssetUrls, Error>)
    ensures
        (forall|k: SongType| #[trigger] kind_selectors_ok(k)) ==> r is Ok,
        r is Err ==> !(forall|k: SongType| #[trigger] kind_selectors_ok(k)),
        r matches Ok(a) ==> forall|k: SongType| #[trigger] a.spec_get(k) == song_url_of(document@, k),
        r matches Err(e) ==> e is InvalidSelector,
{
    let kinds = SongType::iterator();
    let mut urls = AssetUrls::new();
    let mut i: usize = 0;
    while i < kinds.len()
        invariant
            kinds@ == all_song_types(),
            i <= kinds@.len(),
            forall|k: SongType| kind_index(k) < i ==> #[trigger] urls.spec_get(k) == song_url_of(document@, k),
            forall|k: SongType| kind_index(k) >= i ==> #[trigger] urls.spec_get(k) is None,
        decreases kinds@.len() - i,
    {
        let kind = kinds[i];
        proof {
            lemma_kind_index_of_position(i as int);
        }
        match song_file_url(document, kind) {
            Err(e) => return Err(e),
            Ok(Some(url)) => urls.insert(kind, url),
            Ok(None) => {},
        }
        i = i + 1;
    }
    Ok(urls)
}

/// Collects what a song page offers: its title, canonical url and image from
/// the head's meta entries, its ordinal text from the infobox, and the audio
/// url of each variant.
pub fn page_fields(document: &str) -> (r: Result<PageFields, Error>)
    ensures
        page_selectors_ok() ==> r is Ok,
        r is Err ==> !page_selectors_ok(),
        r matches Ok(f) ==> fields_match(f, document@),
        r matches Err(e) ==> e is InvalidSelector,
{
    let title = meta_property(document, "title")?;
    let url = meta_property(document, "url")?;
    let image = meta_property(document, "image")?;
    let number = first_inner_html(document, String::from_str("table.infobox > tbody table big > i > b"))?;
    let song_file_urls = song_file_urls(document)?;
    Ok(PageFields { title, url, image, number, song_file_urls })
}

impl SongInfo {
    /// Reads a song from the HTML of its page: the fields the page yields,
    /// validated as `from_fields` states.
    pub fn parse_document(document: &str) -> (r: Result<SongInfo, Error>)
        ensures
            r matches Ok(info) ==> info.wf(),
            (r matches Err(e) && e is InvalidSelector) ==> !page_selectors_ok(),
            !(r matches Err(e) && e is InvalidSelector) ==> exists|f: PageFields|
                #[trigger] fields_match(f, document@) && f.validates_to(r),
    {
        let fields = page_fields(document)?;
        let ghost f = fields;
        let r = SongInfo::from_fields(fields);
        assert(fields_match(f, document@) && f.validates_to(r));
        r
    }
}

} // verus!
