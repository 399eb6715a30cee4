use vstd::prelude::*;
use crate::error::Error;
use crate::page::{attrs_of, opt_views, select_attrs, selector_ok};

verus! {

/// Where the song list lives: the site's base url and the path of the index
/// page on it.
#[derive(Debug, Clone)]
pub struct SiteConfig {
    pub base_url: String,
    pub songlist_path: String,
}

/// The absolute urls for the relative links that are present, in order.
pub open spec fn absolute_links(base: Seq<char>, hrefs: Seq<Option<Seq<char>>>) -> Seq<Seq<char>>
    decreases hrefs.len(),
{
    if hrefs.len() == 0 {
        Seq::empty()
    } else {
        let p = absolute_links(base, hrefs.drop_last());
        match hrefs.last() {
            Some(h) => p.push(base + h),
            None => p,
        }
    }
}

pub open spec fn views(v: Seq<String>) -> Seq<Seq<char>> {
    v.map_values(|s: String| s@)
}

/// The selector for the links of the song listing table.
pub open spec fn listing_selector() -> Seq<char> {
    "table.styled > tbody > tr > td > a[href^=\"/wiki\"][title]"@
}

impl SiteConfig {
    /// The site the songs are listed on.
    pub fn new() -> (r: SiteConfig)
        ensures
            r.base_url@ == "https://nookipedia.com"@,
            r.songlist_path@ == "/wiki/List_of_K.K._Slider_songs"@,
    {
        SiteConfig {
            base_url: String::from_str("https://nookipedia.com"),
            songlist_path: String::from_str("/wiki/List_of_K.K._Slider_songs"),
        }
    }

    /// The url of the index page.
    pub fn index_url(&self) -> (r: String)
        ensures
            r@ == self.base_url@ + self.songlist_path@,
    {
        let mut r = self.base_url.clone();
        r.append(self.songlist_path.as_str());
        r
    }

    /// Turns site-relative links into absolute urls; missing links are skipped.
    pub fn absolute_urls(&self, hrefs: &Vec<Option<String>>) -> (r: Vec<String>)
        ensures
            views(r@) == absolute_links(self.base_url@, opt_views(hrefs@)),
    {
        let mut r: Vec<String> = Vec::new();
        let mut i: usize = 0;
        while i < hrefs.len()
            invariant
                i <= hrefs@.len(),
                views(r@) == absolute_links(self.base_url@, opt_views(hrefs@.subrange(0, i as int))),
            decreases hrefs@.len() - i,
        {
            assert(opt_views(hrefs@.subrange(0, i + 1)).drop_last() =~= opt_views(hrefs@.subrange(0, i as int)));
            assert(opt_views(hrefs@.subrange(0, i + 1)).last() == crate::page::opt_view(hrefs@[i as int]));
            if let Some(h) = &hrefs[i] {
                let mut u = self.base_url.clone();
                u.append(h.as_str());
                let ghost before = r@;
                r.push(u);
                assert(views(r@) =~= views(before).push(u@));
            }
            i = i + 1;
        }
        assert(hrefs@.subrange(0, hrefs@.len() as int) =~= hrefs@);
        r
    }

    /// The absolute url of every song page the index document links to, in
    /// document order.
    pub fn song_wiki_urls(&self, index_document: &str) -> (r: Result<Vec<String>, Error>)
        ensures
            selector_ok(listing_selector()) ==> r is Ok,
            r is Err ==> !selector_ok(listing_selector()),
            r matches Ok(urls) ==> views(urls@) == absolute_links(
                self.base_url@,
                attrs_of(index_document@, listing_selector(), "href"@),
            ),
            r matches Err(e) ==> e is InvalidSelector,
    {
        let selector = "table.styled > tbody > tr > td > a[href^=\"/wiki\"][title]";
        match select_attrs(index_document, selector, "href") {
            None => Err(Error::InvalidSelector(String::from_str(selector))),
            Some(hrefs) => Ok(self.absolute_urls(&hrefs)),
        }
    }
}

} // verus!
