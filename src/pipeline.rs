use vstd::prelude::*;
use crate::download::ItemReport;
use crate::error::Error;
use crate::song::{PageFields, SongInfo};

verus! {

/// The stages of a run. Each stage finishes all of its work before the next
/// one starts.
#[derive(PartialEq, Eq, Structural, Clone, Copy, Debug)]
pub enum Stage {
    Idle,
    Discovering,
    ExtractingMetadata,
    PersistingSnapshot,
    Downloading,
    Done,
    Failed,
}

/// The outcome of a whole run.
#[derive(Debug)]
pub struct RunResult {
    /// Song pages found on the index page.
    pub discovered: usize,
    /// Songs whose metadata was read.
    pub extracted: usize,
    /// Song pages whose metadata could not be read, with the reason.
    pub metadata_failures: Vec<(String, Error)>,
    /// Songs all of whose files arrived.
    pub fully_downloaded: usize,
    /// The reports of songs with at least one failed file.
    pub download_failures: Vec<ItemReport>,
}

/// The songs read successfully, in page order.
pub open spec fn extracted_songs(results: Seq<Result<SongInfo, Error>>) -> Seq<SongInfo>
    decreases results.len(),
{
    if results.len() == 0 {
        Seq::empty()
    } else {
        let p = extracted_songs(results.drop_last());
        match results.last() {
            Ok(s) => p.push(s),
            Err(_) => p,
        }
    }
}

/// The pages that could not be read, each with its url and error, in page order.
pub open spec fn failed_pages(urls: Seq<String>, results: Seq<Result<SongInfo, Error>>) -> Seq<(String, Error)>
    decreases results.len(),
{
    if results.len() == 0 {
        Seq::empty()
    } else {
        let n = results.len() - 1;
        let p = failed_pages(urls, results.drop_last());
        match results[n] {
            Ok(_) => p,
            Err(e) => p.push((urls[n], e)),
        }
    }
}

/// The reports of songs that had a failed file, in order.
pub open spec fn failed_reports(reports: Seq<ItemReport>) -> Seq<ItemReport>
    decreases reports.len(),
{
    if reports.len() == 0 {
        Seq::empty()
    } else {
        let p = failed_reports(reports.drop_last());
        if reports.last().failures@.len() == 0 {
            p
        } else {
            p.push(reports.last())
        }
    }
}

fn into_reversed<T>(v: Vec<T>) -> (r: Vec<T>)
    ensures
        r@ == v@.reverse(),
{
    let ghost all = v@;
    let mut v = v;
    let mut r: Vec<T> = Vec::new();
    while v.len() > 0
        invariant
            all == v@ + r@.reverse(),
        decreases v@.len(),
    {
        let ghost vb = v@;
        let ghost rb = r@;
        let x = v.pop().unwrap();
        r.push(x);
        assert(r@.reverse() =~= seq![x] + rb.reverse());
        assert(vb =~= v@.push(x));
        assert(all =~= v@ + r@.reverse());
    }
    assert(all =~= r@.reverse());
    assert(r@ =~= all.reverse());
    r
}

/// Splits the metadata results of the song pages at `urls` into the songs that
/// were read and the pages that failed. Every page lands on exactly one side.
pub fn partition_metadata(urls: Vec<String>, results: Vec<Result<SongInfo, Error>>) -> (r: (Vec<SongInfo>, Vec<(String, Error)>))
    requires
        urls@.len() == results@.len(),
    ensures
        r.0@ == extracted_songs(results@),
        r.1@ == failed_pages(urls@, results@),
        r.0@.len() + r.1@.len() == results@.len(),
{
    let ghost all = results@;
    let ghost all_urls = urls@;
    let n = results.len();
    let mut pending = into_reversed(results);
    let mut pending_urls = into_reversed(urls);
    let mut songs: Vec<SongInfo> = Vec::new();
    let mut failures: Vec<(String, Error)> = Vec::new();
    let mut i: usize = 0;
    while i < n
        invariant
            n == all.len(),
            n == all_urls.len(),
            i <= n,
            pending@ == all.subrange(i as int, n as int).reverse(),
            pending_urls@ == all_urls.subrange(i as int, n as int).reverse(),
            songs@ == extracted_songs(all.subrange(0, i as int)),
            failures@ == failed_pages(all_urls, all.subrange(0, i as int)),
            songs@.len() + failures@.len() == i,
        decreases n - i,
    {
        assert(pending@.len() == n - i);
        let item = pending.pop().unwrap();
        let url = pending_urls.pop().unwrap();
        assert(item == all[i as int]);
        assert(url == all_urls[i as int]);
        assert(pending@ =~= all.subrange(i + 1, n as int).reverse());
        assert(pending_urls@ =~= all_urls.subrange(i + 1, n as int).reverse());
        assert(all.subrange(0, i + 1).drop_last() =~= all.subrange(0, i as int));
        match item {
            Ok(song) => songs.push(song),
            Err(e) => failures.push((url, e)),
        }
        i = i + 1;
    }
    assert(all.subrange(0, n as int) =~= all);
    (songs, failures)
}

/// Counts the songs whose files all arrived and keeps the reports of the others.
pub fn summarize_downloads(reports: Vec<ItemReport>) -> (r: (usize, Vec<ItemReport>))
    ensures
        r.1@ == failed_reports(reports@),
        r.0 + r.1@.len() == reports@.len(),
{
    let ghost all = reports@;
    let n = reports.len();
    let mut pending = into_reversed(reports);
    let mut complete: usize = 0;
    let mut failed: Vec<ItemReport> = Vec::new();
    let mut i: usize = 0;
    while i < n
        invariant
            n == all.len(),
            i <= n,
            pending@ == all.subrange(i as int, n as int).reverse(),
            failed@ == failed_reports(all.subrange(0, i as int)),
            complete + failed@.len() == i,
        decreases n - i,
    {
        let report = pending.pop().unwrap();
        assert(report == all[i as int]);
        assert(pending@ =~= all.subrange(i + 1, n as int).reverse());
        assert(all.subrange(0, i + 1).drop_last() =~= all.subrange(0, i as int));
        if report.is_success() {
            complete = complete + 1;
        } else {
            failed.push(report);
        }
        i = i + 1;
    }
    assert(all.subrange(0, n as int) =~= all);
    (complete, failed)
}

/// The run's progress through its stages. Discovery and snapshot failures end
/// the run; the failure of a single song's metadata or files never does.
pub struct Pipeline {
    stage: Stage,
    discovered: usize,
    extracted: usize,
    metadata_failures: Vec<(String, Error)>,
    error: Option<Error>,
}

impl Pipeline {
    pub closed spec fn stage(&self) -> Stage {
        self.stage
    }

    pub closed spec fn spec_discovered(&self) -> nat {
        self.discovered as nat
    }

    pub closed spec fn spec_extracted(&self) -> nat {
        self.extracted as nat
    }

    pub closed spec fn spec_metadata_failures(&self) -> Seq<(String, Error)> {
        self.metadata_failures@
    }

    /// The error that ended the run, once it has failed.
    pub closed spec fn spec_error(&self) -> Option<Error> {
        self.error
    }

    pub fn new() -> (r: Pipeline)
        ensures
            r.stage() == Stage::Idle,
            r.spec_error() is None,
    {
        Pipeline { stage: Stage::Idle, discovered: 0, extracted: 0, metadata_failures: Vec::new(), error: None }
    }

    pub fn current_stage(&self) -> (r: Stage)
        ensures
            r == self.stage(),
    {
        self.stage
    }

    pub fn start(&mut self)
        requires
            old(self).stage() == Stage::Idle,
        ensures
            final(self).stage() == Stage::Discovering,
            final(self).spec_error() == old(self).spec_error(),
    {
        self.stage = Stage::Discovering;
    }

    /// Discovery ended with the number of song pages found, or an error
    /// that ends the run.
    pub fn discovery_finished(&mut self, outcome: Result<usize, Error>)
        requires
            old(self).stage() == Stage::Discovering,
        ensures
            outcome matches Ok(n) ==> final(self).stage() == Stage::ExtractingMetadata
                && final(self).spec_discovered() == n && final(self).spec_error() is None,
            outcome matches Err(e) ==> final(self).stage() == Stage::Failed && final(self).spec_error()
                == Some(e),
    {
        match outcome {
            Ok(n) => {
                self.discovered = n;
                self.error = None;
                self.stage = Stage::ExtractingMetadata;
            },
            Err(e) => {
                self.error = Some(e);
                self.stage = Stage::Failed;
            },
        }
    }

    /// Metadata extraction ended with one result per discovered page; the
    /// failed pages are recorded and the songs read are handed on.
    pub fn metadata_finished(&mut self, urls: Vec<String>, results: Vec<Result<SongInfo, Error>>) -> (songs: Vec<SongInfo>)
        requires
            old(self).stage() == Stage::ExtractingMetadata,
            urls@.len() == results@.len(),
        ensures
            final(self).stage() == Stage::PersistingSnapshot,
            final(self).spec_error() == old(self).spec_error(),
            final(self).spec_discovered() == old(self).spec_discovered(),
            songs@ == extracted_songs(results@),
            final(self).spec_extracted() == songs@.len(),
            final(self).spec_metadata_failures() == failed_pages(urls@, results@),
    {
        let (songs, failures) = partition_metadata(urls, results);
        self.extracted = songs.len();
        self.metadata_failures = failures;
        self.stage = Stage::PersistingSnapshot;
        songs
    }

    /// Writing the snapshot ended; a failure ends the run.
    pub fn snapshot_finished(&mut self, outcome: Result<(), Error>)
        requires
            old(self).stage() == Stage::PersistingSnapshot,
        ensures
            outcome is Ok ==> final(self).stage() == Stage::Downloading && final(self).spec_error()
                == old(self).spec_error(),
            outcome matches Err(e) ==> final(self).stage() == Stage::Failed && final(self).spec_error()
                == Some(e),
            final(self).spec_discovered() == old(self).spec_discovered(),
            final(self).spec_extracted() == old(self).spec_extracted(),
            final(self).spec_metadata_failures() == old(self).spec_metadata_failures(),
    {
        match outcome {
            Ok(()) => self.stage = Stage::Downloading,
            Err(e) => {
                self.error = Some(e);
                self.stage = Stage::Failed;
            },
        }
    }

    /// Every song's downloads ended; the run is done and its result built.
    pub fn downloads_finished(self, reports: Vec<ItemReport>) -> (r: RunResult)
        requires
            self.stage() == Stage::Downloading,
        ensures
            r.discovered == self.spec_discovered(),
            r.extracted == self.spec_extracted(),
            r.metadata_failures@ == self.spec_metadata_failures(),
            r.download_failures@ == failed_reports(reports@),
            r.fully_downloaded + r.download_failures@.len() == reports@.len(),
    {
        let (fully_downloaded, download_failures) = summarize_downloads(reports);
        RunResult {
            discovered: self.discovered,
            extracted: self.extracted,
            metadata_failures: self.metadata_failures,
            fully_downloaded,
            download_failures,
        }
    }

    /// The error that ended the run, if it failed.
    pub fn into_error(self) -> (r: Option<Error>)
        ensures
            r == self.spec_error(),
    {
        self.error
    }
}

/// A page whose metadata fails is recorded once, with its url, and every
/// other page's song is kept: failures are isolated per page.
pub proof fn lemma_metadata_isolation(urls: Seq<String>, results: Seq<Result<SongInfo, Error>>, i: int)
    requires
        urls.len() == results.len(),
        0 <= i < results.len(),
    ensures
        extracted_songs(results).len() + failed_pages(urls, results).len() == results.len(),
        results[i] is Ok ==> extracted_songs(results).contains(results[i]->Ok_0),
        results[i] is Err ==> failed_pages(urls, results).contains((urls[i], results[i]->Err_0)),
{
    lemma_isolation_prefix(urls, results, i);
}

proof fn lemma_isolation_prefix(urls: Seq<String>, results: Seq<Result<SongInfo, Error>>, i: int)
    requires
        urls.len() >= results.len(),
        0 <= i < results.len(),
    ensures
        extracted_songs(results).len() + failed_pages(urls, results).len() == results.len(),
        results[i] is Ok ==> extracted_songs(results).contains(results[i]->Ok_0),
        results[i] is Err ==> failed_pages(urls, results).contains((urls[i], results[i]->Err_0)),
    decreases results.len(),
{
    let n = results.len() - 1;
    if n > 0 && i < n {
        lemma_isolation_prefix(urls, results.drop_last(), i);
        assert(results.drop_last()[i] == results[i]);
        let p = extracted_songs(results.drop_last());
        let q = failed_pages(urls, results.drop_last());
        if results[i] is Ok {
            let w = choose|w: int| 0 <= w < p.len() && p[w] == results[i]->Ok_0;
            assert(extracted_songs(results)[w] == results[i]->Ok_0);
        } else {
            let w = choose|w: int| 0 <= w < q.len() && q[w] == (urls[i], results[i]->Err_0);
            assert(failed_pages(urls, results)[w] == (urls[i], results[i]->Err_0));
        }
    } else {
        lemma_partition_len(urls, results);
        if i == n {
            if results[i] is Ok {
                assert(extracted_songs(results).last() == results[i]->Ok_0);
            } else {
                assert(failed_pages(urls, results).last() == (urls[i], results[i]->Err_0));
            }
        }
    }
}

proof fn lemma_partition_len(urls: Seq<String>, results: Seq<Result<SongInfo, Error>>)
    ensures
        extracted_songs(results).len() + failed_pages(urls, results).len() == results.len(),
    decreases results.len(),
{
    if results.len() > 0 {
        lemma_partition_len(urls, results.drop_last());
    }
}

/// When each page's result is the validation of its fields and page `i` has
/// no title, page `i` is recorded once as a missing-title error with its url,
/// and the song of every page that was read is kept.
pub proof fn lemma_missing_title_isolated(
    urls: Seq<String>,
    fields: Seq<PageFields>,
    results: Seq<Result<SongInfo, Error>>,
    i: int,
)
    requires
        urls.len() == results.len(),
        fields.len() == results.len(),
        forall|j: int| 0 <= j < results.len() ==> (#[trigger] fields[j]).validates_to(results[j]),
        0 <= i < results.len(),
        !fields[i].has_title(),
    ensures
        results[i] matches Err(e) && e matches Error::MissingElement(n) && n@ == "title"@,
        failed_pages(urls, results).contains((urls[i], results[i]->Err_0)),
        forall|j: int| 0 <= j < results.len() && (#[trigger] results[j]) is Ok ==> extracted_songs(results).contains(
            results[j]->Ok_0,
        ),
        extracted_songs(results).len() + failed_pages(urls, results).len() == results.len(),
{
    assert(fields[i].validates_to(results[i]));
    lemma_metadata_isolation(urls, results, i);
    assert forall|j: int| 0 <= j < results.len() && (#[trigger] results[j]) is Ok implies extracted_songs(
        results,
    ).contains(results[j]->Ok_0) by {
        lemma_metadata_isolation(urls, results, j);
    }
}

} // verus!
