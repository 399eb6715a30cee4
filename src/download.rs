use vstd::prelude::*;
use crate::asset::SongType;
use crate::error::Error;
use crate::song::{AssetUrls, SongInfo};
use crate::text::{ends_with, filelize_chars, has_suffix, lower_of};

verus! {

/// One downloadable file of a song.
#[derive(PartialEq, Eq, Structural, Clone, Copy, Debug)]
pub enum Asset {
    Image,
    Song(SongType),
}

/// One file to fetch: which asset, from where, to which path.
#[derive(Debug)]
pub struct DownloadTask {
    pub asset: Asset,
    pub url: String,
    pub path: String,
}

/// An asset that could not be fetched, with the error of each attempt.
#[derive(Debug)]
pub struct AssetFailure {
    pub asset: Asset,
    pub errors: Vec<Error>,
}

/// The failures of one song's downloads; empty means every file arrived.
#[derive(Debug)]
pub struct ItemReport {
    pub title: String,
    pub failures: Vec<AssetFailure>,
}

/// The files to fetch for one song, and the failures known before fetching.
#[derive(Debug)]
pub struct ItemPlan {
    pub directory: String,
    pub tasks: Vec<DownloadTask>,
    pub report: ItemReport,
}

/// The stored extension for an image url, if its type is supported.
pub open spec fn image_extension_of(url: Seq<char>) -> Option<Seq<char>> {
    if has_suffix(url, ".png"@) {
        Some("png"@)
    } else if has_suffix(url, ".jpg"@) || has_suffix(url, ".jpeg"@) {
        Some("jpg"@)
    } else {
        None
    }
}

pub open spec fn join_path(dir: Seq<char>, name: Seq<char>) -> Seq<char> {
    dir + "/"@ + name
}

pub open spec fn song_file_path(dir: Seq<char>, kind: SongType) -> Seq<char> {
    join_path(dir, kind.spec_file_string() + ".flac"@)
}

pub open spec fn image_path(dir: Seq<char>, ext: Seq<char>) -> Seq<char> {
    join_path(dir, "image."@ + ext)
}

/// A task as a mathematical value: asset, url, path.
pub open spec fn task_view(t: DownloadTask) -> (Asset, Seq<char>, Seq<char>) {
    (t.asset, t.url@, t.path@)
}

pub open spec fn tasks_view(ts: Seq<DownloadTask>) -> Seq<(Asset, Seq<char>, Seq<char>)> {
    ts.map_values(|t: DownloadTask| task_view(t))
}

/// The image task, when the song has an image of a supported type.
pub open spec fn image_tasks(image: Option<String>, dir: Seq<char>) -> Seq<(Asset, Seq<char>, Seq<char>)> {
    match image {
        Some(u) => match image_extension_of(u@) {
            Some(ext) => seq![(Asset::Image, u@, image_path(dir, ext))],
            None => Seq::empty(),
        },
        None => Seq::empty(),
    }
}

/// One task per variant that has a url, in variant order.
pub open spec fn song_tasks(urls: AssetUrls, dir: Seq<char>) -> Seq<(Asset, Seq<char>, Seq<char>)> {
    urls.spec_kinds().map_values(|k: SongType| (Asset::Song(k), urls.spec_get(k)->0, song_file_path(dir, k)))
}

/// The directory a song's files are stored in under `root`.
pub open spec fn item_directory(root: Seq<char>, title: Seq<char>) -> Seq<char> {
    join_path(root, filelize_chars(lower_of(title)))
}

/// The extension an image is stored with: `png` for `.png`, `jpg` for `.jpg`
/// and `.jpeg`; any other url is an unsupported image type.
pub fn image_extension(url: &str) -> (r: Result<&'static str, Error>)
    ensures
        r matches Ok(ext) ==> image_extension_of(url@) == Some(ext@),
        r is Err ==> image_extension_of(url@) is None,
        r matches Err(e) ==> (e matches Error::UnsupportedImageType(u) && u@ == url@),
{
    if ends_with(url, ".png") {
        Ok("png")
    } else if ends_with(url, ".jpg") || ends_with(url, ".jpeg") {
        Ok("jpg")
    } else {
        Err(Error::UnsupportedImageType(String::from_str(url)))
    }
}

fn join(dir: &str, name: &str) -> (r: String)
    ensures
        r@ == join_path(dir@, name@),
{
    let mut r = String::from_str(dir);
    r.append("/");
    r.append(name);
    r
}

impl SongInfo {
    /// The directory this song's files go to under `root`.
    pub fn directory(&self, root: &str) -> (r: String)
        ensures
            r@ == item_directory(root@, self.title@),
    {
        let name = self.filelized_title();
        join(root, name.as_str())
    }
}

/// Where the audio of `kind` is stored in `dir`.
pub fn song_file_target(dir: &str, kind: SongType) -> (r: String)
    ensures
        r@ == song_file_path(dir@, kind),
{
    let mut name = String::from_str(kind.file_string());
    name.append(".flac");
    join(dir, name.as_str())
}

/// Plans the downloads of one song under `root`: its image, when present
/// and of a supported type, then the audio of each variant that has a url.
/// An image of an unsupported type is reported at once and does not keep
/// the audio files from being planned. A song with nothing to fetch gets no
/// task and an empty report.
pub fn plan_downloads(song: &SongInfo, root: &str) -> (r: ItemPlan)
    ensures
        r.directory@ == item_directory(root@, song.title@),
        tasks_view(r.tasks@) == image_tasks(song.image_url, r.directory@) + song_tasks(
            song.song_file_urls,
            r.directory@,
        ),
        r.report.title == song.title,
        r.report.failures@.len() == (if song.image_url matches Some(u) && image_extension_of(u@) is None { 1int } else { 0 }),
        r.report.failures@.len() == 1 ==> r.report.failures@[0].asset == Asset::Image
            && r.report.failures@[0].errors@.len() == 1,
        r.report.failures@.len() == 1 ==> (r.report.failures@[0].errors@[0] matches Error::UnsupportedImageType(u)
            && u@ == song.image_url->0@),
{
    let directory = song.directory(root);
    let mut tasks: Vec<DownloadTask> = Vec::new();
    let mut failures: Vec<AssetFailure> = Vec::new();
    if let Some(url) = &song.image_url {
        match image_extension(url.as_str()) {
            Ok(ext) => {
                let mut name = String::from_str("image.");
                name.append(ext);
                let path = join(directory.as_str(), name.as_str());
                tasks.push(DownloadTask { asset: Asset::Image, url: url.clone(), path });
            },
            Err(e) => {
                let mut errors: Vec<Error> = Vec::new();
                errors.push(e);
                failures.push(AssetFailure { asset: Asset::Image, errors });
            },
        }
    }
    let ghost head = tasks_view(tasks@);
    assert(head =~= image_tasks(song.image_url, directory@));
    let kinds = song.song_file_urls.kinds();
    let ghost urls = song.song_file_urls;
    let ghost kinds_seq = kinds@;
    let ghost all_song = song_tasks(urls, directory@);
    let mut i: usize = 0;
    while i < kinds.len()
        invariant
            kinds@ == urls.spec_kinds(),
            urls == song.song_file_urls,
            forall|k: SongType| kinds_seq.contains(k) <==> #[trigger] urls.spec_get(k) is Some,
            kinds_seq == kinds@,
            all_song == song_tasks(urls, directory@),
            i <= kinds@.len(),
            tasks_view(tasks@) == head + all_song.subrange(0, i as int),
        decreases kinds@.len() - i,
    {
        let kind = kinds[i];
        proof {
            assert(kinds_seq[i as int] == kind);
            assert(kinds_seq.contains(kind));
        }
        match song.song_file_urls.get(&kind) {
            Some(url) => {
                let path = song_file_target(directory.as_str(), kind);
                let ghost before = tasks@;
                tasks.push(DownloadTask { asset: Asset::Song(kind), url: url.clone(), path });
                assert(tasks_view(tasks@) =~= tasks_view(before).push(all_song[i as int]));
                assert(all_song.subrange(0, i + 1) =~= all_song.subrange(0, i as int).push(all_song[i as int]));
            },
            None => {
                assert(false);
            },
        }
        i = i + 1;
    }
    assert(all_song.subrange(0, kinds@.len() as int) =~= all_song);
    ItemPlan { directory, tasks, report: ItemReport { title: song.title.clone(), failures } }
}

/// The failures that the outcomes of the planned tasks add, in task order.
pub open spec fn failed_assets(tasks: Seq<DownloadTask>, outcomes: Seq<Result<(), Vec<Error>>>) -> Seq<(Asset, Seq<Error>)>
    decreases outcomes.len(),
{
    if outcomes.len() == 0 {
        Seq::empty()
    } else {
        let n = outcomes.len() - 1;
        let p = failed_assets(tasks, outcomes.drop_last());
        match outcomes[n] {
            Ok(_) => p,
            Err(errs) => p.push((tasks[n].asset, errs@)),
        }
    }
}

pub open spec fn failures_view(fs: Seq<AssetFailure>) -> Seq<(Asset, Seq<Error>)> {
    fs.map_values(|f: AssetFailure| (f.asset, f.errors@))
}

impl ItemPlan {
    /// The song's report once every task has run: the failures known when
    /// planning, then one entry per failed task, in task order. A failed
    /// task does not affect the others.
    pub fn finish(self, outcomes: Vec<Result<(), Vec<Error>>>) -> (r: ItemReport)
        requires
            outcomes@.len() == self.tasks@.len(),
        ensures
            r.title == self.report.title,
            failures_view(r.failures@) == failures_view(self.report.failures@) + failed_assets(
                self.tasks@,
                outcomes@,
            ),
    {
        let ItemPlan { directory: _, tasks, report } = self;
        let ItemReport { title, failures } = report;
        let mut failures = failures;
        let ghost start = failures_view(failures@);
        let mut outcomes = outcomes;
        let ghost all = outcomes@;
        let n = outcomes.len();
        // Walk the outcomes back to front, then restore task order.
        let mut reversed: Vec<AssetFailure> = Vec::new();
        let mut i: usize = n;
        assert(all.subrange(0, n as int) =~= all);
        assert(failures_view(reversed@).reverse() =~= Seq::<(Asset, Seq<Error>)>::empty());
        assert(failed_assets(tasks@, all) + Seq::<(Asset, Seq<Error>)>::empty() =~= failed_assets(tasks@, all));
        while i > 0
            invariant
                i <= n,
                n == all.len(),
                n == tasks@.len(),
                outcomes@ == all.subrange(0, i as int),
                failed_assets(tasks@, all.subrange(0, i as int)) + failures_view(reversed@).reverse()
                    == failed_assets(tasks@, all),
            decreases i,
        {
            let ghost before = reversed@;
            let o = outcomes.pop().unwrap();
            assert(all.subrange(0, i as int).drop_last() =~= all.subrange(0, i - 1));
            match o {
                Ok(()) => {
                    assert(failed_assets(tasks@, all.subrange(0, i as int)) == failed_assets(
                        tasks@,
                        all.subrange(0, i - 1),
                    ));
                },
                Err(errors) => {
                    reversed.push(AssetFailure { asset: tasks[i - 1].asset, errors });
                    assert(failures_view(reversed@) =~= failures_view(before).push(
                        (tasks@[i - 1].asset, all[i - 1]->Err_0@),
                    ));
                    assert(failures_view(reversed@).reverse() =~= seq![(tasks@[i - 1].asset, all[i - 1]->Err_0@)]
                        + failures_view(before).reverse());
                    assert(failed_assets(tasks@, all.subrange(0, i as int)) =~= failed_assets(
                        tasks@,
                        all.subrange(0, i - 1),
                    ).push((tasks@[i - 1].asset, all[i - 1]->Err_0@)));
                    assert(failed_assets(tasks@, all.subrange(0, i - 1)) + failures_view(reversed@).reverse()
                        =~= failed_assets(tasks@, all.subrange(0, i as int)) + failures_view(before).reverse());
                },
            }
            i = i - 1;
        }
        assert(all.subrange(0, 0) =~= Seq::<Result<(), Vec<Error>>>::empty());
        let ghost tail = failed_assets(tasks@, all);
        assert(failed_assets(tasks@, all.subrange(0, 0)) =~= Seq::<(Asset, Seq<Error>)>::empty());
        assert(failures_view(reversed@).reverse() =~= tail);
        assert(failures_view(failures@) + failures_view(reversed@).reverse() =~= start + tail);
        while reversed.len() > 0
            invariant
                failures_view(failures@) + failures_view(reversed@).reverse() == start + tail,
            decreases reversed@.len(),
        {
            let ghost fb = failures@;
            let ghost rb = reversed@;
            let f = reversed.pop().unwrap();
            failures.push(f);
            assert(failures_view(failures@) =~= failures_view(fb).push(failures_view(rb).last()));
            assert(failures_view(rb).reverse() =~= seq![failures_view(rb).last()] + failures_view(reversed@).reverse());
        }
        assert(failures_view(reversed@).reverse() =~= Seq::<(Asset, Seq<Error>)>::empty());
        assert(failures_view(failures@) =~= start + tail);
        ItemReport { title, failures }
    }
}

impl ItemReport {
    /// Every file of the song arrived.
    pub fn is_success(&self) -> (r: bool)
        ensures
            r <==> self.failures@.len() == 0,
    {
        self.failures.len() == 0
    }
}

} // verus!
