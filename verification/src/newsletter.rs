//! The newsletter job: where the dated artifact lives on disk, which
//! thumbnails to fetch and where to put them, and the announcement
//! message for the chat platform.
//!
//! A run is planned here from plain values; the surrounding process
//! performs the HTTP fetches and file writes the plan names.

use vstd::prelude::*;
use vstd::string::StringExecFns;
use crate::catalog::Book;
use crate::catalog::Series;
use crate::dates::CivilDate;
use crate::dates::civil_date_of_epoch;
use crate::dates::date_str;
use crate::dates::format_date;
use crate::dates::now_epoch;
use crate::dates::window_start;
use crate::dates::window_start_of;
use crate::text::dec_str;

verus! {

/// Days of the trailing window: content newer than this many days back
/// counts as recently added.
pub const WINDOW_DAYS: u32 = 8;

// ---------------------------------------------------------------------
// Artifact paths and remote URLs
// ---------------------------------------------------------------------

/// The dated artifact directory under the content root.
pub open spec fn newsletter_dir_spec(content_dir: Seq<char>, date: Seq<char>) -> Seq<char> {
    content_dir + "/komga/recently_added/"@ + date
}

/// The rendered index page of the dated artifact.
pub open spec fn index_path_spec(content_dir: Seq<char>, date: Seq<char>) -> Seq<char> {
    newsletter_dir_spec(content_dir, date) + "/index.html"@
}

/// The thumbnail directory of the dated artifact.
pub open spec fn thumb_dir_spec(content_dir: Seq<char>, date: Seq<char>) -> Seq<char> {
    newsletter_dir_spec(content_dir, date) + "/thumbnails"@
}

/// The file name of a series thumbnail, keyed by series id.
pub open spec fn series_thumb_name_spec(id: Seq<char>) -> Seq<char> {
    "series-"@ + id + ".jpg"@
}

/// The file name of a book thumbnail, keyed by book id.
pub open spec fn book_thumb_name_spec(id: Seq<char>) -> Seq<char> {
    "book-"@ + id + ".jpg"@
}

/// Where the library server offers a series thumbnail.
pub open spec fn series_thumb_url_spec(base: Seq<char>, id: Seq<char>) -> Seq<char> {
    base + "/api/v1/series/"@ + id + "/thumbnail"@
}

/// Where the library server offers a book thumbnail.
pub open spec fn book_thumb_url_spec(base: Seq<char>, id: Seq<char>) -> Seq<char> {
    base + "/api/v1/books/"@ + id + "/thumbnail"@
}

/// The public page of the dated newsletter.
pub open spec fn page_url_spec(public_base: Seq<char>, date: Seq<char>) -> Seq<char> {
    public_base + "/recently_added/"@ + date
}

/// The newsletter template file under the template root.
pub open spec fn template_path_spec(templates_dir: Seq<char>) -> Seq<char> {
    templates_dir + "/komga/recently_added.html.hbs"@
}

/// Builds the rendered index page's path.
pub fn index_path(content_dir: &str, date: &str) -> (r: String)
    ensures
        r@ == index_path_spec(content_dir@, date@),
{
    let r = String::from_str(content_dir).concat("/komga/recently_added/").concat(date).concat(
        "/index.html",
    );
    proof {
        assert(r@ =~= index_path_spec(content_dir@, date@));
    }
    r
}

/// Builds the thumbnail directory's path.
pub fn thumb_dir(content_dir: &str, date: &str) -> (r: String)
    ensures
        r@ == thumb_dir_spec(content_dir@, date@),
{
    let r = String::from_str(content_dir).concat("/komga/recently_added/").concat(date).concat(
        "/thumbnails",
    );
    proof {
        assert(r@ =~= thumb_dir_spec(content_dir@, date@));
    }
    r
}

/// Builds the newsletter template file's path.
pub fn template_path(templates_dir: &str) -> (r: String)
    ensures
        r@ == template_path_spec(templates_dir@),
{
    let r = String::from_str(templates_dir).concat("/komga/recently_added.html.hbs");
    proof {
        assert(r@ =~= template_path_spec(templates_dir@));
    }
    r
}

// ---------------------------------------------------------------------
// Thumbnail jobs
// ---------------------------------------------------------------------

/// One thumbnail to mirror: fetch `url` from the library server and
/// write the bytes to `path`, overwriting any file already there.
pub struct ThumbnailJob {
    pub path: String,
    pub url: String,
}

/// The jobs that mirror one series thumbnail each, in series order.
pub fn series_thumbnail_jobs(
    series: &Vec<Series>,
    content_dir: &str,
    date: &str,
    server_url: &str,
) -> (r: Vec<ThumbnailJob>)
    ensures
        r@.len() == series@.len(),
        forall|i: int|
            0 <= i < series@.len() ==> (#[trigger] r@[i]).path@ == thumb_dir_spec(
                content_dir@,
                date@,
            ) + seq!['/'] + series_thumb_name_spec(series@[i].id@) && r@[i].url@
                == series_thumb_url_spec(server_url@, series@[i].id@),
{
    let mut out: Vec<ThumbnailJob> = Vec::new();
    let mut i: usize = 0;
    while i < series.len()
        invariant
            i <= series.len(),
            out@.len() == i,
            forall|j: int|
                0 <= j < i ==> (#[trigger] out@[j]).path@ == thumb_dir_spec(content_dir@, date@)
                    + seq!['/'] + series_thumb_name_spec(series@[j].id@) && out@[j].url@
                    == series_thumb_url_spec(server_url@, series@[j].id@),
        decreases series.len() - i,
    {
        let path = thumb_dir(content_dir, date).concat("/").concat("series-").concat(
            series[i].id.as_str(),
        ).concat(".jpg");
        let url = String::from_str(server_url).concat("/api/v1/series/").concat(
            series[i].id.as_str(),
        ).concat("/thumbnail");
        proof {
            reveal_strlit("/");
            assert("/"@ =~= seq!['/']);
            assert(path@ =~= thumb_dir_spec(content_dir@, date@) + seq!['/']
                + series_thumb_name_spec(series@[i as int].id@));
            assert(url@ =~= series_thumb_url_spec(server_url@, series@[i as int].id@));
        }
        out.push(ThumbnailJob { path, url });
        i = i + 1;
    }
    out
}

/// The jobs that mirror one book thumbnail each, in book order.
pub fn book_thumbnail_jobs(books: &Vec<Book>, content_dir: &str, date: &str, server_url: &str) -> (r:
    Vec<ThumbnailJob>)
    ensures
        r@.len() == books@.len(),
        forall|i: int|
            0 <= i < books@.len() ==> (#[trigger] r@[i]).path@ == thumb_dir_spec(content_dir@, date@)
                + seq!['/'] + book_thumb_name_spec(books@[i].id@) && r@[i].url@
                == book_thumb_url_spec(server_url@, books@[i].id@),
{
    let mut out: Vec<ThumbnailJob> = Vec::new();
    let mut i: usize = 0;
    while i < books.len()
        invariant
            i <= books.len(),
            out@.len() == i,
            forall|j: int|
                0 <= j < i ==> (#[trigger] out@[j]).path@ == thumb_dir_spec(content_dir@, date@)
                    + seq!['/'] + book_thumb_name_spec(books@[j].id@) && out@[j].url@
                    == book_thumb_url_spec(server_url@, books@[j].id@),
        decreases books.len() - i,
    {
        let path = thumb_dir(content_dir, date).concat("/").concat("book-").concat(
            books[i].id.as_str(),
        ).concat(".jpg");
        let url = String::from_str(server_url).concat("/api/v1/books/").concat(
            books[i].id.as_str(),
        ).concat("/thumbnail");
        proof {
            reveal_strlit("/");
            assert("/"@ =~= seq!['/']);
            assert(path@ =~= thumb_dir_spec(content_dir@, date@) + seq!['/']
                + book_thumb_name_spec(books@[i as int].id@));
            assert(url@ =~= book_thumb_url_spec(server_url@, books@[i as int].id@));
        }
        out.push(ThumbnailJob { path, url });
        i = i + 1;
    }
    out
}

// ---------------------------------------------------------------------
// The announcement
// ---------------------------------------------------------------------

/// The chat message that announces a rendered newsletter: the page link,
/// the cover image (the first new series' thumbnail) and the counts.
pub struct Announcement {
    pub title: String,
    pub description: String,
    pub page_url: String,
    pub image_url: String,
    pub date: String,
    pub series_count: String,
    pub books_count: String,
}

/// Builds the announcement.  `None` exactly when no new series exists:
/// the cover image is the first series' thumbnail, so an empty series
/// list aborts the run rather than fabricating a link.
pub fn newsletter_announcement(
    public_url: &str,
    date: &str,
    series: &Vec<Series>,
    books: &Vec<Book>,
) -> (r: Option<Announcement>)
    ensures
        r is Some <==> series@.len() > 0,
        r is Some ==> {
            let a = r->Some_0;
            &&& a.title@ == "Comics Weekly Update"@
            &&& a.description@ == "Recently Added Comic series and issues"@
            &&& a.page_url@ == page_url_spec(public_url@, date@)
            &&& a.image_url@ == page_url_spec(public_url@, date@) + "/thumbnails/"@
                + series_thumb_name_spec(series@[0].id@)
            &&& a.date@ == date@
            &&& a.series_count@ == dec_str(series@.len())
            &&& a.books_count@ == dec_str(books@.len())
        },
{
    if series.len() == 0 {
        return None;
    }
    let page_url = String::from_str(public_url).concat("/recently_added/").concat(date);
    let image_url = page_url.clone().concat("/thumbnails/").concat("series-").concat(
        series[0].id.as_str(),
    ).concat(".jpg");
    proof {
        assert(page_url@ =~= page_url_spec(public_url@, date@));
        assert(image_url@ =~= page_url_spec(public_url@, date@) + "/thumbnails/"@
            + series_thumb_name_spec(series@[0].id@));
    }
    let series_count = crate::text::u64_to_string(series.len() as u64);
    let books_count = crate::text::u64_to_string(books.len() as u64);
    Some(
        Announcement {
            title: String::from_str("Comics Weekly Update"),
            description: String::from_str("Recently Added Comic series and issues"),
            page_url,
            image_url,
            date: String::from_str(date),
            series_count,
            books_count,
        },
    )
}

// ---------------------------------------------------------------------
// Planning a run
// ---------------------------------------------------------------------

/// The frame of one newsletter run: the dates and the artifact paths
/// every later step works inside.
pub struct NewsletterPlan {
    /// The instant that triggered the run, epoch seconds.
    pub now: i64,
    /// The trigger's local calendar day, `YYYY-MM-DD`: the artifact's
    /// key.
    pub date: String,
    /// Start of the trailing window, `now` less `WINDOW_DAYS` days, in
    /// epoch seconds; the boundary itself is outside the window.
    pub window_start: i64,
    /// The window start's calendar day, `YYYY-MM-DD`, handed to the
    /// server as its (coarser) release cutoff.
    pub released_after: String,
    /// Where the thumbnails of this run land.
    pub thumbnail_dir: String,
    /// Where the rendered index of this run lands.
    pub index_path: String,
}

/// The window opens `WINDOW_DAYS` days before the carried instant, the
/// paths follow from the content root, and the date strings name
/// calendar days.
pub open spec fn plan_wf(p: NewsletterPlan, content_dir: Seq<char>) -> bool {
    &&& p.window_start == window_start_of(p.now as int, WINDOW_DAYS as int)
    &&& exists|cd: CivilDate|
        cd.wf() && p.date@ == date_str(cd.year as nat, cd.month as nat, cd.day as nat)
    &&& exists|cd: CivilDate|
        cd.wf() && p.released_after@ == date_str(cd.year as nat, cd.month as nat, cd.day as nat)
    &&& p.thumbnail_dir@ == thumb_dir_spec(content_dir, p.date@)
    &&& p.index_path@ == index_path_spec(content_dir, p.date@)
}

/// Lays the run out from its instant and the two calendar days: the
/// artifact is keyed by `today`, the release cutoff by `past` (the
/// window start's day), and the window opens `WINDOW_DAYS` days before
/// `now`.  Total and exact — only reading the calendar itself is left
/// to the trusted calls in the caller.
pub fn plan_from_dates(now: i64, today: &CivilDate, past: &CivilDate, content_dir: &str) -> (p:
    NewsletterPlan)
    requires
        today.wf(),
        past.wf(),
        i64::MIN <= window_start_of(now as int, WINDOW_DAYS as int),
    ensures
        p.now == now,
        p.window_start == window_start_of(now as int, WINDOW_DAYS as int),
        p.date@ == date_str(today.year as nat, today.month as nat, today.day as nat),
        p.released_after@ == date_str(past.year as nat, past.month as nat, past.day as nat),
        p.thumbnail_dir@ == thumb_dir_spec(content_dir@, p.date@),
        p.index_path@ == index_path_spec(content_dir@, p.date@),
        plan_wf(p, content_dir@),
{
    let ws: i64 = now - (WINDOW_DAYS as i64) * 86400;
    let date = format_date(today);
    let released_after = format_date(past);
    let thumbnail_dir = thumb_dir(content_dir, date.as_str());
    let index = index_path(content_dir, date.as_str());
    NewsletterPlan {
        now,
        date,
        window_start: ws,
        released_after,
        thumbnail_dir,
        index_path: index,
    }
}

/// Plans the run that an instant `now` triggers: an 8-day trailing
/// window and the artifact paths keyed by `now`'s local calendar day.
/// `None` only when the window start would leave the range of epoch
/// seconds, or the machine's calendar cannot name one of the two days
/// with a four-digit year; the window start is forced out of range
/// only below `i64::MIN`, never above.
pub fn plan_newsletter_at(now: i64, content_dir: &str) -> (r: Option<NewsletterPlan>)
    ensures
        window_start_of(now as int, WINDOW_DAYS as int) < i64::MIN ==> r is None,
        r is Some ==> r->Some_0.now == now,
        r is Some ==> r->Some_0.window_start == window_start_of(now as int, WINDOW_DAYS as int),
        r is Some ==> plan_wf(r->Some_0, content_dir@),
{
    let ws = match window_start(now, WINDOW_DAYS) {
        Some(ws) => ws,
        None => {
            return None;
        },
    };
    let today = match civil_date_of_epoch(now) {
        Some(cd) => cd,
        None => {
            return None;
        },
    };
    let past = match civil_date_of_epoch(ws) {
        Some(cd) => cd,
        None => {
            return None;
        },
    };
    Some(plan_from_dates(now, &today, &past, content_dir))
}

/// Plans the run the current clock triggers.  Whatever instant the
/// clock returned, a produced plan carries it, opens the window exactly
/// `WINDOW_DAYS` days before it, and keys the artifact by one calendar
/// day (`plan_wf`).
pub fn plan_newsletter(content_dir: &str) -> (r: Option<NewsletterPlan>)
    ensures
        r is Some ==> plan_wf(r->Some_0, content_dir@),
{
    plan_newsletter_at(now_epoch(), content_dir)
}

/// Two runs triggered on the same calendar day write the same artifact:
/// the date key is a function of the day alone (`plan_from_dates` pins
/// `date` to `date_str` of `today`), and the paths are functions of the
/// content root and that key, so a rerun overwrites the day's files
/// rather than opening a second directory.
pub proof fn lemma_same_day_overwrites(content_dir: Seq<char>, a: CivilDate, b: CivilDate)
    requires
        a.year == b.year,
        a.month == b.month,
        a.day == b.day,
    ensures
        date_str(a.year as nat, a.month as nat, a.day as nat) == date_str(
            b.year as nat,
            b.month as nat,
            b.day as nat,
        ),
        index_path_spec(content_dir, date_str(a.year as nat, a.month as nat, a.day as nat))
            == index_path_spec(content_dir, date_str(b.year as nat, b.month as nat, b.day as nat)),
        thumb_dir_spec(content_dir, date_str(a.year as nat, a.month as nat, a.day as nat))
            == thumb_dir_spec(content_dir, date_str(b.year as nat, b.month as nat, b.day as nat)),
{
}

} // verus!
