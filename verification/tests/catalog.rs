use komga_herald::catalog::CatalogError;
use komga_herald::catalog::Library;
use komga_herald::catalog::RawBook;
use komga_herald::catalog::RawSeries;
use komga_herald::catalog::recent_books;
use komga_herald::catalog::recent_series;
use komga_herald::catalog::resolve_library_ids;
use komga_herald::newsletter::book_thumbnail_jobs;
use komga_herald::newsletter::newsletter_announcement;
use komga_herald::newsletter::series_thumbnail_jobs;

fn lib(id: &str, name: &str) -> Library {
    Library { id: id.to_string(), name: name.to_string() }
}

fn raw_series(id: &str, name: &str, created: &str) -> RawSeries {
    RawSeries { id: id.to_string(), name: name.to_string(), created: created.to_string() }
}

fn raw_book(id: &str, series_id: &str, created: &str, modified: &str) -> RawBook {
    RawBook {
        id: id.to_string(),
        series_id: series_id.to_string(),
        created: created.to_string(),
        file_last_modified: modified.to_string(),
    }
}

// 2024-01-01T00:00:00Z
const WS: i64 = 1704067200;

#[test]
fn resolve_none_means_no_restriction() {
    let libraries = vec![lib("1", "Comics"), lib("2", "Manga")];
    assert!(resolve_library_ids(&libraries, &None).is_none());
}

#[test]
fn resolve_matches_by_exact_name_in_library_order() {
    let libraries = vec![lib("1", "Comics"), lib("2", "Manga"), lib("3", "Books")];
    let names = Some(vec!["Manga".to_string(), "Comics".to_string()]);
    let ids = resolve_library_ids(&libraries, &names).unwrap();
    assert_eq!(ids, vec!["1".to_string(), "2".to_string()]);
}

#[test]
fn resolve_drops_unmatched_names_silently() {
    let libraries = vec![lib("1", "Comics"), lib("2", "Manga")];
    let names = Some(vec!["Nonexistent".to_string(), "Manga".to_string()]);
    let ids = resolve_library_ids(&libraries, &names).unwrap();
    assert_eq!(ids, vec!["2".to_string()]);
}

#[test]
fn resolve_empty_name_set_gives_empty_ids() {
    let libraries = vec![lib("1", "Comics")];
    let ids = resolve_library_ids(&libraries, &Some(vec![])).unwrap();
    assert!(ids.is_empty());
}

#[test]
fn series_on_window_boundary_is_excluded() {
    let raws = vec![
        raw_series("a", "At boundary", "2024-01-01T00:00:00Z"),
        raw_series("b", "Just inside", "2024-01-01T00:00:01Z"),
    ];
    let kept = recent_series(&raws, WS).unwrap();
    assert_eq!(kept.len(), 1);
    assert_eq!(kept[0].id, "b");
    assert_eq!(kept[0].created_epoch, WS + 1);
}

#[test]
fn series_timestamp_reads_with_offset() {
    // 01:00:00 at +01:00 is midnight UTC: exactly the boundary.
    let raws = vec![
        raw_series("a", "Boundary via offset", "2024-01-01T01:00:00+01:00"),
        raw_series("b", "Inside via offset", "2024-01-01T01:00:10+01:00"),
    ];
    let kept = recent_series(&raws, WS).unwrap();
    assert_eq!(kept.len(), 1);
    assert_eq!(kept[0].id, "b");
    assert_eq!(kept[0].created_epoch, WS + 10);
}

#[test]
fn series_bad_timestamp_is_fatal() {
    let raws = vec![raw_series("a", "Fine", "2024-01-02T00:00:00Z"), raw_series("b", "Bad", "yesterday")];
    assert!(matches!(recent_series(&raws, WS), Err(CatalogError::BadTimestamp)));
}

#[test]
fn books_sorted_newest_first_and_stale_modified_cut() {
    let raws = vec![
        raw_book("1", "s", "2024-01-03T00:00:00Z", "2024-01-03T00:00:00Z"),
        raw_book("2", "s", "2024-01-05T00:00:00Z", "2024-01-05T00:00:00Z"),
        // modified exactly on the boundary: excluded
        raw_book("3", "s", "2024-01-04T00:00:00Z", "2024-01-01T00:00:00Z"),
        raw_book("4", "s", "2024-01-04T00:00:00Z", "2024-01-04T00:00:00Z"),
    ];
    let kept = recent_books(&raws, WS).unwrap();
    let ids: Vec<&str> = kept.iter().map(|b| b.id.as_str()).collect();
    assert_eq!(ids, vec!["2", "4", "1"]);
    for w in kept.windows(2) {
        assert!(w[0].created_epoch >= w[1].created_epoch);
    }
    for b in &kept {
        assert!(b.modified_epoch > WS);
    }
}

#[test]
fn books_bad_timestamp_is_fatal() {
    let raws = vec![raw_book("1", "s", "2024-01-03T00:00:00Z", "not a date")];
    assert!(matches!(recent_books(&raws, WS), Err(CatalogError::BadTimestamp)));
}

#[test]
fn end_to_end_window_scenario() {
    // "Now" is 2024-01-10T00:00:00Z; the 8-day window opens at
    // 2024-01-02T00:00:00Z.
    let ws: i64 = 1704844800 - 8 * 86400;
    let series_raws = vec![
        raw_series("s1", "First", "2024-01-09T10:00:00Z"),
        raw_series("s2", "Second", "2024-01-09T11:00:00Z"),
    ];
    let book_raws = vec![
        raw_book("b1", "s1", "2024-01-10T01:00:00Z", "2024-01-10T01:00:00Z"),
        raw_book("b2", "s1", "2024-01-10T02:00:00Z", "2024-01-01T00:00:00Z"),
        raw_book("b3", "s2", "2024-01-10T03:00:00Z", "2024-01-10T03:00:00Z"),
    ];
    let series = recent_series(&series_raws, ws).unwrap();
    let books = recent_books(&book_raws, ws).unwrap();
    assert_eq!(series.len(), 2);
    assert_eq!(books.len(), 2);

    let s_jobs = series_thumbnail_jobs(&series, "/srv/content", "2024-01-10", "http://komga");
    let b_jobs = book_thumbnail_jobs(&books, "/srv/content", "2024-01-10", "http://komga");
    assert_eq!(s_jobs.len() + b_jobs.len(), 4);

    let a = newsletter_announcement("http://news", "2024-01-10", &series, &books).unwrap();
    assert_eq!(a.series_count, "2");
    assert_eq!(a.books_count, "2");
}
