use komga_herald::auth::basic_auth_header;
use komga_herald::dates::CivilDate;
use komga_herald::dates::civil_date_from_ymd;
use komga_herald::dates::format_date;
use komga_herald::dates::window_start;
use komga_herald::newsletter::index_path;
use komga_herald::newsletter::newsletter_announcement;
use komga_herald::newsletter::plan_from_dates;
use komga_herald::newsletter::plan_newsletter_at;
use komga_herald::newsletter::template_path;
use komga_herald::newsletter::thumb_dir;
use komga_herald::server::index_request_path;
use komga_herald::server::thumbnail_request_path;
use komga_herald::settings::KomgaSettings;
use komga_herald::settings::effective_public_url;

#[test]
fn date_formatting_pads() {
    assert_eq!(format_date(&CivilDate { year: 2024, month: 1, day: 5 }), "2024-01-05");
    assert_eq!(format_date(&CivilDate { year: 999, month: 12, day: 31 }), "0999-12-31");
    assert_eq!(format_date(&CivilDate { year: 3, month: 7, day: 9 }), "0003-07-09");
}

#[test]
fn window_start_exact_and_checked() {
    // 2024-01-10T00:00:00Z back 8 days is 2024-01-02T00:00:00Z.
    assert_eq!(window_start(1704844800, 8), Some(1704153600));
    assert_eq!(window_start(i64::MIN + 10, 1), None);
}

#[test]
fn artifact_paths_exact() {
    assert_eq!(
        index_path("/srv/content", "2024-01-10"),
        "/srv/content/komga/recently_added/2024-01-10/index.html"
    );
    assert_eq!(
        thumb_dir("/srv/content", "2024-01-10"),
        "/srv/content/komga/recently_added/2024-01-10/thumbnails"
    );
    assert_eq!(template_path("/srv/templates"), "/srv/templates/komga/recently_added.html.hbs");
}

#[test]
fn thumbnail_job_paths_exact() {
    let series = vec![komga_herald::catalog::Series {
        id: "0B79".to_string(),
        name: "One".to_string(),
        created_epoch: 0,
    }];
    let jobs = komga_herald::newsletter::series_thumbnail_jobs(
        &series,
        "/srv/content",
        "2024-01-10",
        "http://komga",
    );
    assert_eq!(jobs.len(), 1);
    assert_eq!(
        jobs[0].path,
        "/srv/content/komga/recently_added/2024-01-10/thumbnails/series-0B79.jpg"
    );
    assert_eq!(jobs[0].url, "http://komga/api/v1/series/0B79/thumbnail");
}

#[test]
fn announcement_needs_a_series() {
    let books = vec![];
    assert!(newsletter_announcement("http://news", "2024-01-10", &vec![], &books).is_none());
}

#[test]
fn announcement_fields_exact() {
    let series = vec![komga_herald::catalog::Series {
        id: "77".to_string(),
        name: "One".to_string(),
        created_epoch: 0,
    }];
    let books = vec![];
    let a = newsletter_announcement("http://news", "2024-01-10", &series, &books).unwrap();
    assert_eq!(a.title, "Comics Weekly Update");
    assert_eq!(a.description, "Recently Added Comic series and issues");
    assert_eq!(a.page_url, "http://news/recently_added/2024-01-10");
    assert_eq!(a.image_url, "http://news/recently_added/2024-01-10/thumbnails/series-77.jpg");
    assert_eq!(a.date, "2024-01-10");
    assert_eq!(a.series_count, "1");
    assert_eq!(a.books_count, "0");
}

#[test]
fn civil_date_shaping_is_exact() {
    let d = civil_date_from_ymd(2024, 1, 10).unwrap();
    assert_eq!((d.year, d.month, d.day), (2024, 1, 10));
    assert!(civil_date_from_ymd(-1, 1, 10).is_none());
    assert!(civil_date_from_ymd(10000, 1, 10).is_none());
    assert!(civil_date_from_ymd(2024, 0, 10).is_none());
    assert!(civil_date_from_ymd(2024, 13, 10).is_none());
    assert!(civil_date_from_ymd(2024, 1, 0).is_none());
    assert!(civil_date_from_ymd(2024, 1, 32).is_none());
}

#[test]
fn plan_from_dates_is_total_and_exact() {
    let now: i64 = 1704844800;
    let today = CivilDate { year: 2024, month: 1, day: 10 };
    let past = CivilDate { year: 2024, month: 1, day: 2 };
    let plan = plan_from_dates(now, &today, &past, "/srv/content");
    assert_eq!(plan.now, now);
    assert_eq!(plan.window_start, now - 8 * 86400);
    assert_eq!(plan.date, "2024-01-10");
    assert_eq!(plan.released_after, "2024-01-02");
    assert_eq!(plan.index_path, "/srv/content/komga/recently_added/2024-01-10/index.html");
    assert_eq!(plan.thumbnail_dir, "/srv/content/komga/recently_added/2024-01-10/thumbnails");
}

#[test]
fn plan_uses_the_calendar_day_and_the_exact_window() {
    let now: i64 = 1704844800;
    let plan = plan_newsletter_at(now, "/srv/content").unwrap();
    assert_eq!(plan.now, now);
    assert_eq!(plan.window_start, now - 8 * 86400);
    assert_eq!(plan.date.len(), 10);
    assert_eq!(plan.released_after.len(), 10);
    assert_eq!(plan.index_path, index_path("/srv/content", &plan.date));
    assert_eq!(plan.thumbnail_dir, thumb_dir("/srv/content", &plan.date));
}

#[test]
fn rerun_on_the_same_day_names_the_same_artifact() {
    let now: i64 = 1704844800;
    let first = plan_newsletter_at(now, "/srv/content").unwrap();
    // A second trigger later the same day: the window moves, the
    // artifact does not.
    let second = plan_newsletter_at(now + 3600, "/srv/content").unwrap();
    assert_eq!(first.date, second.date);
    assert_eq!(first.index_path, second.index_path);
    assert_eq!(first.thumbnail_dir, second.thumbnail_dir);
}

#[test]
fn traversal_requests_are_refused() {
    let root = "/srv/content";
    assert!(thumbnail_request_path(root, "..", "a.jpg").is_none());
    assert!(thumbnail_request_path(root, "2024-01-10", "../secret").is_none());
    assert!(thumbnail_request_path(root, "2024-01-10", "..").is_none());
    assert!(thumbnail_request_path(root, "../../etc", "passwd").is_none());
    assert!(thumbnail_request_path(root, "2024-01-10", "a\\b").is_none());
    assert!(thumbnail_request_path(root, "2024-01-10", "").is_none());
    assert!(index_request_path(root, "..").is_none());
    assert!(index_request_path(root, "2024/01").is_none());
}

#[test]
fn ordinary_requests_resolve_under_the_root() {
    let root = "/srv/content";
    assert_eq!(
        index_request_path(root, "2024-01-10").unwrap(),
        "/srv/content/komga/recently_added/2024-01-10/index.html"
    );
    let p = thumbnail_request_path(root, "2024-01-10", "series-7.jpg").unwrap();
    assert_eq!(p, "/srv/content/komga/recently_added/2024-01-10/thumbnails/series-7.jpg");
    assert!(p.starts_with(root));
}

#[test]
fn basic_auth_header_encodes_credentials() {
    assert_eq!(basic_auth_header("user", "pass"), "Basic dXNlcjpwYXNz");
    assert_eq!(basic_auth_header("", ""), "Basic Og==");
}

#[test]
fn public_url_falls_back_to_server_url() {
    let with = KomgaSettings {
        url: "http://inside".to_string(),
        username: "u".to_string(),
        password: "p".to_string(),
        public_url: Some("http://outside".to_string()),
        libraries: None,
    };
    assert_eq!(effective_public_url(&with), "http://outside");
    let without = KomgaSettings { public_url: None, ..with };
    assert_eq!(effective_public_url(&without), "http://inside");
}
