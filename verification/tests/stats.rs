use komga_herald::stats::ChannelRec;
use komga_herald::stats::books_stat_prefix;
use komga_herald::stats::find_channel_id;
use komga_herald::stats::first_guild;
use komga_herald::stats::first_measurement;
use komga_herald::stats::books_metric_url;
use komga_herald::stats::plan_stat_channels;
use komga_herald::stats::series_metric_url;
use komga_herald::stats::series_stat_prefix;
use komga_herald::text::u64_to_string;

fn ch(id: u64, name: &str) -> ChannelRec {
    ChannelRec { id, name: name.to_string() }
}

#[test]
fn decimal_rendering_exact() {
    assert_eq!(u64_to_string(0), "0");
    assert_eq!(u64_to_string(7), "7");
    assert_eq!(u64_to_string(57), "57");
    assert_eq!(u64_to_string(1234567890), "1234567890");
    assert_eq!(u64_to_string(u64::MAX), "18446744073709551615");
}

#[test]
fn stat_prefixes_exact() {
    assert_eq!(series_stat_prefix(), "\u{1F4DA}Series: ");
    assert_eq!(books_stat_prefix(), "\u{1F4D6}Issues: ");
}

#[test]
fn metric_urls_exact() {
    assert_eq!(series_metric_url("http://komga"), "http://komga/actuator/metrics/komga.series");
    assert_eq!(books_metric_url("http://komga"), "http://komga/actuator/metrics/komga.books");
}

#[test]
fn only_first_measurement_counts() {
    assert_eq!(first_measurement(&vec![]), None);
    assert_eq!(first_measurement(&vec![42]), Some(42));
    assert_eq!(first_measurement(&vec![42, 99]), Some(42));
}

#[test]
fn plan_deletes_only_prefixes_of_present_metrics() {
    let channels = vec![
        ch(1, "\u{1F4DA}Series: 42"),
        ch(2, "general"),
        ch(3, "\u{1F4D6}Issues: 7"),
    ];
    let plan = plan_stat_channels(&channels, Some(57), None);
    assert_eq!(plan.delete_ids, vec![1]);
    assert_eq!(plan.create_names, vec!["\u{1F4DA}Series: 57".to_string()]);

    let plan2 = plan_stat_channels(&channels, Some(57), Some(9));
    assert_eq!(plan2.delete_ids, vec![1, 3]);
    assert_eq!(
        plan2.create_names,
        vec!["\u{1F4DA}Series: 57".to_string(), "\u{1F4D6}Issues: 9".to_string()]
    );
}

#[test]
fn absent_metrics_touch_nothing() {
    let channels = vec![ch(1, "\u{1F4DA}Series: 42"), ch(3, "\u{1F4D6}Issues: 7")];
    let plan = plan_stat_channels(&channels, None, None);
    assert!(plan.delete_ids.is_empty());
    assert!(plan.create_names.is_empty());
}

#[test]
fn replacement_leaves_exactly_one_series_channel() {
    // An update from a displayed 42 to a fresh 57.
    let channels = vec![ch(1, "\u{1F4DA}Series: 42"), ch(2, "general")];
    let plan = plan_stat_channels(&channels, Some(57), None);

    // Perform the plan: delete, then create.
    let mut names: Vec<String> = channels
        .iter()
        .filter(|c| !plan.delete_ids.contains(&c.id))
        .map(|c| c.name.clone())
        .collect();
    names.extend(plan.create_names.iter().cloned());

    let new_count = names.iter().filter(|n| n.as_str() == "\u{1F4DA}Series: 57").count();
    let old_count = names.iter().filter(|n| n.as_str() == "\u{1F4DA}Series: 42").count();
    assert_eq!(new_count, 1);
    assert_eq!(old_count, 0);
    assert!(names.contains(&"general".to_string()));
}

#[test]
fn replacement_leaves_exactly_one_books_channel() {
    // An update from a displayed 7 to a fresh 9, series metric absent.
    let channels = vec![ch(1, "\u{1F4D6}Issues: 7"), ch(2, "general")];
    let plan = plan_stat_channels(&channels, None, Some(9));

    let mut names: Vec<String> = channels
        .iter()
        .filter(|c| !plan.delete_ids.contains(&c.id))
        .map(|c| c.name.clone())
        .collect();
    names.extend(plan.create_names.iter().cloned());

    let new_count = names.iter().filter(|n| n.as_str() == "\u{1F4D6}Issues: 9").count();
    let old_count = names.iter().filter(|n| n.as_str() == "\u{1F4D6}Issues: 7").count();
    assert_eq!(new_count, 1);
    assert_eq!(old_count, 0);
}

#[test]
fn channel_lookup_takes_first_match() {
    let channels = vec![ch(5, "news"), ch(6, "stats"), ch(7, "news")];
    assert_eq!(find_channel_id(&channels, "news"), Some(5));
    assert_eq!(find_channel_id(&channels, "stats"), Some(6));
    assert_eq!(find_channel_id(&channels, "missing"), None);
}

#[test]
fn guild_is_the_first_of_the_account() {
    assert_eq!(first_guild(&vec![]), None);
    assert_eq!(first_guild(&vec![10, 20]), Some(10));
}
