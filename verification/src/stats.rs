//! The statistics display on the chat platform.
//!
//! Two numeric metrics are shown as channel names, `<prefix><value>`.
//! An update deletes every channel bearing a stat prefix whose metric is
//! present, then creates one fresh channel per present metric — delete
//! before create, so the inconsistency window shows a missing value,
//! never a duplicated one.  The plan is computed here and proved; the
//! surrounding process performs it in that order.

use vstd::prelude::*;
use vstd::string::StringExecFns;
use crate::text::dec_str;
use crate::text::has_prefix;
use crate::text::str_has_prefix;
use crate::text::u64_to_string;

verus! {

/// A channel of the guild, as the chat platform lists it.
pub struct ChannelRec {
    pub id: u64,
    pub name: String,
}

/// What one stats update does: delete these channels, then create
/// channels with these names, inside the stats category.
pub struct StatPlan {
    pub delete_ids: Vec<u64>,
    pub create_names: Vec<String>,
}

/// The marker prefix of the series-count channel.
pub open spec fn series_prefix() -> Seq<char> {
    "📚Series: "@
}

/// The marker prefix of the book-count channel.
pub open spec fn books_prefix() -> Seq<char> {
    "📖Issues: "@
}

/// The marker prefix of the series-count channel.
pub fn series_stat_prefix() -> (r: &'static str)
    ensures
        r@ == series_prefix(),
{
    "📚Series: "
}

/// The marker prefix of the book-count channel.
pub fn books_stat_prefix() -> (r: &'static str)
    ensures
        r@ == books_prefix(),
{
    "📖Issues: "
}

/// The name that displays `value` under a marker prefix.
pub open spec fn stat_name(prefix: Seq<char>, value: nat) -> Seq<char> {
    prefix + dec_str(value)
}

/// A channel is stale when it bears the marker prefix of a metric whose
/// fresh value is present.
pub open spec fn is_stale(c: ChannelRec, series_on: bool, books_on: bool) -> bool {
    (series_on && has_prefix(c.name@, series_prefix())) || (books_on && has_prefix(
        c.name@,
        books_prefix(),
    ))
}

/// The ids of the stale channels, in guild order.
pub open spec fn stale_ids(chs: Seq<ChannelRec>, series_on: bool, books_on: bool) -> Seq<u64>
    decreases chs.len(),
{
    if chs.len() == 0 {
        Seq::empty()
    } else {
        let rest = stale_ids(chs.drop_last(), series_on, books_on);
        if is_stale(chs.last(), series_on, books_on) {
            rest.push(chs.last().id)
        } else {
            rest
        }
    }
}

/// The names to create: one per present metric, series first.
pub open spec fn fresh_names(series: Option<u64>, books: Option<u64>) -> Seq<Seq<char>> {
    let s = if series is Some {
        seq![stat_name(series_prefix(), series->Some_0 as nat)]
    } else {
        Seq::empty()
    };
    let b = if books is Some {
        seq![stat_name(books_prefix(), books->Some_0 as nat)]
    } else {
        Seq::empty()
    };
    s + b
}

fn stat_channel_name(prefix: &str, value: u64) -> (r: String)
    ensures
        r@ == stat_name(prefix@, value as nat),
{
    let name = String::from_str(prefix);
    name.concat(u64_to_string(value).as_str())
}

/// Plans one stats update over the guild's channel list: every channel
/// bearing the marker prefix of a present metric is deleted, and one
/// channel per present metric is created, named `<prefix><value>`.  An
/// absent metric touches nothing of its prefix.
pub fn plan_stat_channels(channels: &Vec<ChannelRec>, series: Option<u64>, books: Option<u64>) -> (p:
    StatPlan)
    ensures
        p.delete_ids@ == stale_ids(channels@, series is Some, books is Some),
        p.create_names.deep_view() == fresh_names(series, books),
{
    let series_on = series.is_some();
    let books_on = books.is_some();
    let mut delete_ids: Vec<u64> = Vec::new();
    let mut i: usize = 0;
    while i < channels.len()
        invariant
            i <= channels.len(),
            delete_ids@ == stale_ids(channels@.take(i as int), series_on, books_on),
            series_on == (series is Some),
            books_on == (books is Some),
        decreases channels.len() - i,
    {
        let ghost prefix = channels@.take(i as int);
        let ghost prefix1 = channels@.take(i + 1 as int);
        proof {
            assert(prefix1.drop_last() =~= prefix);
            assert(prefix1.last() == channels@[i as int]);
        }
        let name = channels[i].name.as_str();
        let stale = (series_on && str_has_prefix(name, series_stat_prefix())) || (books_on
            && str_has_prefix(name, books_stat_prefix()));
        if stale {
            delete_ids.push(channels[i].id);
        }
        i = i + 1;
    }
    proof {
        assert(channels@.take(channels@.len() as int) =~= channels@);
    }
    let mut create_names: Vec<String> = Vec::new();
    if let Some(v) = series {
        create_names.push(stat_channel_name(series_stat_prefix(), v));
    }
    if let Some(v) = books {
        create_names.push(stat_channel_name(books_stat_prefix(), v));
    }
    proof {
        assert(create_names.deep_view() =~= fresh_names(series, books));
    }
    StatPlan { delete_ids, create_names }
}

/// The channel names visible once the plan ran: the channels whose id
/// was not deleted, then the created names.
pub open spec fn names_after(
    chs: Seq<ChannelRec>,
    deleted: Seq<u64>,
    created: Seq<Seq<char>>,
) -> Seq<Seq<char>> {
    chs.filter(|c: ChannelRec| !deleted.contains(c.id)).map_values(|c: ChannelRec| c.name@) + created
}

/// A channel bearing a prefix whose metric is present lands on the
/// deletion list.
proof fn lemma_stale_ids_complete(chs: Seq<ChannelRec>, series_on: bool, books_on: bool, i: int)
    requires
        0 <= i < chs.len(),
        is_stale(chs[i], series_on, books_on),
    ensures
        stale_ids(chs, series_on, books_on).contains(chs[i].id),
    decreases chs.len(),
{
    let result = stale_ids(chs, series_on, books_on);
    if i == chs.len() - 1 {
        assert(chs[i] == chs.last());
        assert(result[result.len() - 1] == chs.last().id);
    } else {
        assert(chs.drop_last()[i] == chs[i]);
        lemma_stale_ids_complete(chs.drop_last(), series_on, books_on, i);
        let rest = stale_ids(chs.drop_last(), series_on, books_on);
        let k = choose|k: int| 0 <= k < rest.len() && rest[k] == chs[i].id;
        if is_stale(chs.last(), series_on, books_on) {
            assert(result[k] == chs[i].id);
        }
    }
}

/// After an update with a present series metric, exactly one channel in
/// the guild bears the series marker prefix, and it displays the fresh
/// value: every stale `<series-prefix>…` channel is gone, whatever it
/// displayed, and the one created channel replaces them all.
pub proof fn lemma_stat_channel_replacement(chs: Seq<ChannelRec>, v: u64, books: Option<u64>)
    ensures
        names_after(
            chs,
            stale_ids(chs, true, books is Some),
            fresh_names(Some(v), books),
        ).filter(|n: Seq<char>| has_prefix(n, series_prefix())) == seq![
            stat_name(series_prefix(), v as nat),
        ],
{
    let deleted = stale_ids(chs, true, books is Some);
    let created = fresh_names(Some(v), books);
    let survivors = chs.filter(|c: ChannelRec| !deleted.contains(c.id));
    let survivor_names = survivors.map_values(|c: ChannelRec| c.name@);
    let pred = |n: Seq<char>| has_prefix(n, series_prefix());

    // No surviving channel bears the series prefix: such a channel is
    // stale, so its id is on the deletion list and the filter drops it.
    assert forall|k: int| 0 <= k < survivor_names.len() implies !pred(survivor_names[k]) by {
        chs.lemma_filter_pred(|c: ChannelRec| !deleted.contains(c.id), k);
        assert(survivor_names[k] == survivors[k].name@);
        if pred(survivors[k].name@) {
            assert(is_stale(survivors[k], true, books is Some));
            assert(survivors.contains(survivors[k]));
            chs.lemma_filter_contains_rev(
                |c: ChannelRec| !deleted.contains(c.id),
                survivors[k],
            );
            assert(chs.contains(survivors[k]));
            let j = choose|j: int| 0 <= j < chs.len() && chs[j] == survivors[k];
            lemma_stale_ids_complete(chs, true, books is Some, j);
            assert(deleted.contains(survivors[k].id));
        }
    }
    assert(survivor_names.filter(pred) =~= Seq::<Seq<char>>::empty()) by {
        if survivor_names.filter(pred).len() > 0 {
            survivor_names.lemma_filter_pred(pred, 0);
            assert(survivor_names.filter(pred).contains(survivor_names.filter(pred)[0]));
            survivor_names.lemma_filter_contains_rev(pred, survivor_names.filter(pred)[0]);
            let j = choose|j: int|
                0 <= j < survivor_names.len() && survivor_names[j] == survivor_names.filter(
                    pred,
                )[0];
            assert(!pred(survivor_names[j]));
            assert(false);
        }
    }

    // Of the created names, only the series one bears the series prefix:
    // the book name opens on a different character.
    assert(!pred(stat_name(books_prefix(), books->Some_0 as nat))) by {
        reveal_strlit("📚Series: ");
        reveal_strlit("📖Issues: ");
        let bn = stat_name(books_prefix(), books->Some_0 as nat);
        assert(bn[0] == '📖');
        assert(series_prefix()[0] == '📚');
        if has_prefix(bn, series_prefix()) {
            assert(bn.subrange(0, series_prefix().len() as int)[0] == bn[0]);
        }
    }
    assert(pred(stat_name(series_prefix(), v as nat))) by {
        let sn = stat_name(series_prefix(), v as nat);
        assert(sn.subrange(0, series_prefix().len() as int) =~= series_prefix());
    }

    Seq::filter_distributes_over_add(survivor_names, created, pred);
    assert(created.filter(pred) =~= seq![stat_name(series_prefix(), v as nat)]) by {
        if books is Some {
            assert(created =~= seq![stat_name(series_prefix(), v as nat)].push(
                stat_name(books_prefix(), books->Some_0 as nat),
            ));
            reveal(Seq::filter);
            assert(created.drop_last() =~= seq![stat_name(series_prefix(), v as nat)]);
        } else {
            assert(created =~= Seq::<Seq<char>>::empty().push(
                stat_name(series_prefix(), v as nat),
            ));
            reveal(Seq::filter);
            assert(created.drop_last() =~= Seq::<Seq<char>>::empty());
        }
    }
    assert(names_after(chs, deleted, created).filter(pred) =~= seq![
        stat_name(series_prefix(), v as nat),
    ]);
}

/// The books-side counterpart: after an update with a present books
/// metric, exactly one channel bears the books marker prefix, and it
/// displays the fresh value.
pub proof fn lemma_stat_channel_replacement_books(chs: Seq<ChannelRec>, series: Option<u64>, w: u64)
    ensures
        names_after(
            chs,
            stale_ids(chs, series is Some, true),
            fresh_names(series, Some(w)),
        ).filter(|n: Seq<char>| has_prefix(n, books_prefix())) == seq![
            stat_name(books_prefix(), w as nat),
        ],
{
    let deleted = stale_ids(chs, series is Some, true);
    let created = fresh_names(series, Some(w));
    let survivors = chs.filter(|c: ChannelRec| !deleted.contains(c.id));
    let survivor_names = survivors.map_values(|c: ChannelRec| c.name@);
    let pred = |n: Seq<char>| has_prefix(n, books_prefix());

    // No surviving channel bears the books prefix: such a channel is
    // stale, so its id is on the deletion list and the filter drops it.
    assert forall|k: int| 0 <= k < survivor_names.len() implies !pred(survivor_names[k]) by {
        chs.lemma_filter_pred(|c: ChannelRec| !deleted.contains(c.id), k);
        assert(survivor_names[k] == survivors[k].name@);
        if pred(survivors[k].name@) {
            assert(is_stale(survivors[k], series is Some, true));
            assert(survivors.contains(survivors[k]));
            chs.lemma_filter_contains_rev(
                |c: ChannelRec| !deleted.contains(c.id),
                survivors[k],
            );
            assert(chs.contains(survivors[k]));
            let j = choose|j: int| 0 <= j < chs.len() && chs[j] == survivors[k];
            lemma_stale_ids_complete(chs, series is Some, true, j);
            assert(deleted.contains(survivors[k].id));
        }
    }
    assert(survivor_names.filter(pred) =~= Seq::<Seq<char>>::empty()) by {
        if survivor_names.filter(pred).len() > 0 {
            survivor_names.lemma_filter_pred(pred, 0);
            assert(survivor_names.filter(pred).contains(survivor_names.filter(pred)[0]));
            survivor_names.lemma_filter_contains_rev(pred, survivor_names.filter(pred)[0]);
            let j = choose|j: int|
                0 <= j < survivor_names.len() && survivor_names[j] == survivor_names.filter(
                    pred,
                )[0];
            assert(!pred(survivor_names[j]));
            assert(false);
        }
    }

    // Of the created names, only the books one bears the books prefix:
    // the series name opens on a different character.
    assert(!pred(stat_name(series_prefix(), series->Some_0 as nat))) by {
        reveal_strlit("📚Series: ");
        reveal_strlit("📖Issues: ");
        let sn = stat_name(series_prefix(), series->Some_0 as nat);
        assert(sn[0] == '📚');
        assert(books_prefix()[0] == '📖');
        if has_prefix(sn, books_prefix()) {
            assert(sn.subrange(0, books_prefix().len() as int)[0] == sn[0]);
        }
    }
    assert(pred(stat_name(books_prefix(), w as nat))) by {
        let bn = stat_name(books_prefix(), w as nat);
        assert(bn.subrange(0, books_prefix().len() as int) =~= books_prefix());
    }

    Seq::filter_distributes_over_add(survivor_names, created, pred);
    assert(created.filter(pred) =~= seq![stat_name(books_prefix(), w as nat)]) by {
        reveal(Seq::filter);
        let bn = stat_name(books_prefix(), w as nat);
        let empty = Seq::<Seq<char>>::empty();
        assert(empty.filter(pred) =~= empty);
        if series is Some {
            let sn = stat_name(series_prefix(), series->Some_0 as nat);
            assert(created =~= seq![sn, bn]);
            assert(seq![sn].drop_last() =~= empty);
            assert(seq![sn].last() == sn);
            assert(seq![sn].filter(pred) =~= empty);
            assert(seq![sn, bn].drop_last() =~= seq![sn]);
            assert(seq![sn, bn].last() == bn);
            assert(seq![sn, bn].filter(pred) =~= empty.push(bn));
        } else {
            assert(created =~= seq![bn]);
            assert(seq![bn].drop_last() =~= empty);
            assert(seq![bn].last() == bn);
            assert(seq![bn].filter(pred) =~= empty.push(bn));
        }
    }
    assert(names_after(chs, deleted, created).filter(pred) =~= seq![
        stat_name(books_prefix(), w as nat),
    ]);
}

// ---------------------------------------------------------------------
// Metrics
// ---------------------------------------------------------------------

/// Where the library server reports the series count.
pub open spec fn series_metric_url_spec(base: Seq<char>) -> Seq<char> {
    base + "/actuator/metrics/komga.series"@
}

/// Where the library server reports the book count.
pub open spec fn books_metric_url_spec(base: Seq<char>) -> Seq<char> {
    base + "/actuator/metrics/komga.books"@
}

/// Builds the series-count metric URL.
pub fn series_metric_url(base: &str) -> (r: String)
    ensures
        r@ == series_metric_url_spec(base@),
{
    String::from_str(base).concat("/actuator/metrics/komga.series")
}

/// Builds the book-count metric URL.
pub fn books_metric_url(base: &str) -> (r: String)
    ensures
        r@ == books_metric_url_spec(base@),
{
    String::from_str(base).concat("/actuator/metrics/komga.books")
}

/// The value a metric response carries: its first measurement, the rest
/// ignored.  A response without measurements makes the whole statistic
/// absent — by policy the update then leaves that prefix's channels
/// alone rather than failing.
pub fn first_measurement(values: &Vec<u64>) -> (r: Option<u64>)
    ensures
        r is Some <==> values@.len() > 0,
        r is Some ==> r->Some_0 == values@[0],
{
    if values.len() > 0 {
        Some(values[0])
    } else {
        None
    }
}

// ---------------------------------------------------------------------
// Guild and channel selection
// ---------------------------------------------------------------------

/// The guild the bot acts in: the first of the account's guild list, as
/// the platform returns it.  `None` — a fatal condition for the run —
/// exactly when the account belongs to no guild.
pub fn first_guild(guild_ids: &Vec<u64>) -> (r: Option<u64>)
    ensures
        r is Some <==> guild_ids@.len() > 0,
        r is Some ==> r->Some_0 == guild_ids@[0],
{
    if guild_ids.len() > 0 {
        Some(guild_ids[0])
    } else {
        None
    }
}

/// The id of the first channel bearing the wanted name, if any.
pub open spec fn find_channel(chs: Seq<ChannelRec>, name: Seq<char>) -> Option<u64>
    decreases chs.len(),
{
    if chs.len() == 0 {
        None
    } else if chs[0].name@ == name {
        Some(chs[0].id)
    } else {
        find_channel(chs.drop_first(), name)
    }
}

proof fn lemma_find_channel_extend(chs: Seq<ChannelRec>, name: Seq<char>, i: int)
    requires
        0 <= i <= chs.len(),
        forall|j: int| 0 <= j < i ==> #[trigger] chs[j].name@ != name,
    ensures
        find_channel(chs, name) == find_channel(chs.skip(i), name),
    decreases i,
{
    if i > 0 {
        assert(find_channel(chs, name) == find_channel(chs.drop_first(), name));
        assert(forall|j: int|
            0 <= j < i - 1 ==> #[trigger] chs.drop_first()[j].name@ != name);
        lemma_find_channel_extend(chs.drop_first(), name, i - 1);
        assert(chs.drop_first().skip(i - 1) =~= chs.skip(i));
    } else {
        assert(chs.skip(0) =~= chs);
    }
}

/// Looks a channel up by exact name; the first match wins.  `None`
/// exactly when no channel bears the name — for the newsletter target
/// channel that is a fatal condition, for the stats category the cue to
/// create it.
pub fn find_channel_id(channels: &Vec<ChannelRec>, name: &str) -> (r: Option<u64>)
    ensures
        r == find_channel(channels@, name@),
{
    let mut i: usize = 0;
    while i < channels.len()
        invariant
            i <= channels.len(),
            forall|j: int| 0 <= j < i ==> #[trigger] channels@[j].name@ != name@,
        decreases channels.len() - i,
    {
        if crate::text::str_eq(channels[i].name.as_str(), name) {
            proof {
                lemma_find_channel_extend(channels@, name@, i as int);
                assert(channels@.skip(i as int)[0] == channels@[i as int]);
            }
            return Some(channels[i].id);
        }
        i = i + 1;
    }
    proof {
        lemma_find_channel_extend(channels@, name@, i as int);
        assert(channels@.skip(i as int).len() == 0);
    }
    None
}

} // verus!
