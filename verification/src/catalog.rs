//! The media-library side of the bot: resolving library names to ids and
//! picking the recently added series and books out of a trailing window.
//!
//! Records arrive from the remote API as plain strings; their RFC 3339
//! timestamps are read into epoch seconds (through the trusted reader in
//! `dates`) and every decision on them is verified.

use vstd::prelude::*;
use vstd::multiset::Multiset;
use crate::dates::parse_rfc3339_epoch;
use crate::dates::rfc3339_epoch;
use crate::text::str_eq;

verus! {

/// A library (a named grouping of series) as the remote server lists it.
pub struct Library {
    pub id: String,
    pub name: String,
}

/// A series as the remote server returns it: the creation instant still
/// unread text.
pub struct RawSeries {
    pub id: String,
    pub name: String,
    pub created: String,
}

/// A series with its creation instant read into epoch seconds.
pub struct Series {
    pub id: String,
    pub name: String,
    pub created_epoch: i64,
}

/// A book (issue) as the remote server returns it.
pub struct RawBook {
    pub id: String,
    pub series_id: String,
    pub created: String,
    pub file_last_modified: String,
}

/// A book with both instants read into epoch seconds.
pub struct Book {
    pub id: String,
    pub series_id: String,
    pub created_epoch: i64,
    pub modified_epoch: i64,
}

/// A malformed timestamp in a remote record aborts the run: it signals a
/// changed API contract, not a record to skip.
#[derive(Clone, Copy, PartialEq, Eq, Structural, Debug)]
pub enum CatalogError {
    BadTimestamp,
}

// ---------------------------------------------------------------------
// Library name resolution
// ---------------------------------------------------------------------

/// The ids of the libraries whose name is in `names`, in library-list
/// order.  A requested name that matches no library contributes nothing.
pub open spec fn resolved_ids(libs: Seq<Library>, names: Seq<Seq<char>>) -> Seq<Seq<char>>
    decreases libs.len(),
{
    if libs.len() == 0 {
        Seq::empty()
    } else {
        let rest = resolved_ids(libs.drop_last(), names);
        if names.contains(libs.last().name@) {
            rest.push(libs.last().id@)
        } else {
            rest
        }
    }
}

fn contains_string(names: &Vec<String>, x: &String) -> (r: bool)
    ensures
        r == names.deep_view().contains(x@),
{
    let mut i: usize = 0;
    while i < names.len()
        invariant
            i <= names.len(),
            forall|j: int| 0 <= j < i ==> names.deep_view()[j] != x@,
        decreases names.len() - i,
    {
        if str_eq(names[i].as_str(), x.as_str()) {
            assert(names.deep_view()[i as int] == x@);
            return true;
        }
        i = i + 1;
    }
    assert(!names.deep_view().contains(x@));
    false
}

/// Resolves the configured library names to library ids by exact name
/// match, in library-list order.  `None` names means no restriction and
/// resolves to `None`; a requested name absent from the list is silently
/// dropped, never an error.
pub fn resolve_library_ids(libraries: &Vec<Library>, names: &Option<Vec<String>>) -> (r: Option<
    Vec<String>,
>)
    ensures
        r is Some <==> *names is Some,
        *names is Some ==> r->Some_0.deep_view() == resolved_ids(
            libraries@,
            names->Some_0.deep_view(),
        ),
{
    match names {
        None => None,
        Some(ns) => {
            let ghost names_dv = ns.deep_view();
            let mut ids: Vec<String> = Vec::new();
            let mut i: usize = 0;
            while i < libraries.len()
                invariant
                    i <= libraries.len(),
                    names_dv == ns.deep_view(),
                    ids.deep_view() == resolved_ids(libraries@.take(i as int), names_dv),
                decreases libraries.len() - i,
            {
                let ghost prefix = libraries@.take(i as int);
                let ghost prefix1 = libraries@.take(i + 1 as int);
                proof {
                    assert(prefix1.drop_last() =~= prefix);
                    assert(prefix1.last() == libraries@[i as int]);
                }
                if contains_string(ns, &libraries[i].name) {
                    let ghost old_dv = ids.deep_view();
                    ids.push(libraries[i].id.clone());
                    proof {
                        assert(ids.deep_view() =~= old_dv.push(libraries@[i as int].id@));
                    }
                }
                i = i + 1;
            }
            proof {
                assert(libraries@.take(libraries@.len() as int) =~= libraries@);
            }
            Some(ids)
        },
    }
}

/// An id is resolved exactly when some library carries it under a
/// requested name: the resolved ids are `{ id(l) : l in libs, name(l) in
/// names }`, and a requested name that no library bears adds nothing.
pub proof fn lemma_resolved_ids_membership(libs: Seq<Library>, names: Seq<Seq<char>>, id: Seq<char>)
    ensures
        resolved_ids(libs, names).contains(id) <==> exists|i: int|
            0 <= i < libs.len() && names.contains(#[trigger] libs[i].name@) && libs[i].id@ == id,
    decreases libs.len(),
{
    if libs.len() == 0 {
    } else {
        let rest = resolved_ids(libs.drop_last(), names);
        lemma_resolved_ids_membership(libs.drop_last(), names, id);
        assert(forall|i: int|
            0 <= i < libs.len() - 1 ==> #[trigger] libs.drop_last()[i] == libs[i]);
        if names.contains(libs.last().name@) {
            let whole = rest.push(libs.last().id@);
            assert(whole[whole.len() - 1] == libs.last().id@);
            assert(forall|i: int| 0 <= i < rest.len() ==> #[trigger] whole[i] == rest[i]);
            if whole.contains(id) {
                let k = choose|k: int| 0 <= k < whole.len() && whole[k] == id;
                if k < rest.len() {
                    assert(rest.contains(id));
                } else {
                    assert(libs[libs.len() - 1].id@ == id);
                    assert(names.contains(libs[libs.len() - 1].name@));
                }
            }
            if exists|i: int|
                0 <= i < libs.len() && names.contains(#[trigger] libs[i].name@) && libs[i].id@
                    == id {
                let i = choose|i: int|
                    0 <= i < libs.len() && names.contains(#[trigger] libs[i].name@) && libs[i].id@
                        == id;
                if i < libs.len() - 1 {
                    assert(names.contains(libs.drop_last()[i].name@) && libs.drop_last()[i].id@
                        == id);
                    assert(rest.contains(id));
                    let k = choose|k: int| 0 <= k < rest.len() && rest[k] == id;
                    assert(whole[k] == id);
                } else {
                    assert(whole[whole.len() - 1] == id);
                }
                assert(whole.contains(id));
            }
        } else {
            if exists|i: int|
                0 <= i < libs.len() && names.contains(#[trigger] libs[i].name@) && libs[i].id@
                    == id {
                let i = choose|i: int|
                    0 <= i < libs.len() && names.contains(#[trigger] libs[i].name@) && libs[i].id@
                        == id;
                assert(i < libs.len() - 1);
                assert(names.contains(libs.drop_last()[i].name@) && libs.drop_last()[i].id@ == id);
                assert(rest.contains(id));
            }
        }
    }
}

/// The resolved id set is exactly `{ id(l) : l in libs, name(l) in
/// names }`.
pub proof fn lemma_resolution_set(libs: Seq<Library>, names: Seq<Seq<char>>)
    ensures
        resolved_ids(libs, names).to_set() =~= Set::new(
            |id: Seq<char>|
                exists|i: int|
                    0 <= i < libs.len() && names.contains(#[trigger] libs[i].name@) && libs[i].id@
                        == id,
        ),
{
    assert forall|id: Seq<char>|
        #[trigger] resolved_ids(libs, names).to_set().contains(id) == Set::new(
        |id: Seq<char>|
            exists|i: int|
                0 <= i < libs.len() && names.contains(#[trigger] libs[i].name@) && libs[i].id@
                    == id,
    ).contains(id) by {
        lemma_resolved_ids_membership(libs, names, id);
    }
}

// ---------------------------------------------------------------------
// Recently added series
// ---------------------------------------------------------------------

/// The creation timestamp of the record reads as a valid instant.
pub open spec fn series_parses(r: RawSeries) -> bool {
    rfc3339_epoch(r.created@) is Some
}

/// The creation instant of the record, in epoch seconds.
pub open spec fn series_epoch(r: RawSeries) -> int {
    rfc3339_epoch(r.created@)->Some_0
}

/// The record with its creation instant read.
pub open spec fn to_series(r: RawSeries) -> Series {
    Series { id: r.id, name: r.name, created_epoch: series_epoch(r) as i64 }
}

pub open spec fn all_series_parse(rs: Seq<RawSeries>) -> bool {
    forall|i: int| 0 <= i < rs.len() ==> series_parses(#[trigger] rs[i])
}

/// The series created strictly after `window_start`, in input order.
/// The window boundary itself is excluded.
pub open spec fn recent_series_of(rs: Seq<RawSeries>, window_start: int) -> Seq<Series>
    decreases rs.len(),
{
    if rs.len() == 0 {
        Seq::empty()
    } else {
        let rest = recent_series_of(rs.drop_last(), window_start);
        if series_parses(rs.last()) && series_epoch(rs.last()) > window_start {
            rest.push(to_series(rs.last()))
        } else {
            rest
        }
    }
}

/// Keeps the series created strictly after the window start.  Fails, and
/// keeps nothing, exactly when some record's timestamp does not read.
pub fn recent_series(raws: &Vec<RawSeries>, window_start: i64) -> (r: Result<
    Vec<Series>,
    CatalogError,
>)
    ensures
        r is Ok <==> all_series_parse(raws@),
        r is Ok ==> r->Ok_0@ == recent_series_of(raws@, window_start as int),
{
    let mut out: Vec<Series> = Vec::new();
    let mut i: usize = 0;
    while i < raws.len()
        invariant
            i <= raws.len(),
            forall|j: int| 0 <= j < i ==> series_parses(#[trigger] raws@[j]),
            out@ == recent_series_of(raws@.take(i as int), window_start as int),
        decreases raws.len() - i,
    {
        let ghost prefix = raws@.take(i as int);
        let ghost prefix1 = raws@.take(i + 1 as int);
        proof {
            assert(prefix1.drop_last() =~= prefix);
            assert(prefix1.last() == raws@[i as int]);
        }
        match parse_rfc3339_epoch(raws[i].created.as_str()) {
            None => {
                return Err(CatalogError::BadTimestamp);
            },
            Some(epoch) => {
                if epoch > window_start {
                    out.push(
                        Series {
                            id: raws[i].id.clone(),
                            name: raws[i].name.clone(),
                            created_epoch: epoch,
                        },
                    );
                    proof {
                        assert(out@.last() == to_series(raws@[i as int]));
                        assert(out@ =~= recent_series_of(prefix1, window_start as int));
                    }
                }
            },
        }
        i = i + 1;
    }
    proof {
        assert(raws@.take(raws@.len() as int) =~= raws@);
    }
    Ok(out)
}

/// Timestamps that read as instants lie in the range of epoch seconds.
pub open spec fn series_epochs_bounded(rs: Seq<RawSeries>) -> bool {
    forall|i: int|
        0 <= i < rs.len() && series_parses(#[trigger] rs[i]) ==> i64::MIN <= series_epoch(rs[i])
            <= i64::MAX
}

/// Every series the window keeps was created strictly after its start.
pub proof fn lemma_recent_series_strict(rs: Seq<RawSeries>, window_start: int)
    requires
        series_epochs_bounded(rs),
    ensures
        forall|k: int|
            0 <= k < recent_series_of(rs, window_start).len() ==> #[trigger] recent_series_of(
                rs,
                window_start,
            )[k].created_epoch > window_start,
    decreases rs.len(),
{
    let result = recent_series_of(rs, window_start);
    if rs.len() > 0 {
        assert(forall|i: int|
            0 <= i < rs.len() - 1 ==> #[trigger] rs.drop_last()[i] == rs[i]);
        lemma_recent_series_strict(rs.drop_last(), window_start);
        let rest = recent_series_of(rs.drop_last(), window_start);
        if series_parses(rs.last()) && series_epoch(rs.last()) > window_start {
            assert(rs[rs.len() - 1] == rs.last());
            assert forall|k: int| 0 <= k < result.len() implies #[trigger] result[k].created_epoch
                > window_start by {
                if k < rest.len() {
                    assert(result[k] == rest[k]);
                } else {
                    assert(result[k] == to_series(rs.last()));
                }
            }
        }
    }
}

/// A series created exactly at the window boundary is excluded: the
/// boundary is strict.
pub proof fn lemma_series_boundary_excluded(rs: Seq<RawSeries>, window_start: i64, i: int)
    requires
        series_epochs_bounded(rs),
        0 <= i < rs.len(),
        rfc3339_epoch(rs[i].created@) == Some(window_start as int),
    ensures
        !recent_series_of(rs, window_start as int).contains(to_series(rs[i])),
{
    lemma_recent_series_strict(rs, window_start as int);
    assert(to_series(rs[i]).created_epoch == window_start);
    if recent_series_of(rs, window_start as int).contains(to_series(rs[i])) {
        let k = choose|k: int|
            0 <= k < recent_series_of(rs, window_start as int).len() && recent_series_of(
                rs,
                window_start as int,
            )[k] == to_series(rs[i]);
        assert(recent_series_of(rs, window_start as int)[k].created_epoch > window_start);
    }
}

// ---------------------------------------------------------------------
// Recently added books
// ---------------------------------------------------------------------

/// Both timestamps of the record read as valid instants.
pub open spec fn book_parses(r: RawBook) -> bool {
    rfc3339_epoch(r.created@) is Some && rfc3339_epoch(r.file_last_modified@) is Some
}

pub open spec fn book_created_epoch(r: RawBook) -> int {
    rfc3339_epoch(r.created@)->Some_0
}

pub open spec fn book_modified_epoch(r: RawBook) -> int {
    rfc3339_epoch(r.file_last_modified@)->Some_0
}

/// The record with both instants read.
pub open spec fn to_book(r: RawBook) -> Book {
    Book {
        id: r.id,
        series_id: r.series_id,
        created_epoch: book_created_epoch(r) as i64,
        modified_epoch: book_modified_epoch(r) as i64,
    }
}

pub open spec fn all_books_parse(rs: Seq<RawBook>) -> bool {
    forall|i: int| 0 <= i < rs.len() ==> book_parses(#[trigger] rs[i])
}

/// The books whose last-modified instant lies strictly after the window
/// start, in input order.  The server-side filter is coarser than the
/// window, so this client-side cut decides.
pub open spec fn fresh_books_of(rs: Seq<RawBook>, window_start: int) -> Seq<Book>
    decreases rs.len(),
{
    if rs.len() == 0 {
        Seq::empty()
    } else {
        let rest = fresh_books_of(rs.drop_last(), window_start);
        if book_parses(rs.last()) && book_modified_epoch(rs.last()) > window_start {
            rest.push(to_book(rs.last()))
        } else {
            rest
        }
    }
}

/// Descending by creation instant.
pub open spec fn sorted_desc(s: Seq<Book>) -> bool {
    forall|i: int, j: int|
        0 <= i < j < s.len() ==> #[trigger] s[i].created_epoch >= #[trigger] s[j].created_epoch
}

proof fn lemma_to_multiset_insert(s: Seq<Book>, i: int, b: Book)
    requires
        0 <= i <= s.len(),
    ensures
        s.insert(i, b).to_multiset() =~= s.to_multiset().insert(b),
{
    broadcast use vstd::seq_lib::group_to_multiset_ensures;

    let t = s.insert(i, b);
    s.insert_ensures(i, b);
    assert(t.remove(i) =~= s);
    assert(t.remove(i).to_multiset() =~= t.to_multiset().remove(t[i]));
    assert(t[i] == b);
    assert(t.contains(b));
    assert(t.to_multiset().count(b) > 0);
    assert forall|x: Book| #[trigger]
        t.to_multiset().count(x) == s.to_multiset().insert(b).count(x) by {
        if x == b {
            assert(s.to_multiset() =~= t.to_multiset().remove(b));
        } else {
            assert(s.to_multiset().count(x) == t.to_multiset().remove(b).count(x));
        }
    }
}

fn sort_books_desc(input: Vec<Book>) -> (r: Vec<Book>)
    ensures
        sorted_desc(r@),
        r@.to_multiset() == input@.to_multiset(),
{
    broadcast use vstd::seq_lib::group_to_multiset_ensures;

    let ghost orig = input@;
    let mut rest = input;
    let mut out: Vec<Book> = Vec::new();
    while rest.len() > 0
        invariant
            sorted_desc(out@),
            out@.to_multiset().add(rest@.to_multiset()) == orig.to_multiset(),
        decreases rest.len(),
    {
        let ghost rest_before = rest@;
        let b = rest.pop().unwrap();
        proof {
            assert(rest_before =~= rest@.push(b));
            rest@.to_multiset_ensures();
            assert(rest@.push(b).to_multiset() =~= rest@.to_multiset().insert(b));
        }
        let mut pos: usize = 0;
        while pos < out.len() && out[pos].created_epoch >= b.created_epoch
            invariant
                pos <= out.len(),
                forall|k: int| 0 <= k < pos ==> #[trigger] out@[k].created_epoch >= b.created_epoch,
            decreases out.len() - pos,
        {
            pos = pos + 1;
        }
        let ghost old_out = out@;
        out.insert(pos, b);
        proof {
            old_out.insert_ensures(pos as int, b);
            assert forall|x: int, y: int| 0 <= x < y < out@.len() implies #[trigger] out@[x].created_epoch
                >= #[trigger] out@[y].created_epoch by {
                if y < pos {
                } else if x > pos {
                } else if x == pos && y > pos {
                    assert(out@[y] == old_out[y - 1]);
                    if pos < old_out.len() {
                        assert(old_out[pos as int].created_epoch < b.created_epoch);
                        if y - 1 > pos {
                            assert(old_out[y - 1].created_epoch <= old_out[pos as int].created_epoch);
                        }
                    }
                } else if y == pos {
                    assert(out@[x] == old_out[x]);
                } else {
                    // x < pos < y
                    assert(out@[x] == old_out[x]);
                    assert(out@[y] == old_out[y - 1]);
                    if pos < old_out.len() {
                        assert(old_out[y - 1].created_epoch <= old_out[pos as int].created_epoch);
                    }
                }
            }
            lemma_to_multiset_insert(old_out, pos as int, b);
            assert(out@.to_multiset().add(rest@.to_multiset()) =~= orig.to_multiset());
        }
    }
    proof {
        assert(rest@.to_multiset() =~= Multiset::<Book>::empty()) by {
            assert(rest@ =~= Seq::<Book>::empty());
        }
        assert(out@.to_multiset() =~= out@.to_multiset().add(rest@.to_multiset()));
    }
    out
}

/// Reads every record, keeps the books whose last-modified instant lies
/// strictly after the window start, and orders them by creation instant,
/// newest first.  Fails exactly when some record's timestamp does not
/// read.
pub fn recent_books(raws: &Vec<RawBook>, window_start: i64) -> (r: Result<Vec<Book>, CatalogError>)
    ensures
        r is Ok <==> all_books_parse(raws@),
        r is Ok ==> sorted_desc(r->Ok_0@),
        r is Ok ==> r->Ok_0@.to_multiset() == fresh_books_of(raws@, window_start as int).to_multiset(),
{
    let mut kept: Vec<Book> = Vec::new();
    let mut i: usize = 0;
    while i < raws.len()
        invariant
            i <= raws.len(),
            forall|j: int| 0 <= j < i ==> book_parses(#[trigger] raws@[j]),
            kept@ == fresh_books_of(raws@.take(i as int), window_start as int),
        decreases raws.len() - i,
    {
        let ghost prefix = raws@.take(i as int);
        let ghost prefix1 = raws@.take(i + 1 as int);
        proof {
            assert(prefix1.drop_last() =~= prefix);
            assert(prefix1.last() == raws@[i as int]);
        }
        let created = parse_rfc3339_epoch(raws[i].created.as_str());
        let modified = parse_rfc3339_epoch(raws[i].file_last_modified.as_str());
        match (created, modified) {
            (Some(c), Some(m)) => {
                if m > window_start {
                    kept.push(
                        Book {
                            id: raws[i].id.clone(),
                            series_id: raws[i].series_id.clone(),
                            created_epoch: c,
                            modified_epoch: m,
                        },
                    );
                    proof {
                        assert(kept@.last() == to_book(raws@[i as int]));
                        assert(kept@ =~= fresh_books_of(prefix1, window_start as int));
                    }
                }
            },
            _ => {
                return Err(CatalogError::BadTimestamp);
            },
        }
        i = i + 1;
    }
    proof {
        assert(raws@.take(raws@.len() as int) =~= raws@);
    }
    Ok(sort_books_desc(kept))
}

/// Timestamps that read as instants lie in the range of epoch seconds.
pub open spec fn book_epochs_bounded(rs: Seq<RawBook>) -> bool {
    forall|i: int|
        0 <= i < rs.len() && book_parses(#[trigger] rs[i]) ==> i64::MIN <= book_modified_epoch(
            rs[i],
        ) <= i64::MAX
}

/// Every book the window keeps was modified strictly after its start.
pub proof fn lemma_fresh_books_strict(rs: Seq<RawBook>, window_start: int)
    requires
        book_epochs_bounded(rs),
    ensures
        forall|k: int|
            0 <= k < fresh_books_of(rs, window_start).len() ==> #[trigger] fresh_books_of(
                rs,
                window_start,
            )[k].modified_epoch > window_start,
    decreases rs.len(),
{
    let result = fresh_books_of(rs, window_start);
    if rs.len() > 0 {
        assert(forall|i: int| 0 <= i < rs.len() - 1 ==> #[trigger] rs.drop_last()[i] == rs[i]);
        lemma_fresh_books_strict(rs.drop_last(), window_start);
        let rest = fresh_books_of(rs.drop_last(), window_start);
        if book_parses(rs.last()) && book_modified_epoch(rs.last()) > window_start {
            assert(rs[rs.len() - 1] == rs.last());
            assert forall|k: int| 0 <= k < result.len() implies #[trigger] result[k].modified_epoch
                > window_start by {
                if k < rest.len() {
                    assert(result[k] == rest[k]);
                } else {
                    assert(result[k] == to_book(rs.last()));
                }
            }
        }
    }
}

/// A book whose last-modified instant sits exactly on the window
/// boundary is excluded: the boundary is strict.
pub proof fn lemma_book_boundary_excluded(rs: Seq<RawBook>, window_start: i64, i: int)
    requires
        book_epochs_bounded(rs),
        0 <= i < rs.len(),
        rfc3339_epoch(rs[i].file_last_modified@) == Some(window_start as int),
    ensures
        !fresh_books_of(rs, window_start as int).contains(to_book(rs[i])),
{
    lemma_fresh_books_strict(rs, window_start as int);
    assert(to_book(rs[i]).modified_epoch == window_start);
    if fresh_books_of(rs, window_start as int).contains(to_book(rs[i])) {
        let k = choose|k: int|
            0 <= k < fresh_books_of(rs, window_start as int).len() && fresh_books_of(
                rs,
                window_start as int,
            )[k] == to_book(rs[i]);
        assert(fresh_books_of(rs, window_start as int)[k].modified_epoch > window_start);
    }
}

} // verus!
