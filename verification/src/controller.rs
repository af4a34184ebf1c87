//! Stored notices: the decisions of inserting a fetched notice, the keys by
//! which rows are found, and how stored rows become notices again.
use vstd::prelude::*;
use crate::database::Config;
use crate::dates::{Date, DateTime, chrono_parse_date, chrono_parse_datetime};
use crate::entity::{Category, NoticeSent, built_from, category_name, category_of_name};
use crate::text::concat2;
use crate::utils::{filter_notice, passes_filter};

verus! {

/// The date-time stored in a `sent_at` column: a full `YYYY-MM-DD HH:MM:SS`
/// date-time, or else a `YYYY-MM-DD` date at midnight.
pub open spec fn sent_at_of(s: Seq<char>) -> Option<(int, int, int, int, int, int, int)> {
    match chrono_parse_datetime(s, "%Y-%m-%d %H:%M:%S"@) {
        Some(t) => Some(t),
        None => match chrono_parse_date(s, "%Y-%m-%d"@) {
            Some((y, m, d)) => Some((y, m, d, 0, 0, 0, 0)),
            None => None,
        },
    }
}

/// Reads a stored `sent_at` value (see [`sent_at_of`]); an unreadable value
/// gives the message `Invalid sent_at: <s>`.
pub fn parse_sent_at(s: &str) -> (r: Result<DateTime, String>)
    ensures
        match sent_at_of(s@) {
            Some(t) => r matches Ok(dt) && dt@ == t,
            None => r matches Err(e) && e@ == "Invalid sent_at: "@ + s@,
        },
{
    match DateTime::parse_from_str(s, "%Y-%m-%d %H:%M:%S") {
        Some(dt) => Ok(dt),
        None => match Date::parse_from_str(s, "%Y-%m-%d") {
            Some(d) => Ok(DateTime::midnight(d)),
            None => {
                proof { reveal_strlit("Invalid sent_at: "); }
                Err(concat2("Invalid sent_at: ", s))
            },
        },
    }
}

/// A row of the `notice_sent` table as read back.
pub struct UnsentRow {
    pub id: i64,
    pub main_category: String,
    pub external_id: String,
    pub published_date: Option<Date>,
    pub title: String,
    pub body: Option<String>,
    pub sent_at: String,
    pub sent_ok: i64,
}

/// Why a stored row does not read back as a notice: its category, then its
/// `sent_at`, is checked.
pub open spec fn row_error(row: UnsentRow) -> Option<Seq<char>> {
    if category_of_name(row.main_category@) is None {
        Some("Invalid category: "@ + row.main_category@)
    } else if sent_at_of(row.sent_at@) is None {
        Some("Invalid sent_at: "@ + row.sent_at@)
    } else {
        None
    }
}

/// `n` is the notice that the readable row `row` holds (integers narrowed to
/// 32 bits as `as` does).
pub open spec fn notice_of_row(n: NoticeSent, row: UnsentRow) -> bool {
    &&& n.id == row.id as i32
    &&& Some(n.main_category) == category_of_name(row.main_category@)
    &&& n.external_id == row.external_id
    &&& n.published_date == row.published_date
    &&& n.title == row.title
    &&& n.body == row.body
    &&& Some(n.sent_at@) == sent_at_of(row.sent_at@)
    &&& n.sent_ok == row.sent_ok as i32
}

/// Reading a stored row back keeps what was stored: the notice read from a
/// readable row has the row's external id, publication date, title and
/// body, unchanged, and the category the row names.
pub proof fn lemma_row_reads_back(n: NoticeSent, row: UnsentRow)
    requires
        row_error(row) is None,
        notice_of_row(n, row),
    ensures
        n.body == row.body,
        n.title == row.title,
        n.external_id == row.external_id,
        n.published_date == row.published_date,
        category_name(n.main_category) == row.main_category@,
        row.body is Some ==> n.body is Some && n.body->0@ == row.body->0@,
{
    crate::entity::lemma_category_parse_exact(row.main_category@);
}

fn clone_opt_string(o: &Option<String>) -> (r: Option<String>)
    ensures
        r == *o,
{
    match o {
        Some(s) => Some(s.clone()),
        None => None,
    }
}

/// The notice that a stored row holds, or the message of what is wrong with it.
pub fn notice_from_row(row: &UnsentRow) -> (r: Result<NoticeSent, String>)
    ensures
        match row_error(*row) {
            Some(e) => r matches Err(m) && m@ == e,
            None => r matches Ok(n) && notice_of_row(n, *row),
        },
{
    let main_category = match Category::parse(row.main_category.as_str()) {
        Ok(c) => c,
        Err(e) => return Err(e),
    };
    let sent_at = match parse_sent_at(row.sent_at.as_str()) {
        Ok(t) => t,
        Err(e) => return Err(e),
    };
    Ok(NoticeSent {
        id: row.id as i32,
        main_category,
        external_id: row.external_id.clone(),
        published_date: row.published_date,
        title: row.title.clone(),
        body: clone_opt_string(&row.body),
        sent_at,
        sent_ok: row.sent_ok as i32,
    })
}

/// Position of the first unreadable row.
pub open spec fn first_bad_row(rows: Seq<UnsentRow>) -> Option<int> {
    if exists|k: int| 0 <= k < rows.len() && row_error(#[trigger] rows[k]) is Some {
        Some(choose|k: int| 0 <= k < rows.len() && row_error(#[trigger] rows[k]) is Some
            && forall|m: int| 0 <= m < k ==> row_error(#[trigger] rows[m]) is None)
    } else {
        None
    }
}

proof fn lemma_first_bad_row(rows: Seq<UnsentRow>, k: int)
    requires
        0 <= k < rows.len(),
        row_error(rows[k]) is Some,
        forall|m: int| 0 <= m < k ==> row_error(#[trigger] rows[m]) is None,
    ensures
        first_bad_row(rows) == Some(k),
{
    let j = choose|j: int| 0 <= j < rows.len() && row_error(#[trigger] rows[j]) is Some
        && forall|m: int| 0 <= m < j ==> row_error(#[trigger] rows[m]) is None;
    assert(0 <= j < rows.len() && row_error(rows[j]) is Some
        && forall|m: int| 0 <= m < j ==> row_error(#[trigger] rows[m]) is None);
    if j < k {
        assert(row_error(rows[j]) is None);
    } else if j > k {
        assert(row_error(rows[k]) is None);
    }
}

/// The notices that stored rows hold, in order; the first unreadable row
/// makes the whole read fail with its message.
pub fn notices_from_rows(rows: &Vec<UnsentRow>) -> (r: Result<Vec<NoticeSent>, String>)
    ensures
        match first_bad_row(rows@) {
            Some(k) => r matches Err(m) && Some(m@) == row_error(rows@[k]),
            None => r matches Ok(v) && v@.len() == rows@.len()
                && forall|k: int| 0 <= k < v@.len() ==> notice_of_row(#[trigger] v@[k], rows@[k]),
        },
{
    let mut out: Vec<NoticeSent> = Vec::new();
    let mut k: usize = 0;
    while k < rows.len()
        invariant
            k <= rows@.len(),
            out@.len() == k,
            forall|m: int| 0 <= m < k ==> row_error(#[trigger] rows@[m]) is None,
            forall|m: int| 0 <= m < k ==> notice_of_row(#[trigger] out@[m], rows@[m]),
        decreases rows@.len() - k,
    {
        match notice_from_row(&rows[k]) {
            Ok(n) => out.push(n),
            Err(e) => {
                proof { lemma_first_bad_row(rows@, k as int); }
                return Err(e);
            },
        }
        k = k + 1;
    }
    proof {
        if first_bad_row(rows@) is Some {
            let j = choose|j: int| 0 <= j < rows@.len() && row_error(#[trigger] rows@[j]) is Some;
            assert(row_error(rows@[j]) is None);
        }
    }
    Ok(out)
}

/// The key of a stored notice: its category name and its external id.
pub struct NoticeKey {
    pub category: String,
    pub external_id: String,
}

/// The key of a notice, as values.
pub open spec fn key_of(n: NoticeSent) -> (Seq<char>, Seq<char>) {
    (category_name(n.main_category), n.external_id@)
}

/// The key by which a notice's row is found (also used to mark it sent).
pub fn notice_key(n: &NoticeSent) -> (r: NoticeKey)
    ensures
        (r.category@, r.external_id@) == key_of(*n),
{
    NoticeKey { category: n.main_category.to_string(), external_id: n.external_id.clone() }
}

/// The values written when a notice is stored (`sent_ok` starts at 0 and
/// `sent_at` takes the database's current time).
pub struct NewRow {
    pub main_category: String,
    pub external_id: String,
    pub published_date: Option<Date>,
    pub title: String,
    pub body: Option<String>,
}

/// The next step of storing a notice.
pub enum InsertAction {
    /// Look the key up in the table.
    LookUp(NoticeKey),
    /// Store the row; the notice is then newly stored.
    Insert(NewRow),
    /// Nothing more to do; whether the notice was newly stored.
    Finish(bool),
}

/// The step of storing `notice` once `looked_up` is known: before the
/// look-up (`None`), a notice that fails the filter is finished unstored and
/// any other is looked up by its key; a notice found stored is finished
/// unstored; one not found is inserted.
pub fn insert_step(notice: &NoticeSent, config: &Config, looked_up: Option<bool>) -> (r: InsertAction)
    ensures
        match looked_up {
            None => if passes_filter(*notice, config.filter) {
                r matches InsertAction::LookUp(k) && (k.category@, k.external_id@) == key_of(*notice)
            } else {
                r == InsertAction::Finish(false)
            },
            Some(true) => r == InsertAction::Finish(false),
            Some(false) => r matches InsertAction::Insert(row) && {
                &&& row.main_category@ == category_name(notice.main_category)
                &&& row.external_id == notice.external_id
                &&& row.published_date == notice.published_date
                &&& row.title == notice.title
                &&& row.body == notice.body
            },
        },
{
    match looked_up {
        None => {
            if filter_notice(notice, config) {
                InsertAction::LookUp(notice_key(notice))
            } else {
                InsertAction::Finish(false)
            }
        },
        Some(true) => InsertAction::Finish(false),
        Some(false) => InsertAction::Insert(NewRow {
            main_category: notice.main_category.to_string(),
            external_id: notice.external_id.clone(),
            published_date: notice.published_date,
            title: notice.title.clone(),
            body: clone_opt_string(&notice.body),
        }),
    }
}

/// Storing a notice into a table that holds the keys `stored`: whether it is
/// newly stored, and the keys afterwards.
pub open spec fn store_notice(stored: Set<(Seq<char>, Seq<char>)>, n: NoticeSent, filter: Option<Vec<String>>)
    -> (bool, Set<(Seq<char>, Seq<char>)>)
{
    if !passes_filter(n, filter) {
        (false, stored)
    } else if stored.contains(key_of(n)) {
        (false, stored)
    } else {
        (true, stored.insert(key_of(n)))
    }
}

/// A notice that was just stored is not stored again: storing it a second
/// time reports `false` and leaves the table as it was.
pub proof fn lemma_store_twice(stored: Set<(Seq<char>, Seq<char>)>, n: NoticeSent, filter: Option<Vec<String>>)
    ensures
        store_notice(store_notice(stored, n, filter).1, n, filter).0 == false,
        store_notice(store_notice(stored, n, filter).1, n, filter).1 == store_notice(stored, n, filter).1,
{
}

/// Notices with the same category and external id share one row: once one
/// is stored, the other is not stored.
pub proof fn lemma_same_key_stored_once(
    stored: Set<(Seq<char>, Seq<char>)>,
    a: NoticeSent,
    b: NoticeSent,
    filter: Option<Vec<String>>,
)
    requires
        key_of(a) == key_of(b),
    ensures
        store_notice(store_notice(stored, a, filter).1, b, filter).0 ==> !store_notice(stored, a, filter).0,
{
}

/// A notice is newly stored exactly when it passes the filter and its key is
/// not yet in the table; storing adds its key, and nothing else changes.
pub proof fn lemma_store_notice_cases(stored: Set<(Seq<char>, Seq<char>)>, n: NoticeSent, filter: Option<Vec<String>>)
    ensures
        store_notice(stored, n, filter).0 <==> (passes_filter(n, filter) && !stored.contains(key_of(n))),
        store_notice(stored, n, filter).0 ==> store_notice(stored, n, filter).1 == stored.insert(key_of(n)),
        !store_notice(stored, n, filter).0 ==> store_notice(stored, n, filter).1 == stored,
{
}

/// Notices built from the same date text and title in the same category
/// share their key, whatever their content and sending time: the one that is
/// stored second is refused (see [`lemma_same_key_stored_once`]).
pub proof fn lemma_same_source_same_key(
    a: NoticeSent,
    b: NoticeSent,
    date: Option<Seq<char>>,
    title: Seq<char>,
    content_a: Option<Seq<char>>,
    content_b: Option<Seq<char>>,
    category: Category,
)
    requires
        built_from(a, date, title, content_a, category),
        built_from(b, date, title, content_b, category),
    ensures
        key_of(a) == key_of(b),
{
}

} // verus!
