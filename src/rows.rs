use vstd::prelude::*;

verus! {

/// Direction of a badge scan.
#[allow(non_camel_case_types)]
#[derive(Clone, Copy, Debug, PartialEq, Eq, Structural)]
pub enum CurrentState {
    IN,
    OUT,
}

/// The textual label of a scan direction.
pub open spec fn label_of(s: CurrentState) -> Seq<char> {
    match s {
        CurrentState::IN => "IN"@,
        CurrentState::OUT => "OUT"@,
    }
}

impl CurrentState {
    /// The label `IN` or `OUT`.
    pub fn label(&self) -> (r: String)
        ensures
            r@ == label_of(*self),
    {
        match self {
            CurrentState::IN => String::from_str("IN"),
            CurrentState::OUT => String::from_str("OUT"),
        }
    }
}

/// An instant in UTC: whole seconds since the Unix epoch and nanoseconds within the second.
#[derive(Clone, Copy, Debug, PartialEq, Eq, Structural)]
pub struct Timestamp {
    pub secs: i64,
    pub nanos: u32,
}

/// The canonical text of the UTC instant `secs`, `nanos`, or `None` where no
/// such instant can be represented.
pub uninterp spec fn utc_text(secs: int, nanos: int) -> Option<Seq<char>>;

/// The canonical text of a timestamp, as `format_utc` gives it.
pub open spec fn timestamp_text(t: Timestamp) -> Option<Seq<char>> {
    utc_text(t.secs as int, t.nanos as int)
}

/// Relies on chrono's `DateTime::<Utc>::from_timestamp` (none for an instant out of
/// range) and on the `Display` of `DateTime<Utc>` for the text of the instant.
#[verifier::external_body]
fn format_utc(secs: i64, nanos: u32) -> (r: Option<String>)
    ensures
        match r {
            Some(s) => utc_text(secs as int, nanos as int) == Some(s@),
            None => utc_text(secs as int, nanos as int) is None,
        },
{
    match chrono::DateTime::<chrono::Utc>::from_timestamp(secs, nanos) {
        Some(t) => Some(t.to_string()),
        None => None,
    }
}

/// A loosely typed value handed to the display layer.
#[derive(Clone, Debug)]
pub enum Cell {
    Text(String),
    Number(i64),
    Null,
}

/// Whether `c` is the text `t`, or null where there is no text.
pub open spec fn cell_holds_text(c: Cell, t: Option<Seq<char>>) -> bool {
    match t {
        Some(s) => c matches Cell::Text(x) && x@ == s,
        None => c is Null,
    }
}

/// Whether `c` is the number `n`.
pub open spec fn cell_holds_number(c: Cell, n: i64) -> bool {
    c matches Cell::Number(x) && x == n
}

/// A badge holder.
#[derive(Clone, Debug)]
pub struct User {
    pub id: i64,
    pub full_name: String,
    pub rf_id: String,
    pub created_at: Timestamp,
    pub updated_at: Timestamp,
}

/// A badge scan joined with the name of the badge holder.
#[derive(Clone, Debug)]
pub struct AccessLog {
    pub id: i64,
    pub rf_id: String,
    pub full_name: String,
    pub current_state: CurrentState,
    pub created_at: Timestamp,
    pub updated_at: Timestamp,
}

/// Whether `rec` is the record of `u`: `id`, `full_name`, `rf_id`, `created_at`,
/// `updated_at` in this order, the timestamps given by the texts `created` and `updated`.
pub open spec fn user_record(
    u: User,
    created: Option<Seq<char>>,
    updated: Option<Seq<char>>,
    rec: Seq<(String, Cell)>,
) -> bool {
    &&& rec.len() == 5
    &&& rec[0].0@ == "id"@ && cell_holds_number(rec[0].1, u.id)
    &&& rec[1].0@ == "full_name"@ && cell_holds_text(rec[1].1, Some(u.full_name@))
    &&& rec[2].0@ == "rf_id"@ && cell_holds_text(rec[2].1, Some(u.rf_id@))
    &&& rec[3].0@ == "created_at"@ && cell_holds_text(rec[3].1, created)
    &&& rec[4].0@ == "updated_at"@ && cell_holds_text(rec[4].1, updated)
}

/// Whether `rec` is the record of `a`: `id`, `full_name`, `current_state`, `rf_id`,
/// `created_at`, `updated_at` in this order, the timestamps given by `created` and `updated`.
pub open spec fn access_log_record(
    a: AccessLog,
    created: Option<Seq<char>>,
    updated: Option<Seq<char>>,
    rec: Seq<(String, Cell)>,
) -> bool {
    &&& rec.len() == 6
    &&& rec[0].0@ == "id"@ && cell_holds_number(rec[0].1, a.id)
    &&& rec[1].0@ == "full_name"@ && cell_holds_text(rec[1].1, Some(a.full_name@))
    &&& rec[2].0@ == "current_state"@ && cell_holds_text(rec[2].1, Some(label_of(a.current_state)))
    &&& rec[3].0@ == "rf_id"@ && cell_holds_text(rec[3].1, Some(a.rf_id@))
    &&& rec[4].0@ == "created_at"@ && cell_holds_text(rec[4].1, created)
    &&& rec[5].0@ == "updated_at"@ && cell_holds_text(rec[5].1, updated)
}

/// The text cell of `t`, or null.
fn text_cell(t: Option<String>) -> (r: Cell)
    ensures
        cell_holds_text(r, match t { Some(s) => Some(s@), None => None }),
{
    match t {
        Some(s) => Cell::Text(s),
        None => Cell::Null,
    }
}

/// Projects a user given the texts of its two timestamps.
pub fn project_user_with(u: &User, created: Option<String>, updated: Option<String>) -> (r: Vec<(String, Cell)>)
    ensures
        user_record(
            *u,
            match created { Some(s) => Some(s@), None => None },
            match updated { Some(s) => Some(s@), None => None },
            r@,
        ),
{
    let mut r: Vec<(String, Cell)> = Vec::new();
    r.push((String::from_str("id"), Cell::Number(u.id)));
    r.push((String::from_str("full_name"), Cell::Text(u.full_name.clone())));
    r.push((String::from_str("rf_id"), Cell::Text(u.rf_id.clone())));
    r.push((String::from_str("created_at"), text_cell(created)));
    r.push((String::from_str("updated_at"), text_cell(updated)));
    r
}

/// Projects a user into its record, timestamps as their canonical UTC text.
pub fn project_user(u: &User) -> (r: Vec<(String, Cell)>)
    ensures
        user_record(*u, timestamp_text(u.created_at), timestamp_text(u.updated_at), r@),
{
    let created = format_utc(u.created_at.secs, u.created_at.nanos);
    let updated = format_utc(u.updated_at.secs, u.updated_at.nanos);
    project_user_with(u, created, updated)
}

/// Projects an access event given the texts of its two timestamps.
pub fn project_access_log_with(a: &AccessLog, created: Option<String>, updated: Option<String>) -> (r: Vec<(String, Cell)>)
    ensures
        access_log_record(
            *a,
            match created { Some(s) => Some(s@), None => None },
            match updated { Some(s) => Some(s@), None => None },
            r@,
        ),
{
    let mut r: Vec<(String, Cell)> = Vec::new();
    r.push((String::from_str("id"), Cell::Number(a.id)));
    r.push((String::from_str("full_name"), Cell::Text(a.full_name.clone())));
    r.push((String::from_str("current_state"), Cell::Text(a.current_state.label())));
    r.push((String::from_str("rf_id"), Cell::Text(a.rf_id.clone())));
    r.push((String::from_str("created_at"), text_cell(created)));
    r.push((String::from_str("updated_at"), text_cell(updated)));
    r
}

/// Projects an access event into its record, timestamps as their canonical UTC text.
pub fn project_access_log(a: &AccessLog) -> (r: Vec<(String, Cell)>)
    ensures
        access_log_record(*a, timestamp_text(a.created_at), timestamp_text(a.updated_at), r@),
{
    let created = format_utc(a.created_at.secs, a.created_at.nanos);
    let updated = format_utc(a.updated_at.secs, a.updated_at.nanos);
    project_access_log_with(a, created, updated)
}

/// The id carried by the first cell of a record.
pub open spec fn record_id(rec: Seq<(String, Cell)>) -> int {
    match rec[0].1 {
        Cell::Number(n) => n as int,
        _ => 0,
    }
}

/// Records projected from users listed in strictly ascending id order carry
/// strictly ascending ids, and no rows give no records.
pub proof fn lemma_user_records_keep_id_order(rows: Seq<User>, recs: Seq<Vec<(String, Cell)>>)
    requires
        recs.len() == rows.len(),
        forall|i: int|
            0 <= i < rows.len() ==> user_record(
                rows[i],
                timestamp_text(rows[i].created_at),
                timestamp_text(rows[i].updated_at),
                #[trigger] recs[i]@,
            ),
        forall|i: int, j: int| 0 <= i < j < rows.len() ==> rows[i].id < rows[j].id,
    ensures
        forall|i: int, j: int|
            0 <= i < j < recs.len() ==> record_id(#[trigger] recs[i]@) < record_id(#[trigger] recs[j]@),
        rows.len() == 0 ==> recs.len() == 0,
{
    assert forall|i: int, j: int| 0 <= i < j < recs.len() implies record_id(#[trigger] recs[i]@) < record_id(
        #[trigger] recs[j]@,
    ) by {
        assert(user_record(rows[i], timestamp_text(rows[i].created_at), timestamp_text(rows[i].updated_at), recs[i]@));
        assert(user_record(rows[j], timestamp_text(rows[j].created_at), timestamp_text(rows[j].updated_at), recs[j]@));
    }
}

/// Records projected from access events listed in strictly ascending id order
/// carry strictly ascending ids, and no rows give no records.
pub proof fn lemma_access_log_records_keep_id_order(rows: Seq<AccessLog>, recs: Seq<Vec<(String, Cell)>>)
    requires
        recs.len() == rows.len(),
        forall|i: int|
            0 <= i < rows.len() ==> access_log_record(
                rows[i],
                timestamp_text(rows[i].created_at),
                timestamp_text(rows[i].updated_at),
                #[trigger] recs[i]@,
            ),
        forall|i: int, j: int| 0 <= i < j < rows.len() ==> rows[i].id < rows[j].id,
    ensures
        forall|i: int, j: int|
            0 <= i < j < recs.len() ==> record_id(#[trigger] recs[i]@) < record_id(#[trigger] recs[j]@),
        rows.len() == 0 ==> recs.len() == 0,
{
    assert forall|i: int, j: int| 0 <= i < j < recs.len() implies record_id(#[trigger] recs[i]@) < record_id(
        #[trigger] recs[j]@,
    ) by {
        assert(access_log_record(rows[i], timestamp_text(rows[i].created_at), timestamp_text(rows[i].updated_at), recs[i]@));
        assert(access_log_record(rows[j], timestamp_text(rows[j].created_at), timestamp_text(rows[j].updated_at), recs[j]@));
    }
}

/// Projects users in the order given: record `i` is that of row `i`.
pub fn project_users(rows: &Vec<User>) -> (r: Vec<Vec<(String, Cell)>>)
    ensures
        r@.len() == rows@.len(),
        forall|i: int|
            0 <= i < rows@.len() ==> user_record(
                rows@[i],
                timestamp_text(rows@[i].created_at),
                timestamp_text(rows@[i].updated_at),
                #[trigger] r@[i]@,
            ),
{
    let mut r: Vec<Vec<(String, Cell)>> = Vec::new();
    let mut i: usize = 0;
    while i < rows.len()
        invariant
            i <= rows@.len(),
            r@.len() == i,
            forall|j: int|
                0 <= j < i ==> user_record(
                    rows@[j],
                    timestamp_text(rows@[j].created_at),
                    timestamp_text(rows@[j].updated_at),
                    #[trigger] r@[j]@,
                ),
        decreases rows@.len() - i,
    {
        r.push(project_user(&rows[i]));
        i = i + 1;
    }
    r
}

/// Projects access events in the order given: record `i` is that of row `i`.
pub fn project_access_logs(rows: &Vec<AccessLog>) -> (r: Vec<Vec<(String, Cell)>>)
    ensures
        r@.len() == rows@.len(),
        forall|i: int|
            0 <= i < rows@.len() ==> access_log_record(
                rows@[i],
                timestamp_text(rows@[i].created_at),
                timestamp_text(rows@[i].updated_at),
                #[trigger] r@[i]@,
            ),
{
    let mut r: Vec<Vec<(String, Cell)>> = Vec::new();
    let mut i: usize = 0;
    while i < rows.len()
        invariant
            i <= rows@.len(),
            r@.len() == i,
            forall|j: int|
                0 <= j < i ==> access_log_record(
                    rows@[j],
                    timestamp_text(rows@[j].created_at),
                    timestamp_text(rows@[j].updated_at),
                    #[trigger] r@[j]@,
                ),
        decreases rows@.len() - i,
    {
        r.push(project_access_log(&rows[i]));
        i = i + 1;
    }
    r
}

} // verus!
