use vstd::prelude::*;

verus! {

/// A value bound to a placeholder of a statement.
#[derive(Clone, Debug)]
pub enum Bind {
    Int(i64),
    Text(String),
}

/// SQL text with `$1`, `$2`, ... placeholders and the values bound to them, in order.
/// Values supplied by a caller never stand in the text.
#[derive(Clone, Debug)]
pub struct Statement {
    pub sql: String,
    pub binds: Vec<Bind>,
}

/// Whether `b` is the integer `n`.
pub open spec fn binds_int(b: Bind, n: int) -> bool {
    b matches Bind::Int(x) && x == n
}

/// Whether `b` is the text `t`.
pub open spec fn binds_text(b: Bind, t: Seq<char>) -> bool {
    b matches Bind::Text(x) && x@ == t
}

/// The tables whose rows can be counted.
#[derive(Clone, Copy, Debug, PartialEq, Eq, Structural)]
pub enum Table {
    Users,
    AccessLogs,
}

/// The name of a table in the store.
pub open spec fn table_name(t: Table) -> Seq<char> {
    match t {
        Table::Users => "users"@,
        Table::AccessLogs => "access_logs"@,
    }
}

/// Whether two strings hold the same characters.
fn same_text(a: &str, b: &str) -> (r: bool)
    ensures
        r == (a@ == b@),
{
    let n = a.unicode_len();
    if n != b.unicode_len() {
        return false;
    }
    let mut i: usize = 0;
    while i < n
        invariant
            n == a@.len(),
            n == b@.len(),
            i <= n,
            forall|j: int| 0 <= j < i ==> a@[j] == b@[j],
        decreases n - i,
    {
        if a.get_char(i) != b.get_char(i) {
            return false;
        }
        i = i + 1;
    }
    assert(a@ =~= b@);
    true
}

impl Table {
    /// The table named `name`; `None` for any name outside the known tables.
    pub fn from_name(name: &str) -> (r: Option<Table>)
        ensures
            r matches Some(t) ==> table_name(t) == name@,
            r is None ==> name@ != table_name(Table::Users) && name@ != table_name(Table::AccessLogs),
    {
        if same_text(name, "users") {
            Some(Table::Users)
        } else if same_text(name, "access_logs") {
            Some(Table::AccessLogs)
        } else {
            None
        }
    }
}

/// Counts the rows of a table.
pub open spec fn count_sql(t: Table) -> Seq<char> {
    match t {
        Table::Users => "SELECT COUNT(id) FROM users"@,
        Table::AccessLogs => "SELECT COUNT(id) FROM access_logs"@,
    }
}

/// One page of users by ascending id; binds the page size, then the offset.
pub open spec fn users_page_sql() -> Seq<char> {
    "SELECT id, full_name, rf_id, created_at, updated_at FROM users ORDER BY id ASC LIMIT $1 OFFSET $2"@
}

/// One page of access events joined with their badge holders by ascending id;
/// events whose badge matches no user are left out. Binds the page size, then the offset.
pub open spec fn access_logs_page_sql() -> Seq<char> {
    "SELECT m.id, u.full_name, m.current_state, m.rf_id, m.created_at, m.updated_at FROM access_logs AS m INNER JOIN users AS u ON m.rf_id = u.rf_id ORDER BY m.id ASC LIMIT $1 OFFSET $2"@
}

/// Every user whose name or badge matches the pattern bound to `$1`, by ascending id.
pub open spec fn users_search_sql() -> Seq<char> {
    "SELECT id, full_name, rf_id, created_at, updated_at FROM users WHERE full_name LIKE $1 OR rf_id LIKE $1 ORDER BY id ASC"@
}

/// Every joined access event whose badge or holder's name matches the pattern
/// bound to `$1`, by ascending id.
pub open spec fn access_logs_search_sql() -> Seq<char> {
    "SELECT m.id, u.full_name, m.current_state, m.rf_id, m.created_at, m.updated_at FROM access_logs AS m INNER JOIN users AS u ON m.rf_id = u.rf_id WHERE m.rf_id LIKE $1 OR u.full_name LIKE $1 ORDER BY m.id ASC"@
}

/// Whether `c` has a meaning of its own in a `LIKE` pattern.
pub open spec fn is_like_special(c: char) -> bool {
    c == '%' || c == '_' || c == '\\'
}

/// The pattern that matches the character `c` literally.
pub open spec fn escaped_char(c: char) -> Seq<char> {
    if is_like_special(c) { seq!['\\', c] } else { seq![c] }
}

/// `q` with each `%`, `_` and `\` preceded by `\`, so that `LIKE` reads every
/// character of `q` literally.
pub open spec fn like_escaped(q: Seq<char>) -> Seq<char>
    decreases q.len(),
{
    if q.len() == 0 {
        Seq::empty()
    } else {
        like_escaped(q.drop_last()) + escaped_char(q.last())
    }
}

/// The `LIKE` pattern that matches every text holding `q` as a substring.
pub open spec fn contains_pattern(q: Seq<char>) -> Seq<char> {
    seq!['%'] + like_escaped(q) + seq!['%']
}

/// The `LIKE` pattern matching texts that hold `q`.
pub fn substring_pattern(q: &str) -> (r: String)
    ensures
        r@ == contains_pattern(q@),
{
    proof {
        reveal_strlit("%");
        reveal_strlit("\\");
        assert("%"@ =~= seq!['%']);
        assert("\\"@ =~= seq!['\\']);
    }
    let n = q.unicode_len();
    let mut r = String::from_str("%");
    let mut i: usize = 0;
    while i < n
        invariant
            n == q@.len(),
            i <= n,
            r@ == seq!['%'] + like_escaped(q@.subrange(0, i as int)),
            "%"@ == seq!['%'],
            "\\"@ == seq!['\\'],
        decreases n - i,
    {
        let c = q.get_char(i);
        let ghost prefix = q@.subrange(0, i as int + 1);
        assert(prefix.drop_last() =~= q@.subrange(0, i as int));
        assert(prefix.last() == c);
        let ghost before = r@;
        if c == '%' || c == '_' || c == '\\' {
            r.append("\\");
        }
        r.append(q.substring_char(i, i + 1));
        assert(q@.subrange(i as int, i as int + 1) =~= seq![c]);
        assert(r@ =~= before + escaped_char(c));
        assert(r@ =~= seq!['%'] + like_escaped(prefix));
        i = i + 1;
    }
    assert(q@.subrange(0, n as int) =~= q@);
    r.append("%");
    r
}

/// Counts the rows of `t`.
pub fn count_rows(t: Table) -> (r: Statement)
    ensures
        r.sql@ == count_sql(t),
        r.binds@.len() == 0,
{
    let sql = match t {
        Table::Users => String::from_str("SELECT COUNT(id) FROM users"),
        Table::AccessLogs => String::from_str("SELECT COUNT(id) FROM access_logs"),
    };
    Statement { sql, binds: Vec::new() }
}

/// One page of users, `limit` rows from `offset` on.
pub fn list_users(limit: i32, offset: i32) -> (r: Statement)
    ensures
        r.sql@ == users_page_sql(),
        r.binds@.len() == 2,
        binds_int(r.binds@[0], limit as int),
        binds_int(r.binds@[1], offset as int),
{
    let sql = String::from_str(
        "SELECT id, full_name, rf_id, created_at, updated_at FROM users ORDER BY id ASC LIMIT $1 OFFSET $2",
    );
    let mut binds: Vec<Bind> = Vec::new();
    binds.push(Bind::Int(limit as i64));
    binds.push(Bind::Int(offset as i64));
    Statement { sql, binds }
}

/// One page of joined access events, `limit` rows from `offset` on.
pub fn list_access_logs(limit: i32, offset: i32) -> (r: Statement)
    ensures
        r.sql@ == access_logs_page_sql(),
        r.binds@.len() == 2,
        binds_int(r.binds@[0], limit as int),
        binds_int(r.binds@[1], offset as int),
{
    let sql = String::from_str(
        "SELECT m.id, u.full_name, m.current_state, m.rf_id, m.created_at, m.updated_at FROM access_logs AS m INNER JOIN users AS u ON m.rf_id = u.rf_id ORDER BY m.id ASC LIMIT $1 OFFSET $2",
    );
    let mut binds: Vec<Bind> = Vec::new();
    binds.push(Bind::Int(limit as i64));
    binds.push(Bind::Int(offset as i64));
    Statement { sql, binds }
}

/// Every user whose name or badge holds `q`.
pub fn search_users(q: &str) -> (r: Statement)
    ensures
        r.sql@ == users_search_sql(),
        r.binds@.len() == 1,
        binds_text(r.binds@[0], contains_pattern(q@)),
{
    let sql = String::from_str(
        "SELECT id, full_name, rf_id, created_at, updated_at FROM users WHERE full_name LIKE $1 OR rf_id LIKE $1 ORDER BY id ASC",
    );
    let mut binds: Vec<Bind> = Vec::new();
    binds.push(Bind::Text(substring_pattern(q)));
    Statement { sql, binds }
}

/// Every joined access event whose badge or holder's name holds `q`.
pub fn search_access_logs(q: &str) -> (r: Statement)
    ensures
        r.sql@ == access_logs_search_sql(),
        r.binds@.len() == 1,
        binds_text(r.binds@[0], contains_pattern(q@)),
{
    let sql = String::from_str(
        "SELECT m.id, u.full_name, m.current_state, m.rf_id, m.created_at, m.updated_at FROM access_logs AS m INNER JOIN users AS u ON m.rf_id = u.rf_id WHERE m.rf_id LIKE $1 OR u.full_name LIKE $1 ORDER BY m.id ASC",
    );
    let mut binds: Vec<Bind> = Vec::new();
    binds.push(Bind::Text(substring_pattern(q)));
    Statement { sql, binds }
}

/// Whether the text `t` matches the `LIKE` pattern `p`: `%` matches any run of
/// characters, `_` any one character, `\` makes the next character literal, and
/// every other character matches itself.
pub open spec fn like_matches(p: Seq<char>, t: Seq<char>) -> bool
    decreases p.len(), t.len(),
{
    if p.len() == 0 {
        t.len() == 0
    } else if p[0] == '%' {
        like_matches(p.drop_first(), t) || (t.len() > 0 && like_matches(p, t.drop_first()))
    } else if p[0] == '_' {
        t.len() > 0 && like_matches(p.drop_first(), t.drop_first())
    } else if p[0] == '\\' && p.len() >= 2 {
        t.len() > 0 && t[0] == p[1] && like_matches(p.subrange(2, p.len() as int), t.drop_first())
    } else {
        t.len() > 0 && t[0] == p[0] && like_matches(p.drop_first(), t.drop_first())
    }
}

/// Whether `q` occurs in `t` as a run of consecutive characters.
pub open spec fn is_substring(q: Seq<char>, t: Seq<char>) -> bool {
    exists|k: int| 0 <= k && k + q.len() <= t.len() && #[trigger] t.subrange(k, k + q.len()) == q
}

proof fn lemma_escaped_first(q: Seq<char>)
    requires
        q.len() > 0,
    ensures
        like_escaped(q) == escaped_char(q[0]) + like_escaped(q.drop_first()),
    decreases q.len(),
{
    if q.len() == 1 {
        assert(q.drop_last() =~= Seq::<char>::empty());
        assert(q.drop_first() =~= Seq::<char>::empty());
        assert(like_escaped(q) =~= escaped_char(q[0]));
        assert(like_escaped(q.drop_first()) =~= Seq::<char>::empty());
        assert(escaped_char(q[0]) + Seq::<char>::empty() =~= escaped_char(q[0]));
    } else {
        lemma_escaped_first(q.drop_last());
        assert(q.drop_last().drop_first() =~= q.drop_first().drop_last());
        assert(q.drop_first().last() == q.last());
        assert(like_escaped(q.drop_first())
            == like_escaped(q.drop_first().drop_last()) + escaped_char(q.drop_first().last()));
        assert(like_escaped(q) =~= escaped_char(q[0]) + like_escaped(q.drop_first()));
    }
}

proof fn lemma_percent_matches_all(t: Seq<char>)
    ensures
        like_matches(seq!['%'], t),
    decreases t.len(),
{
    let p = seq!['%'];
    assert(p.len() == 1 && p[0] == '%');
    assert(p.drop_first() =~= Seq::<char>::empty());
    if t.len() > 0 {
        lemma_percent_matches_all(t.drop_first());
        assert(like_matches(p, t.drop_first()));
    } else {
        assert(like_matches(p.drop_first(), t));
    }
}

proof fn lemma_escaped_prefix(q: Seq<char>, t: Seq<char>)
    ensures
        like_matches(like_escaped(q) + seq!['%'], t)
            <==> (q.len() <= t.len() && t.subrange(0, q.len() as int) == q),
    decreases q.len(),
{
    if q.len() == 0 {
        assert(like_escaped(q) + seq!['%'] =~= seq!['%']);
        lemma_percent_matches_all(t);
        assert(t.subrange(0, 0) =~= q);
    } else {
        let c = q[0];
        let rest = q.drop_first();
        let tail = like_escaped(rest) + seq!['%'];
        lemma_escaped_first(q);
        lemma_escaped_prefix(rest, t.drop_first());
        let p = like_escaped(q) + seq!['%'];
        assert(p =~= escaped_char(c) + tail);
        if is_like_special(c) {
            assert(p[0] == '\\' && p[1] == c);
            assert(p.subrange(2, p.len() as int) =~= tail);
        } else {
            assert(p[0] == c);
            assert(p.drop_first() =~= tail);
        }
        if q.len() <= t.len() && t.len() > 0 {
            assert(t.subrange(0, q.len() as int) == q <==> (t[0] == c
                && t.drop_first().subrange(0, rest.len() as int) == rest)) by {
                if t.subrange(0, q.len() as int) == q {
                    assert(t.drop_first().subrange(0, rest.len() as int) =~= rest);
                }
                if t[0] == c && t.drop_first().subrange(0, rest.len() as int) == rest {
                    assert forall|i: int| 0 <= i < q.len() implies t.subrange(0, q.len() as int)[i] == q[i] by {
                        if i > 0 {
                            assert(t.drop_first().subrange(0, rest.len() as int)[i - 1] == rest[i - 1]);
                        }
                    }
                    assert(t.subrange(0, q.len() as int) =~= q);
                }
            }
        }
    }
}

proof fn lemma_leading_percent(p: Seq<char>, t: Seq<char>)
    ensures
        like_matches(seq!['%'] + p, t)
            <==> exists|k: int| 0 <= k <= t.len() && #[trigger] like_matches(p, t.subrange(k, t.len() as int)),
    decreases t.len(),
{
    let pp = seq!['%'] + p;
    assert(pp[0] == '%');
    assert(pp.drop_first() =~= p);
    assert(t.subrange(0, t.len() as int) =~= t);
    if t.len() > 0 {
        let u = t.drop_first();
        lemma_leading_percent(p, u);
        if like_matches(p, t) {
            assert(like_matches(p, t.subrange(0, t.len() as int)));
        }
        if like_matches(pp, u) {
            let k = choose|k: int| 0 <= k <= u.len() && #[trigger] like_matches(p, u.subrange(k, u.len() as int));
            assert(u.subrange(k, u.len() as int) =~= t.subrange(k + 1, t.len() as int));
            assert(like_matches(p, t.subrange(k + 1, t.len() as int)));
        }
        if exists|k: int| 0 <= k <= t.len() && #[trigger] like_matches(p, t.subrange(k, t.len() as int)) {
            let k = choose|k: int| 0 <= k <= t.len() && #[trigger] like_matches(p, t.subrange(k, t.len() as int));
            if k > 0 {
                assert(u.subrange(k - 1, u.len() as int) =~= t.subrange(k, t.len() as int));
                assert(like_matches(p, u.subrange(k - 1, u.len() as int)));
            }
        }
    } else {
        if exists|k: int| 0 <= k <= t.len() && #[trigger] like_matches(p, t.subrange(k, t.len() as int)) {
            let k = choose|k: int| 0 <= k <= t.len() && #[trigger] like_matches(p, t.subrange(k, t.len() as int));
            assert(k == 0);
        }
        if like_matches(p, t) {
            assert(like_matches(p, t.subrange(0, t.len() as int)));
        }
    }
}

/// The pattern that a search binds matches a text exactly when the text holds
/// the query as a substring, whatever `%`, `_` or `\` the query contains.
pub proof fn lemma_search_pattern_matches_substrings(q: Seq<char>, t: Seq<char>)
    ensures
        like_matches(contains_pattern(q), t) <==> is_substring(q, t),
{
    let tail = like_escaped(q) + seq!['%'];
    assert(contains_pattern(q) =~= seq!['%'] + tail);
    lemma_leading_percent(tail, t);
    if like_matches(contains_pattern(q), t) {
        let k = choose|k: int| 0 <= k <= t.len() && #[trigger] like_matches(tail, t.subrange(k, t.len() as int));
        let s = t.subrange(k, t.len() as int);
        lemma_escaped_prefix(q, s);
        assert(s.subrange(0, q.len() as int) =~= t.subrange(k, k + q.len()));
    }
    if is_substring(q, t) {
        let k = choose|k: int| 0 <= k && k + q.len() <= t.len() && #[trigger] t.subrange(k, k + q.len()) == q;
        let s = t.subrange(k, t.len() as int);
        lemma_escaped_prefix(q, s);
        assert(s.subrange(0, q.len() as int) =~= t.subrange(k, k + q.len()));
        assert(like_matches(tail, s));
    }
}

} // verus!
