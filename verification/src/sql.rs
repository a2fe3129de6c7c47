//! The SQL statements of the searches: their text, and the values bound to
//! their numbered placeholders, in order.
use crate::bookmark::{tag_update, TagUpdateMode};
use crate::model::{BookmarkTaskSearchRequest, BookmarkTaskStatus, SearchRequest, TagFilter, TagOperation};
use crate::tags::normalized_tags;
use crate::tags::texts;
use vstd::prelude::*;

verus! {

/// The decimal digit for a value below ten.
pub open spec fn digit_char(d: nat) -> char {
    (d + 48) as char
}

/// The decimal notation of a natural number, without leading zeros.
pub open spec fn decimal(n: nat) -> Seq<char>
    decreases n,
{
    if n < 10 {
        seq![digit_char(n)]
    } else {
        decimal(n / 10).push(digit_char(n % 10))
    }
}

/// The decimal notation of an integer, with a minus sign when negative.
pub open spec fn signed_decimal(i: int) -> Seq<char> {
    if i < 0 {
        seq!['-'] + decimal((-i) as nat)
    } else {
        decimal(i as nat)
    }
}

fn digit_text(d: u64) -> (r: &'static str)
    requires
        d < 10,
    ensures
        r@ == seq![digit_char(d as nat)],
{
    proof {
        reveal_strlit("0");
        reveal_strlit("1");
        reveal_strlit("2");
        reveal_strlit("3");
        reveal_strlit("4");
        reveal_strlit("5");
        reveal_strlit("6");
        reveal_strlit("7");
        reveal_strlit("8");
        reveal_strlit("9");
    }
    match d {
        0 => "0",
        1 => "1",
        2 => "2",
        3 => "3",
        4 => "4",
        5 => "5",
        6 => "6",
        7 => "7",
        8 => "8",
        _ => "9",
    }
}

/// Writes a natural number in decimal.
pub fn format_decimal(n: u64) -> (r: String)
    ensures
        r@ == decimal(n as nat),
    decreases n,
{
    if n < 10 {
        String::from_str(digit_text(n))
    } else {
        let mut s = format_decimal(n / 10);
        s.append(digit_text(n % 10));
        s
    }
}

/// Writes an integer in decimal, with a minus sign when negative.
pub fn format_signed(i: i64) -> (r: String)
    requires
        i > i64::MIN,
    ensures
        r@ == signed_decimal(i as int),
{
    if i < 0 {
        let digits = format_decimal((-i) as u64);
        proof {
            reveal_strlit("-");
        }
        String::from_str("-").concat(digits.as_str())
    } else {
        format_decimal(i as u64)
    }
}

/// The placeholder of the value bound at the given position (from 1).
pub open spec fn placeholder(i: nat) -> Seq<char> {
    seq!['$'] + decimal(i)
}

fn format_placeholder(i: usize) -> (r: String)
    ensures
        r@ == placeholder(i as nat),
{
    proof {
        reveal_strlit("$");
    }
    String::from_str("$").concat(format_decimal(i as u64).as_str())
}

/// Texts joined with ` AND ` between each two.
pub open spec fn join_and(parts: Seq<Seq<char>>) -> Seq<char>
    decreases parts.len(),
{
    if parts.len() == 0 {
        Seq::empty()
    } else if parts.len() == 1 {
        parts[0]
    } else {
        join_and(parts.drop_last()) + " AND "@ + parts.last()
    }
}

fn join_with_and(parts: &Vec<String>) -> (r: String)
    ensures
        r@ == join_and(texts(parts@)),
{
    let ghost ps = texts(parts@);
    let mut r = String::new();
    let mut i: usize = 0;
    while i < parts.len()
        invariant
            0 <= i <= parts@.len(),
            ps == texts(parts@),
            r@ == join_and(ps.take(i as int)),
        decreases parts@.len() - i,
    {
        if i > 0 {
            r.append(" AND ");
        }
        r.append(parts[i].as_str());
        assert(ps.take(i + 1).drop_last() =~= ps.take(i as int));
        i = i + 1;
    }
    assert(ps.take(i as int) =~= ps);
    r
}

/// A value bound to a placeholder.
#[derive(Debug, Clone)]
pub enum SqlValue {
    Uuid(u128),
    Text(String),
    /// A text parameter that is `NULL`.
    NullText,
    TextArray(Vec<String>),
    /// A text array parameter that is `NULL`.
    NullTextArray,
    Status(BookmarkTaskStatus),
    /// An instant, in microseconds since the Unix epoch.
    Timestamp(i64),
}

/// A bound value, with texts taken by their characters.
pub enum SqlValueView {
    Uuid(u128),
    Text(Seq<char>),
    NullText,
    TextArray(Seq<Seq<char>>),
    NullTextArray,
    Status(BookmarkTaskStatus),
    Timestamp(i64),
}

impl View for SqlValue {
    type V = SqlValueView;

    open spec fn view(&self) -> SqlValueView {
        match self {
            SqlValue::Uuid(u) => SqlValueView::Uuid(*u),
            SqlValue::Text(t) => SqlValueView::Text(t@),
            SqlValue::NullText => SqlValueView::NullText,
            SqlValue::TextArray(v) => SqlValueView::TextArray(texts(v@)),
            SqlValue::NullTextArray => SqlValueView::NullTextArray,
            SqlValue::Status(s) => SqlValueView::Status(*s),
            SqlValue::Timestamp(t) => SqlValueView::Timestamp(*t),
        }
    }
}

/// The views of bound values, in order.
pub open spec fn values(params: Seq<SqlValue>) -> Seq<SqlValueView> {
    params.map_values(|v: SqlValue| v@)
}

/// A statement: its text and the values of its placeholders `$1`, `$2`, ...
#[derive(Debug, Clone)]
pub struct SqlStatement {
    pub sql: String,
    pub params: Vec<SqlValue>,
}

fn clone_texts(v: &Vec<String>) -> (r: Vec<String>)
    ensures
        texts(r@) == texts(v@),
{
    let mut r: Vec<String> = Vec::new();
    let mut i: usize = 0;
    while i < v.len()
        invariant
            0 <= i <= v@.len(),
            texts(r@) == texts(v@.take(i as int)),
        decreases v@.len() - i,
    {
        let c = v[i].clone();
        assert(c@ == v@[i as int]@);
        let ghost before = r@;
        r.push(c);
        assert(r@ =~= before.push(c));
        assert(texts(v@.take(i + 1)) =~= texts(v@.take(i as int)).push(v@[i as int]@));
        assert(texts(r@) =~= texts(before).push(c@));
        i = i + 1;
    }
    assert(v@.take(i as int) =~= v@);
    r
}

/// The condition a tag filter adds, its value (if any) bound at `idx`:
/// all tags (`@>`), any tag (`&&`), no tag at all, or none for `Any`.
pub open spec fn tag_condition(f: TagFilter, idx: nat) -> Option<Seq<char>> {
    match f {
        TagFilter::And(_) => Some("b.tags @> "@ + placeholder(idx)),
        TagFilter::Or(_) => Some("b.tags && "@ + placeholder(idx)),
        TagFilter::Untagged => Some("(b.tags IS NULL OR cardinality(b.tags) = 0)"@),
        TagFilter::Any => None,
    }
}

/// The values a tag filter binds.
pub open spec fn tag_values(f: TagFilter) -> Seq<SqlValueView> {
    match f {
        TagFilter::And(t) => seq![SqlValueView::TextArray(texts(t@))],
        TagFilter::Or(t) => seq![SqlValueView::TextArray(texts(t@))],
        _ => Seq::empty(),
    }
}

/// The conditions and values after an optional tag filter.
pub open spec fn with_tag_filter(
    filters: Seq<Seq<char>>,
    vals: Seq<SqlValueView>,
    f: Option<TagFilter>,
) -> (Seq<Seq<char>>, Seq<SqlValueView>) {
    match f {
        Some(f) => match tag_condition(f, vals.len() + 1) {
            Some(c) => (filters.push(c), vals + tag_values(f)),
            None => (filters, vals),
        },
        None => (filters, vals),
    }
}

fn push_tag_filter(f: &Option<TagFilter>, filters: &mut Vec<String>, params: &mut Vec<SqlValue>)
    ensures
        (texts(final(filters)@), values(final(params)@)) == with_tag_filter(
            texts(old(filters)@),
            values(old(params)@),
            *f,
        ),
{
    let ghost fs = texts(filters@);
    let ghost vs = values(params@);
    match f {
        Some(TagFilter::And(tags)) => {
            params.push(SqlValue::TextArray(clone_texts(tags)));
            let c = String::from_str("b.tags @> ").concat(format_placeholder(params.len()).as_str());
            filters.push(c);
        },
        Some(TagFilter::Or(tags)) => {
            params.push(SqlValue::TextArray(clone_texts(tags)));
            let c = String::from_str("b.tags && ").concat(format_placeholder(params.len()).as_str());
            filters.push(c);
        },
        Some(TagFilter::Untagged) => {
            filters.push(String::from_str("(b.tags IS NULL OR cardinality(b.tags) = 0)"));
        },
        _ => {},
    }
    assert(texts(filters@) =~= with_tag_filter(fs, vs, *f).0);
    assert(values(params@) =~= with_tag_filter(fs, vs, *f).1);
}

/// The full-text condition on a query bound at `idx`.
pub open spec fn text_search_condition(idx: nat) -> Seq<char> {
    "b.search_tokens @@ websearch_to_tsquery('english', "@ + placeholder(idx) + ")"@
}

fn format_text_search_condition(idx: usize) -> (r: String)
    ensures
        r@ == text_search_condition(idx as nat),
{
    String::from_str("b.search_tokens @@ websearch_to_tsquery('english', ").concat(
        format_placeholder(idx).as_str(),
    ).concat(")")
}

/// The conditions and values that select the bookmarks a search counts:
/// the user's, matching the query where there is one, and passing the tag
/// filter.
pub open spec fn count_conditions(user: u128, r: SearchRequest) -> (
    Seq<Seq<char>>,
    Seq<SqlValueView>,
) {
    let f0 = seq!["b.user_id = "@ + placeholder(1)];
    let v0 = seq![SqlValueView::Uuid(user)];
    let (f1, v1) = match r.query {
        Some(q) => (f0.push(text_search_condition(2)), v0.push(SqlValueView::Text(q@))),
        None => (f0, v0),
    };
    with_tag_filter(f1, v1, r.tags_filter)
}

fn build_count_conditions(user: u128, r: &SearchRequest) -> (res: (Vec<String>, Vec<SqlValue>))
    ensures
        (texts(res.0@), values(res.1@)) == count_conditions(user, *r),
{
    let mut filters: Vec<String> = Vec::new();
    let mut params: Vec<SqlValue> = Vec::new();
    params.push(SqlValue::Uuid(user));
    filters.push(String::from_str("b.user_id = ").concat(format_placeholder(params.len()).as_str()));
    match &r.query {
        Some(q) => {
            params.push(SqlValue::Text(q.clone()));
            filters.push(format_text_search_condition(params.len()));
        },
        None => {},
    }
    let ghost f1 = texts(filters@);
    let ghost v1 = values(params@);
    proof {
        let f0 = seq!["b.user_id = "@ + placeholder(1)];
        let v0 = seq![SqlValueView::Uuid(user)];
        if r.query is Some {
            assert(f1 =~= f0.push(text_search_condition(2)));
            assert(v1 =~= v0.push(SqlValueView::Text(r.query->0@)));
        } else {
            assert(f1 =~= f0);
            assert(v1 =~= v0);
        }
    }
    push_tag_filter(&r.tags_filter, &mut filters, &mut params);
    (filters, params)
}

/// The text of the statement that counts the bookmarks a search finds.
pub open spec fn total_sql(user: u128, r: SearchRequest) -> Seq<char> {
    "SELECT COUNT(1) FROM bookmark b WHERE "@ + join_and(count_conditions(user, r).0)
}

/// The statement that counts the bookmarks a search finds.
pub fn total_statement(user: u128, r: &SearchRequest) -> (st: SqlStatement)
    ensures
        st.sql@ == total_sql(user, *r),
        values(st.params@) == count_conditions(user, *r).1,
{
    let (filters, params) = build_count_conditions(user, r);
    let sql = String::from_str("SELECT COUNT(1) FROM bookmark b WHERE ").concat(
        join_with_and(&filters).as_str(),
    );
    SqlStatement { sql, params }
}

/// The text of the statement that counts, per tag, the bookmarks a search
/// finds.
pub open spec fn aggregation_sql(user: u128, r: SearchRequest) -> Seq<char> {
    "WITH tags AS (SELECT unnest(b.tags) AS tag FROM bookmark b WHERE "@ + join_and(
        count_conditions(user, r).0,
    ) + ") SELECT tag, count(1) AS count FROM tags t GROUP BY tag"@
}

/// The statement that counts, per tag, the bookmarks a search finds.
pub fn aggregation_statement(user: u128, r: &SearchRequest) -> (st: SqlStatement)
    ensures
        st.sql@ == aggregation_sql(user, *r),
        values(st.params@) == count_conditions(user, *r).1,
{
    let (filters, params) = build_count_conditions(user, r);
    let sql = String::from_str(
        "WITH tags AS (SELECT unnest(b.tags) AS tag FROM bookmark b WHERE ",
    ).concat(join_with_and(&filters).as_str()).concat(
        ") SELECT tag, count(1) AS count FROM tags t GROUP BY tag",
    );
    SqlStatement { sql, params }
}

/// Results per search page where the request sets no limit.
pub const DEFAULT_SEARCH_LIMIT: i32 = 20;

/// The selected columns, the order and the first bound value of a search:
/// with a query, the highlighted match and the rank on it, the query bound
/// first; without, a `NULL` match and the newest first.
pub open spec fn search_head(r: SearchRequest) -> (Seq<char>, Seq<char>, SqlValueView) {
    match r.query {
        Some(q) => (
            "ts_headline('english', b.text_content, websearch_to_tsquery('english', "@
                + placeholder(1)
                + "), 'StartSel=<mark>, StopSel=</mark>') AS search_match, b.*"@,
            "ORDER BY ts_rank(b.search_tokens, websearch_to_tsquery('english', "@ + placeholder(
                1,
            ) + ")) DESC"@,
            SqlValueView::Text(q@),
        ),
        None => (
            placeholder(1) + "::text AS search_match, b.*"@,
            "ORDER BY b.created_at DESC"@,
            SqlValueView::NullText,
        ),
    }
}

/// The conditions and values of a search: the user's bookmarks (bound
/// second), matching the query (bound first) where there is one, and
/// passing the tag filter.
pub open spec fn search_conditions(user: u128, r: SearchRequest) -> (
    Seq<Seq<char>>,
    Seq<SqlValueView>,
) {
    let v1 = seq![search_head(r).2, SqlValueView::Uuid(user)];
    let f1 = seq!["b.user_id = "@ + placeholder(2)];
    let f2 = if r.query is Some {
        f1.push(text_search_condition(1))
    } else {
        f1
    };
    with_tag_filter(f2, v1, r.tags_filter)
}

/// The limit of a search: the requested one, else 20.
pub open spec fn search_limit_of(r: SearchRequest) -> i32 {
    match r.limit {
        Some(l) => l,
        None => DEFAULT_SEARCH_LIMIT,
    }
}

/// The offset clause of a search; empty without an offset.
pub open spec fn offset_clause(r: SearchRequest) -> Seq<char> {
    match r.offset {
        Some(o) => "OFFSET "@ + signed_decimal(o as int),
        None => Seq::empty(),
    }
}

/// The text of the statement that finds the bookmarks of a search.
pub open spec fn search_sql(user: u128, r: SearchRequest) -> Seq<char> {
    "SELECT "@ + search_head(r).0 + " FROM bookmark b WHERE "@ + join_and(
        search_conditions(user, r).0,
    ) + " "@ + search_head(r).1 + " LIMIT "@ + signed_decimal(search_limit_of(r) as int) + " "@
        + offset_clause(r)
}

/// The statement that finds the bookmarks of a search, one page of them.
pub fn search_statement(user: u128, r: &SearchRequest) -> (st: SqlStatement)
    ensures
        st.sql@ == search_sql(user, *r),
        values(st.params@) == search_conditions(user, *r).1,
{
    let mut params: Vec<SqlValue> = Vec::new();
    let mut filters: Vec<String> = Vec::new();
    let select_clause;
    let order_by_clause;
    match &r.query {
        Some(q) => {
            params.push(SqlValue::Text(q.clone()));
            let ph = format_placeholder(1);
            select_clause = String::from_str(
                "ts_headline('english', b.text_content, websearch_to_tsquery('english', ",
            ).concat(ph.as_str()).concat(
                "), 'StartSel=<mark>, StopSel=</mark>') AS search_match, b.*",
            );
            order_by_clause = String::from_str(
                "ORDER BY ts_rank(b.search_tokens, websearch_to_tsquery('english', ",
            ).concat(ph.as_str()).concat(")) DESC");
        },
        None => {
            params.push(SqlValue::NullText);
            select_clause = format_placeholder(1).concat("::text AS search_match, b.*");
            order_by_clause = String::from_str("ORDER BY b.created_at DESC");
        },
    }
    params.push(SqlValue::Uuid(user));
    filters.push(String::from_str("b.user_id = ").concat(format_placeholder(2).as_str()));
    if r.query.is_some() {
        filters.push(format_text_search_condition(1));
    }
    proof {
        let v1 = seq![search_head(*r).2, SqlValueView::Uuid(user)];
        let f1 = seq!["b.user_id = "@ + placeholder(2)];
        assert(values(params@) =~= v1);
        if r.query is Some {
            assert(texts(filters@) =~= f1.push(text_search_condition(1)));
        } else {
            assert(texts(filters@) =~= f1);
        }
    }
    push_tag_filter(&r.tags_filter, &mut filters, &mut params);
    let limit: i32 = match r.limit {
        Some(l) => l,
        None => DEFAULT_SEARCH_LIMIT,
    };
    let offset = match r.offset {
        Some(o) => String::from_str("OFFSET ").concat(format_signed(o as i64).as_str()),
        None => String::new(),
    };
    let sql = String::from_str("SELECT ").concat(select_clause.as_str()).concat(
        " FROM bookmark b WHERE ",
    ).concat(join_with_and(&filters).as_str()).concat(" ").concat(
        order_by_clause.as_str(),
    ).concat(" LIMIT ").concat(format_signed(limit as i64).as_str()).concat(" ").concat(
        offset.as_str(),
    );
    SqlStatement { sql, params }
}

/// Tasks per page where the request sets no page size.
pub const DEFAULT_TASK_PAGE_SIZE: u8 = 25;

/// One more condition, its value bound after those already there.
pub open spec fn add_condition(
    acc: (Seq<Seq<char>>, Seq<SqlValueView>),
    present: bool,
    prefix: Seq<char>,
    value: SqlValueView,
) -> (Seq<Seq<char>>, Seq<SqlValueView>) {
    if present {
        (acc.0.push(prefix + placeholder(acc.1.len() + 1)), acc.1.push(value))
    } else {
        acc
    }
}

fn push_condition(
    filters: &mut Vec<String>,
    params: &mut Vec<SqlValue>,
    prefix: &str,
    value: SqlValue,
)
    ensures
        (texts(final(filters)@), values(final(params)@)) == add_condition(
            (texts(old(filters)@), values(old(params)@)),
            true,
            prefix@,
            value@,
        ),
{
    let ghost fs = texts(filters@);
    let ghost vs = values(params@);
    let ghost vv = value@;
    params.push(value);
    filters.push(String::from_str(prefix).concat(format_placeholder(params.len()).as_str()));
    assert(texts(filters@) =~= fs.push(prefix@ + placeholder(vs.len() + 1)));
    assert(values(params@) =~= vs.push(vv));
}

/// A text with the characters that `LIKE` patterns treat specially (`%`,
/// `_` and the escape character `\`) each preceded by `\`, so that the
/// pattern matches the text literally.
pub open spec fn like_escaped(s: Seq<char>) -> Seq<char>
    decreases s.len(),
{
    if s.len() == 0 {
        Seq::empty()
    } else {
        let c = s.last();
        let r = like_escaped(s.drop_last());
        if c == '%' || c == '_' || c == '\\' {
            r + seq!['\\', c]
        } else {
            r.push(c)
        }
    }
}

/// The `LIKE` pattern of a literal text.
fn escape_like(s: &str) -> (r: String)
    ensures
        r@ == like_escaped(s@),
{
    let n = s.unicode_len();
    let mut out = String::new();
    let mut i: usize = 0;
    proof {
        reveal_strlit("\\");
    }
    while i < n
        invariant
            0 <= i <= n,
            n == s@.len(),
            out@ == like_escaped(s@.take(i as int)),
            "\\"@ == seq!['\\'],
        decreases n - i,
    {
        let c = s.get_char(i);
        assert(s@.take(i + 1).drop_last() =~= s@.take(i as int));
        assert(s@.take(i + 1).last() == c);
        if c == '%' || c == '_' || c == '\\' {
            out.append("\\");
        }
        let one = s.substring_char(i, i + 1);
        assert(one@ =~= seq![c]);
        out.append(one);
        assert(out@ =~= like_escaped(s@.take(i + 1)));
        i = i + 1;
    }
    assert(s@.take(n as int) =~= s@);
    out
}

/// The pattern of a URL filter: the URL, taken literally, anywhere in the
/// task's URL. It is matched with `ILIKE`, so case does not matter.
pub open spec fn url_pattern(url: Seq<char>) -> Seq<char> {
    "%"@ + like_escaped(url) + "%"@
}

/// The conditions and values of a task search: the user's tasks, then, for
/// each filter given, its condition, in the order URL, tags (when not
/// empty), status, position after the last task seen, latest and earliest
/// creation.
pub open spec fn task_conditions(user: u128, r: BookmarkTaskSearchRequest) -> (
    Seq<Seq<char>>,
    Seq<SqlValueView>,
) {
    let a0 = (seq!["bt.user_id = "@ + placeholder(1)], seq![SqlValueView::Uuid(user)]);
    let a1 = add_condition(
        a0,
        r.url is Some,
        "bt.url ILIKE "@,
        SqlValueView::Text(url_pattern(r.url->0@)),
    );
    let a2 = add_condition(
        a1,
        r.tags is Some && r.tags->0@.len() > 0,
        "bt.tags @> "@,
        SqlValueView::TextArray(texts(r.tags->0@)),
    );
    let a3 = add_condition(a2, r.status is Some, "bt.status = "@, SqlValueView::Status(r.status->0));
    let a4 = add_condition(
        a3,
        r.last_task_id is Some,
        "bt.task_id > "@,
        SqlValueView::Uuid(r.last_task_id->0),
    );
    let a5 = add_condition(
        a4,
        r.to_created_at is Some,
        "bt.created_at <= "@,
        SqlValueView::Timestamp(r.to_created_at->0),
    );
    add_condition(
        a5,
        r.from_created_at is Some,
        "bt.created_at >= "@,
        SqlValueView::Timestamp(r.from_created_at->0),
    )
}

/// The page size of a task search: the requested one, else 25.
pub open spec fn task_page_size(r: BookmarkTaskSearchRequest) -> nat {
    match r.page_size {
        Some(p) => p as nat,
        None => DEFAULT_TASK_PAGE_SIZE as nat,
    }
}

/// The text of the statement of a task search; it reads one task more than
/// a page, to tell whether more follow.
pub open spec fn task_search_sql(user: u128, r: BookmarkTaskSearchRequest) -> Seq<char> {
    "SELECT * FROM bookmark_task bt WHERE "@ + join_and(task_conditions(user, r).0)
        + " ORDER BY bt.task_id ASC LIMIT "@ + decimal(task_page_size(r) + 1)
}

/// The statement of a task search, ordered by task for stable pages.
pub fn task_search_statement(user: u128, r: &BookmarkTaskSearchRequest) -> (st: SqlStatement)
    ensures
        st.sql@ == task_search_sql(user, *r),
        values(st.params@) == task_conditions(user, *r).1,
{
    let mut filters: Vec<String> = Vec::new();
    let mut params: Vec<SqlValue> = Vec::new();
    push_condition(&mut filters, &mut params, "bt.user_id = ", SqlValue::Uuid(user));
    assert(texts(filters@) =~= seq!["bt.user_id = "@ + placeholder(1)]);
    assert(values(params@) =~= seq![SqlValueView::Uuid(user)]);
    match &r.url {
        Some(url) => {
            let pattern = String::from_str("%").concat(escape_like(url.as_str()).as_str()).concat(
                "%",
            );
            push_condition(&mut filters, &mut params, "bt.url ILIKE ", SqlValue::Text(pattern));
        },
        None => {},
    }
    match &r.tags {
        Some(tags) => {
            if tags.len() > 0 {
                push_condition(
                    &mut filters,
                    &mut params,
                    "bt.tags @> ",
                    SqlValue::TextArray(clone_texts(tags)),
                );
            }
        },
        None => {},
    }
    match r.status {
        Some(status) => {
            push_condition(&mut filters, &mut params, "bt.status = ", SqlValue::Status(status));
        },
        None => {},
    }
    match r.last_task_id {
        Some(id) => {
            push_condition(&mut filters, &mut params, "bt.task_id > ", SqlValue::Uuid(id));
        },
        None => {},
    }
    match r.to_created_at {
        Some(t) => {
            push_condition(&mut filters, &mut params, "bt.created_at <= ", SqlValue::Timestamp(t));
        },
        None => {},
    }
    match r.from_created_at {
        Some(t) => {
            push_condition(&mut filters, &mut params, "bt.created_at >= ", SqlValue::Timestamp(t));
        },
        None => {},
    }
    let page_size: u8 = match r.page_size {
        Some(p) => p,
        None => DEFAULT_TASK_PAGE_SIZE,
    };
    let sql = String::from_str("SELECT * FROM bookmark_task bt WHERE ").concat(
        join_with_and(&filters).as_str(),
    ).concat(" ORDER BY bt.task_id ASC LIMIT ").concat(
        format_decimal(page_size as u64 + 1).as_str(),
    );
    SqlStatement { sql, params }
}

/// One page of results read with one extra row: whether more follow, and
/// the rows of the page.
pub fn take_page<T>(items: Vec<T>, page_size: usize) -> (r: (Vec<T>, bool))
    ensures
        r.1 == (items@.len() > page_size),
        r.0@ == (if r.1 {
            items@.take(page_size as int)
        } else {
            items@
        }),
{
    let mut items = items;
    let has_more = items.len() > page_size;
    if has_more {
        items.truncate(page_size);
    }
    (items, has_more)
}

/// `s` ends with `suffix`.
pub open spec fn ends_with(s: Seq<char>, suffix: Seq<char>) -> bool {
    suffix.len() <= s.len() && s.subrange(s.len() - suffix.len(), s.len() as int) == suffix
}

/// Conditions whose `i`-th ends with the `i`-th placeholder, one per bound
/// value: every placeholder has its value.
pub open spec fn placeholders_bound(acc: (Seq<Seq<char>>, Seq<SqlValueView>)) -> bool {
    &&& acc.0.len() == acc.1.len()
    &&& forall|i: int| 0 <= i < acc.0.len() ==> ends_with(#[trigger] acc.0[i], placeholder((i + 1) as nat))
}

proof fn lemma_ends_with_concat(prefix: Seq<char>, suffix: Seq<char>)
    ensures
        ends_with(prefix + suffix, suffix),
{
    let s = prefix + suffix;
    assert(s.subrange(s.len() - suffix.len(), s.len() as int) =~= suffix);
}

proof fn lemma_add_condition_bound(
    acc: (Seq<Seq<char>>, Seq<SqlValueView>),
    present: bool,
    prefix: Seq<char>,
    value: SqlValueView,
)
    requires
        placeholders_bound(acc),
    ensures
        placeholders_bound(add_condition(acc, present, prefix, value)),
{
    if present {
        let n = add_condition(acc, present, prefix, value);
        lemma_ends_with_concat(prefix, placeholder(acc.1.len() + 1));
        assert forall|i: int| 0 <= i < n.0.len() implies ends_with(
            #[trigger] n.0[i],
            placeholder((i + 1) as nat),
        ) by {
            if i < acc.0.len() {
                assert(n.0[i] == acc.0[i]);
            }
        }
    }
}

/// Law: in a task search every condition binds one value, and the `i`-th
/// condition ends with the `i`-th placeholder: each placeholder has its
/// value.
pub proof fn law_task_placeholders_bound(user: u128, r: BookmarkTaskSearchRequest)
    ensures
        placeholders_bound(task_conditions(user, r)),
{
    let a0 = (seq!["bt.user_id = "@ + placeholder(1)], seq![SqlValueView::Uuid(user)]);
    lemma_ends_with_concat("bt.user_id = "@, placeholder(1));
    assert(placeholders_bound(a0));
    let a1 = add_condition(
        a0,
        r.url is Some,
        "bt.url ILIKE "@,
        SqlValueView::Text(url_pattern(r.url->0@)),
    );
    lemma_add_condition_bound(
        a0,
        r.url is Some,
        "bt.url ILIKE "@,
        SqlValueView::Text(url_pattern(r.url->0@)),
    );
    let a2 = add_condition(
        a1,
        r.tags is Some && r.tags->0@.len() > 0,
        "bt.tags @> "@,
        SqlValueView::TextArray(texts(r.tags->0@)),
    );
    lemma_add_condition_bound(
        a1,
        r.tags is Some && r.tags->0@.len() > 0,
        "bt.tags @> "@,
        SqlValueView::TextArray(texts(r.tags->0@)),
    );
    let a3 = add_condition(a2, r.status is Some, "bt.status = "@, SqlValueView::Status(r.status->0));
    lemma_add_condition_bound(
        a2,
        r.status is Some,
        "bt.status = "@,
        SqlValueView::Status(r.status->0),
    );
    let a4 = add_condition(
        a3,
        r.last_task_id is Some,
        "bt.task_id > "@,
        SqlValueView::Uuid(r.last_task_id->0),
    );
    lemma_add_condition_bound(
        a3,
        r.last_task_id is Some,
        "bt.task_id > "@,
        SqlValueView::Uuid(r.last_task_id->0),
    );
    let a5 = add_condition(
        a4,
        r.to_created_at is Some,
        "bt.created_at <= "@,
        SqlValueView::Timestamp(r.to_created_at->0),
    );
    lemma_add_condition_bound(
        a4,
        r.to_created_at is Some,
        "bt.created_at <= "@,
        SqlValueView::Timestamp(r.to_created_at->0),
    );
    lemma_add_condition_bound(
        a5,
        r.from_created_at is Some,
        "bt.created_at >= "@,
        SqlValueView::Timestamp(r.from_created_at->0),
    );
}

/// Sets the tags to the given ones.
pub const REPLACE_TAGS_SQL: &'static str = "tags=$1";

/// Adds the given tags to the stored ones, each once; no tags become `NULL`.
pub const MERGE_TAGS_SQL: &'static str = "tags=(SELECT NULLIF(ARRAY(\n                SELECT DISTINCT unnest(array_cat(COALESCE(tags, ARRAY[]::text[]), COALESCE($1, ARRAY[]::text[])))\n            ), ARRAY[]::text[]))";

/// The tag update statement up to the tag assignment.
pub const TAG_UPDATE_HEAD: &'static str = "UPDATE bookmark\n         SET ";

/// The tag update statement after the tag assignment: the tags count as
/// done, text generation is done once the summary is, and its retries are
/// reset.
pub const TAG_UPDATE_TAIL: &'static str = ",\n             tag_status='done',\n             text_ai_status=CASE\n                 WHEN summary_status='done' THEN 'done'::task_status\n                 ELSE 'pending'::task_status\n             END,\n             text_ai_attempts=0,\n             text_ai_next_attempt_at=now(),\n             text_ai_fail_reason=NULL,\n             updated_at=now()\n         WHERE bookmark_id=$2 AND user_id=$3\n         RETURNING *;";

/// The text of a tag update of the given mode.
pub open spec fn tag_update_sql(mode: TagUpdateMode) -> Seq<char> {
    TAG_UPDATE_HEAD@ + (match mode {
        TagUpdateMode::Replace => REPLACE_TAGS_SQL@,
        TagUpdateMode::Merge => MERGE_TAGS_SQL@,
    }) + TAG_UPDATE_TAIL@
}

/// The statement updating a bookmark's tags: the normalized tags (`NULL`
/// when none is left), the bookmark and the user.
pub fn tag_update_statement(user_id: u128, bookmark_id: &str, operation: &TagOperation) -> (st:
    SqlStatement)
    ensures
        ({
            let given = match operation {
                TagOperation::Replace(t) => t@,
                TagOperation::Append(t) => t@,
            };
            let mode = match operation {
                TagOperation::Replace(_) => TagUpdateMode::Replace,
                TagOperation::Append(_) => TagUpdateMode::Merge,
            };
            &&& st.sql@ == tag_update_sql(mode)
            &&& values(st.params@).len() == 3
            &&& values(st.params@)[1] == SqlValueView::Text(bookmark_id@)
            &&& values(st.params@)[2] == SqlValueView::Uuid(user_id)
            &&& if normalized_tags(texts(given)).len() == 0 {
                values(st.params@)[0] == SqlValueView::NullTextArray
            } else {
                values(st.params@)[0] == SqlValueView::TextArray(normalized_tags(texts(given)))
            }
        }),
{
    let (mode, tags) = tag_update(operation);
    let assignment = match mode {
        TagUpdateMode::Replace => REPLACE_TAGS_SQL,
        TagUpdateMode::Merge => MERGE_TAGS_SQL,
    };
    let sql = String::from_str(TAG_UPDATE_HEAD).concat(assignment).concat(TAG_UPDATE_TAIL);
    let first = match tags {
        Some(t) => SqlValue::TextArray(t),
        None => SqlValue::NullTextArray,
    };
    let mut params: Vec<SqlValue> = Vec::new();
    params.push(first);
    params.push(SqlValue::Text(String::from_str(bookmark_id)));
    params.push(SqlValue::Uuid(user_id));
    SqlStatement { sql, params }
}

/// Law: a search reads one page: its SQL ends with `LIMIT` and the
/// requested limit (20 by default), followed by `OFFSET` and the requested
/// offset exactly when the request gives one, with or without a query.
pub proof fn law_search_page(user: u128, r: SearchRequest)
    ensures
        r.offset matches Some(o) ==> ends_with(
            search_sql(user, r),
            " LIMIT "@ + signed_decimal(
                match r.limit {
                    Some(l) => l as int,
                    None => 20,
                },
            ) + " OFFSET "@ + signed_decimal(o as int),
        ),
        r.offset is None ==> ends_with(
            search_sql(user, r),
            " LIMIT "@ + signed_decimal(
                match r.limit {
                    Some(l) => l as int,
                    None => 20,
                },
            ) + " "@,
        ),
{
    let limit = signed_decimal(search_limit_of(r) as int);
    let head = "SELECT "@ + search_head(r).0 + " FROM bookmark b WHERE "@ + join_and(
        search_conditions(user, r).0,
    ) + " "@ + search_head(r).1;
    match r.offset {
        Some(o) => {
            let tail = " LIMIT "@ + limit + " OFFSET "@ + signed_decimal(o as int);
            reveal_strlit(" ");
            reveal_strlit("OFFSET ");
            reveal_strlit(" OFFSET ");
            assert(" "@ + "OFFSET "@ =~= " OFFSET "@);
            assert(search_sql(user, r) =~= head + tail);
            lemma_ends_with_concat(head, tail);
        },
        None => {
            let tail = " LIMIT "@ + limit + " "@;
            assert(search_sql(user, r) =~= head + tail);
            lemma_ends_with_concat(head, tail);
        },
    }
}

/// The value a tag filter binds, written out: the tags of an all-of or
/// any-of filter, nothing for the others.
pub open spec fn filter_binds(f: Option<TagFilter>) -> Seq<SqlValueView> {
    match f {
        Some(TagFilter::And(t)) => seq![SqlValueView::TextArray(texts(t@))],
        Some(TagFilter::Or(t)) => seq![SqlValueView::TextArray(texts(t@))],
        _ => Seq::empty(),
    }
}

/// Law: the statements of a search bind what the request asks for. The
/// count and the tag aggregation bind the user, then the query where one is
/// given, then the tags of an all-of or any-of filter; the search binds the
/// query (or `NULL`) first, then the user, then those tags. The untagged
/// filter's last condition also accepts bookmarks whose tags are `NULL`,
/// and without a tag filter (or with `Any`) no tag condition is added.
pub proof fn law_search_binds_request(user: u128, r: SearchRequest)
    ensures
        count_conditions(user, r).1 == seq![SqlValueView::Uuid(user)] + (match r.query {
            Some(q) => seq![SqlValueView::Text(q@)],
            None => Seq::<SqlValueView>::empty(),
        }) + filter_binds(r.tags_filter),
        search_conditions(user, r).1 == seq![
            match r.query {
                Some(q) => SqlValueView::Text(q@),
                None => SqlValueView::NullText,
            },
            SqlValueView::Uuid(user),
        ] + filter_binds(r.tags_filter),
        r.tags_filter matches Some(TagFilter::Untagged) ==> count_conditions(user, r).0.last()
            == "(b.tags IS NULL OR cardinality(b.tags) = 0)"@ && search_conditions(
            user,
            r,
        ).0.last() == "(b.tags IS NULL OR cardinality(b.tags) = 0)"@,
        (r.tags_filter is None || r.tags_filter matches Some(TagFilter::Any)) ==> count_conditions(
            user,
            r,
        ).0.len() == (if r.query is Some {
            2int
        } else {
            1int
        }) && search_conditions(user, r).0.len() == (if r.query is Some {
            2int
        } else {
            1int
        }),
{
    let cv = seq![SqlValueView::Uuid(user)] + (match r.query {
        Some(q) => seq![SqlValueView::Text(q@)],
        None => Seq::<SqlValueView>::empty(),
    });
    let sv = seq![
        match r.query {
            Some(q) => SqlValueView::Text(q@),
            None => SqlValueView::NullText,
        },
        SqlValueView::Uuid(user),
    ];
    match r.query {
        Some(q) => {
            assert(cv =~= seq![SqlValueView::Uuid(user)].push(SqlValueView::Text(q@)));
        },
        None => {
            assert(cv =~= seq![SqlValueView::Uuid(user)]);
        },
    }
    assert(search_conditions(user, r).1 =~= sv + filter_binds(r.tags_filter));
    assert(count_conditions(user, r).1 =~= cv + filter_binds(r.tags_filter));
}

} // verus!
