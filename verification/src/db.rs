//! The database: which statements may run, which migrations are due, and which backups stay.
use crate::json::{json_text, members_view, no_members, put_member, set_member, Json, JsonView};
use crate::outside::{
    base64_encoded, encode_base64, is_hyphenated_uuid, parse_uuid, read_utf8_lossy, utf8_lossy,
};
use crate::sequence::{
    insert_ordered, is_order_relation, lemma_insert_ordered, sort_ordered, sorting_orders,
};
use crate::text::{
    all_digits, begins_with, byte_count, byte_length, chars_of, concat2, concat3, contains, decimal,
    decimal_i64, decimal_int, decimal_u128, digits_value, ends_with, finishes_with,
    is_ascii_alphanumeric, is_white, lowered, occurs_in, opt_view, owned, parse_u128_upto,
    parse_unsigned, precedes, rsplit_once, rsplit_once_at, same, starts_with, string_between,
    text_precedes, texts_view, to_ascii_lowercase, white,
};
use vstd::prelude::*;

verus! {

/// The version of the database that this application writes.
pub const SCHEMA_VERSION: i64 = 25;

/// The longest statement, in characters.
pub const MAX_QUERY_CHARS: usize = 8_192;

/// The most values of a statement.
pub const MAX_BIND_VALUES: usize = 128;

/// The largest value of a statement, in bytes.
pub const MAX_BIND_STRING_BYTES: usize = 33_554_432;

/// The most rows of a result.
pub const MAX_RESULT_ROWS: usize = 50_000;

/// How many backups stay.
pub const BACKUP_RETENTION_COUNT: usize = 3;

/// What a statement has changed.
#[derive(Debug, PartialEq, Eq)]
pub struct DbQueryResult {
    pub rows_affected: usize,
    pub last_insert_id: Option<i64>,
}

// ---------------------------------------------------------------------------
// Statements
// ---------------------------------------------------------------------------

/// The words of a text: what stands between white space.
pub open spec fn words(s: Seq<char>) -> Seq<Seq<char>>
    decreases s.len(),
{
    if s.len() == 0 {
        Seq::empty()
    } else {
        let before = words(s.drop_last());
        let c = s.last();
        if is_white(c) {
            before
        } else if s.len() >= 2 && !is_white(s[s.len() - 2]) {
            before.drop_last().push(before.last().push(c))
        } else {
            before.push(seq![c])
        }
    }
}

/// Words with one space between two of them.
pub open spec fn joined(w: Seq<Seq<char>>) -> Seq<char>
    decreases w.len(),
{
    if w.len() == 0 {
        Seq::empty()
    } else if w.len() == 1 {
        w[0]
    } else {
        joined(w.drop_last()).push(' ') + w.last()
    }
}

/// A statement with one space between two words.
pub open spec fn normalized(query: Seq<char>) -> Seq<char> {
    joined(words(query))
}

proof fn lemma_words_go_on(s: Seq<char>)
    requires
        s.len() > 0,
        !is_white(s.last()),
    ensures
        words(s).len() > 0,
        words(s).last().len() > 0,
    decreases s.len(),
{
    if s.len() >= 2 && !is_white(s[s.len() - 2]) {
        lemma_words_go_on(s.drop_last());
    }
}

fn split_words(s: &str) -> (r: Vec<String>)
    ensures
        texts_view(r@) == words(s@),
{
    let cs = chars_of(s);
    let mut out: Vec<String> = Vec::new();
    let mut gap = true;
    let mut i: usize = 0;
    assert(texts_view(out@) =~= words(cs@.take(0)));
    while i < cs.len()
        invariant
            i <= cs.len(),
            texts_view(out@) == words(cs@.take(i as int)),
            gap == (i == 0 || is_white(cs@[i - 1])),
        decreases cs.len() - i,
    {
        let c = cs[i];
        let ghost t = cs@.take(i + 1);
        let ghost before = texts_view(out@);
        proof {
            assert(t.drop_last() =~= cs@.take(i as int));
            assert(t.last() == c);
            if i > 0 {
                assert(t[t.len() - 2] == cs@[i - 1]);
            }
        }
        if white(c) {
            gap = true;
        } else if gap {
            let mut word = String::new();
            word.push(c);
            assert(word@ =~= seq![c]);
            out.push(word);
            assert(texts_view(out@) =~= before.push(word@));
            gap = false;
        } else {
            proof {
                assert(cs@.take(i as int).last() == cs@[i - 1]);
                lemma_words_go_on(cs@.take(i as int));
                assert(before.len() == out@.len());
            }
            let mut word = match out.pop() {
                Some(word) => word,
                None => String::new(),
            };
            word.push(c);
            out.push(word);
            assert(texts_view(out@) =~= before.drop_last().push(before.last().push(c)));
        }
        i += 1;
    }
    assert(cs@.take(i as int) =~= cs@);
    out
}

fn join_words(w: &Vec<String>) -> (r: String)
    ensures
        r@ == joined(texts_view(w@)),
{
    let ghost views = texts_view(w@);
    let mut out = String::new();
    let mut i: usize = 0;
    assert(out@ =~= joined(views.take(0)));
    while i < w.len()
        invariant
            i <= w.len(),
            views == texts_view(w@),
            out@ == joined(views.take(i as int)),
        decreases w.len() - i,
    {
        proof {
            assert(views.take(i + 1).drop_last() =~= views.take(i as int));
            assert(views.take(i + 1).last() == w@[i as int]@);
        }
        let ghost before = out@;
        if i > 0 {
            out.push(' ');
        }
        out.append(w[i].as_str());
        proof {
            if i == 0 {
                assert(before =~= Seq::<char>::empty());
                assert(out@ =~= w@[0]@);
            }
        }
        i += 1;
    }
    assert(views.take(i as int) =~= views);
    out
}

/// The words that no statement may hold, each with a space before and behind it.
pub open spec fn forbidden_word(lower: Seq<char>) -> Option<Seq<char>> {
    let padded = " "@ + lower + " "@;
    if occurs_in(padded, " join "@) {
        Some("join"@)
    } else if occurs_in(padded, " union "@) {
        Some("union"@)
    } else if occurs_in(padded, " pragma "@) {
        Some("pragma"@)
    } else if occurs_in(padded, " attach "@) {
        Some("attach"@)
    } else if occurs_in(padded, " detach "@) {
        Some("detach"@)
    } else if occurs_in(padded, " vacuum "@) {
        Some("vacuum"@)
    } else if occurs_in(padded, " reindex "@) {
        Some("reindex"@)
    } else {
        None
    }
}

fn find_forbidden(lower: &str) -> (r: Option<&'static str>)
    ensures
        (match r {
            Some(s) => Some(s@),
            None => None,
        }) == forbidden_word(lower@),
{
    let text = concat3(" ", lower, " ");
    let padded = text.as_str();
    if contains(padded, " join ") {
        Some("join")
    } else if contains(padded, " union ") {
        Some("union")
    } else if contains(padded, " pragma ") {
        Some("pragma")
    } else if contains(padded, " attach ") {
        Some("attach")
    } else if contains(padded, " detach ") {
        Some("detach")
    } else if contains(padded, " vacuum ") {
        Some("vacuum")
    } else if contains(padded, " reindex ") {
        Some("reindex")
    } else {
        None
    }
}

/// Whether a statement is of the kind that is asked for: one that reads, or one that enters,
/// changes or deletes.
pub open spec fn is_operation(lower: Seq<char>, select: bool) -> bool {
    if select {
        begins_with(lower, "select "@)
    } else {
        begins_with(lower, "insert "@) || begins_with(lower, "update "@) || begins_with(
            lower,
            "delete "@,
        )
    }
}

/// The word behind the first occurrence of a word.
pub open spec fn word_behind(w: Seq<Seq<char>>, key: Seq<char>) -> Option<Seq<char>>
    decreases w.len(),
{
    if w.len() < 2 {
        None
    } else if w[0] == key {
        Some(w[1])
    } else {
        word_behind(w.subrange(1, w.len() as int), key)
    }
}

fn find_behind(w: &Vec<String>, key: &str) -> (r: Option<usize>)
    ensures
        match r {
            Some(k) => k < w.len() && word_behind(texts_view(w@), key@) == Some(w@[k as int]@),
            None => word_behind(texts_view(w@), key@) is None,
        },
{
    let ghost views = texts_view(w@);
    let mut i: usize = 0;
    assert(views.subrange(0, views.len() as int) =~= views);
    while i + 1 < w.len()
        invariant
            i <= w.len() < usize::MAX || w.len() == usize::MAX && i <= w.len(),
            views == texts_view(w@),
            word_behind(views, key@) == word_behind(
                views.subrange(i as int, views.len() as int),
                key@,
            ),
            i < w.len() || i == 0,
        decreases w.len() - i,
    {
        let ghost rest = views.subrange(i as int, views.len() as int);
        proof {
            assert(rest[0] == w@[i as int]@ && rest[1] == w@[i + 1]@);
            assert(rest.subrange(1, rest.len() as int) =~= views.subrange(
                i + 1,
                views.len() as int,
            ));
        }
        if same(w[i].as_str(), key) {
            return Some(i + 1);
        }
        i += 1;
    }
    None
}

/// Whether a character can stand in the name of a table.
pub open spec fn is_name_char(c: char) -> bool {
    is_ascii_alphanumeric(c) || c == '_'
}

/// A text without what can stand in no name at its beginning.
pub open spec fn strip_start(s: Seq<char>) -> Seq<char>
    decreases s.len(),
{
    if s.len() > 0 && !is_name_char(s[0]) {
        strip_start(s.subrange(1, s.len() as int))
    } else {
        s
    }
}

/// A text without what can stand in no name at its end.
pub open spec fn strip_end(s: Seq<char>) -> Seq<char>
    decreases s.len(),
{
    if s.len() > 0 && !is_name_char(s.last()) {
        strip_end(s.drop_last())
    } else {
        s
    }
}

fn name_char(c: char) -> (r: bool)
    ensures
        r == is_name_char(c),
{
    ('a' <= c && c <= 'z') || ('A' <= c && c <= 'Z') || ('0' <= c && c <= '9') || c == '_'
}

fn strip_name(s: &str) -> (r: String)
    ensures
        r@ == strip_end(strip_start(s@)),
{
    let cs = chars_of(s);
    let mut from: usize = 0;
    assert(cs@.subrange(0, cs.len() as int) =~= cs@);
    while from < cs.len() && !name_char(cs[from])
        invariant
            from <= cs.len(),
            strip_start(cs@) == strip_start(cs@.subrange(from as int, cs.len() as int)),
        decreases cs.len() - from,
    {
        proof {
            let t = cs@.subrange(from as int, cs.len() as int);
            assert(t[0] == cs@[from as int]);
            assert(t.subrange(1, t.len() as int) =~= cs@.subrange(from + 1, cs.len() as int));
        }
        from += 1;
    }
    let ghost head = cs@.subrange(from as int, cs.len() as int);
    proof {
        if from < cs.len() {
            assert(head[0] == cs@[from as int]);
        }
        assert(strip_start(cs@) == head);
    }
    let mut to: usize = cs.len();
    while to > from && !name_char(cs[to - 1])
        invariant
            from <= to <= cs.len(),
            strip_end(head) == strip_end(cs@.subrange(from as int, to as int)),
        decreases to,
    {
        proof {
            let t = cs@.subrange(from as int, to as int);
            assert(t.last() == cs@[to - 1]);
            assert(t.drop_last() =~= cs@.subrange(from as int, to - 1));
        }
        to -= 1;
    }
    proof {
        let t = cs@.subrange(from as int, to as int);
        if to > from {
            assert(t.last() == cs@[to - 1]);
        }
    }
    string_between(&cs, from, to)
}

/// The word of a statement that names its table: the one behind `from`, `into` or `update`.
pub open spec fn table_word(lower: Seq<char>, select: bool) -> Option<Seq<char>> {
    let w = words(lower);
    if select || begins_with(lower, "delete "@) {
        word_behind(w, "from"@)
    } else if begins_with(lower, "update "@) {
        if w.len() > 1 {
            Some(w[1])
        } else {
            None
        }
    } else {
        word_behind(w, "into"@)
    }
}

/// The tables that a statement may name.
pub open spec fn is_allowed_table(table: Seq<char>) -> bool {
    table == "assets"@ || table == "tasks"@ || table == "settings"@ || table == "workflows"@
}

/// Whether a statement holds another one that reads.
pub open spec fn has_subquery(lower: Seq<char>, select: bool) -> bool {
    if select {
        occurs_in(lower.subrange("select "@.len() as int, lower.len() as int), "select "@)
    } else {
        occurs_in(lower, "select "@)
    }
}

/// Why a statement may not run, where it may not.
pub open spec fn query_error(query: Seq<char>, select: bool) -> Option<Seq<char>> {
    let text = normalized(query);
    let lower = lowered(text);
    if query.len() > MAX_QUERY_CHARS {
        Some("SQLite 语句超过 8192 个字符"@)
    } else if text.len() == 0 || occurs_in(text, ";"@) || occurs_in(text, "--"@) || occurs_in(
        text,
        "/*"@,
    ) {
        Some("SQLite 语句为空或包含不允许的多语句/注释"@)
    } else if forbidden_word(lower) is Some {
        Some("SQLite 语句包含不允许的关键字: "@ + forbidden_word(lower)->0)
    } else if !is_operation(lower, select) {
        Some("SQLite 操作类型不允许"@)
    } else if has_subquery(lower, select) {
        Some("SQLite 不允许子查询"@)
    } else {
        match table_word(lower, select) {
            None => Some("无法识别 SQLite 表名"@),
            Some(word) => if is_allowed_table(strip_end(strip_start(word))) {
                None
            } else {
                Some("SQLite 表不允许访问: "@ + strip_end(strip_start(word)))
            },
        }
    }
}

/// Decides whether a statement may run: a single one, on one of the tables that are open to
/// the user interface.
pub fn validate_query(query: &str, select: bool) -> (r: Result<(), String>)
    ensures
        match query_error(query@, select) {
            Some(e) => r matches Err(f) && f@ == e,
            None => r is Ok,
        },
{
    if chars_of(query).len() > MAX_QUERY_CHARS {
        return Err(owned("SQLite 语句超过 8192 个字符"));
    }
    let text = join_words(&split_words(query));
    if text.as_str().is_empty() || contains(text.as_str(), ";") || contains(text.as_str(), "--")
        || contains(text.as_str(), "/*") {
        return Err(owned("SQLite 语句为空或包含不允许的多语句/注释"));
    }
    let lowercase = to_ascii_lowercase(text.as_str());
    let lower = lowercase.as_str();
    match find_forbidden(lower) {
        Some(word) => return Err(concat2("SQLite 语句包含不允许的关键字: ", word)),
        None => {},
    }
    let insert = starts_with(lower, "insert ");
    let update = starts_with(lower, "update ");
    let delete = starts_with(lower, "delete ");
    let operation = if select {
        starts_with(lower, "select ")
    } else {
        insert || update || delete
    };
    if !operation {
        return Err(owned("SQLite 操作类型不允许"));
    }
    let nested = if select {
        proof {
            reveal_strlit("select ");
            assert("select "@.len() == 7);
        }
        let cs = chars_of(lower);
        contains(string_between(&cs, 7, cs.len()).as_str(), "select ")
    } else {
        contains(lower, "select ")
    };
    if nested {
        return Err(owned("SQLite 不允许子查询"));
    }
    let tokens = split_words(lower);
    let ghost views = texts_view(tokens@);
    assert(views.len() == tokens.len());
    let at: Option<usize> = if select || delete {
        find_behind(&tokens, "from")
    } else if update {
        if tokens.len() > 1 {
            Some(1)
        } else {
            None
        }
    } else {
        find_behind(&tokens, "into")
    };
    match at {
        Some(k) => {
            let name = strip_name(tokens[k].as_str());
            let table = name.as_str();
            if same(table, "assets") || same(table, "tasks") || same(table, "settings") || same(
                table,
                "workflows",
            ) {
                Ok(())
            } else {
                Err(concat2("SQLite 表不允许访问: ", table))
            }
        },
        None => Err(owned("无法识别 SQLite 表名")),
    }
}

/// Every statement that may run is of the kind that was asked for, names a table that is open,
/// and holds no other statement that reads.
pub proof fn accepted_query_stays_in_bounds(query: Seq<char>, select: bool)
    requires
        query_error(query, select) is None,
    ensures
        is_operation(lowered(normalized(query)), select),
        !has_subquery(lowered(normalized(query)), select),
        table_word(lowered(normalized(query)), select) matches Some(word) && is_allowed_table(
            strip_end(strip_start(word)),
        ),
{
}

proof fn lemma_normalized_step(s: Seq<char>)
    requires
        s.len() > 0,
    ensures
        is_white(s.last()) ==> normalized(s) == normalized(s.drop_last()),
        !is_white(s.last()) ==> normalized(s) == normalized(s.drop_last()).push(s.last())
            || normalized(s) == normalized(s.drop_last()).push(' ').push(s.last()),
{
    if !is_white(s.last()) {
        let before = words(s.drop_last());
        let c = s.last();
        if s.len() >= 2 && !is_white(s[s.len() - 2]) {
            assert(s.drop_last().last() == s[s.len() - 2]);
            lemma_words_go_on(s.drop_last());
            let w = before.drop_last().push(before.last().push(c));
            assert(w.drop_last() =~= before.drop_last());
            assert(joined(w) =~= joined(before).push(c));
        } else {
            let w = before.push(seq![c]);
            assert(w.drop_last() =~= before);
            if before.len() == 0 {
                assert(joined(w) =~= joined(before).push(c));
            } else {
                assert(joined(w) =~= joined(before).push(' ').push(c));
            }
        }
    }
}

proof fn lemma_normalized_keeps(s: Seq<char>, i: int)
    requires
        0 <= i < s.len(),
        !is_white(s[i]),
    ensures
        normalized(s).contains(s[i]),
    decreases s.len(),
{
    lemma_normalized_step(s);
    let n = normalized(s);
    if i == s.len() - 1 {
        assert(n[n.len() - 1] == s[i]);
    } else {
        let rest = s.drop_last();
        assert(rest[i] == s[i]);
        lemma_normalized_keeps(rest, i);
        let m = normalized(rest);
        let k = choose|k: int| 0 <= k < m.len() && m[k] == s[i];
        assert(n[k] == s[i]);
    }
}

/// A statement that may run holds no semicolon: it is a single one.
pub proof fn accepted_query_is_one_statement(query: Seq<char>, select: bool)
    requires
        query_error(query, select) is None,
    ensures
        forall|i: int| 0 <= i < query.len() ==> #[trigger] query[i] != ';',
{
    reveal_strlit(";");
    assert(";"@ =~= seq![';']);
    assert forall|i: int| 0 <= i < query.len() implies #[trigger] query[i] != ';' by {
        if query[i] == ';' {
            lemma_normalized_keeps(query, i);
            let text = normalized(query);
            let k = choose|k: int| 0 <= k < text.len() && text[k] == ';';
            assert(text.subrange(k, k + 1) =~= ";"@);
            assert(crate::text::occurs_at(text, ";"@, k));
        }
    }
}

// ---------------------------------------------------------------------------
// Values
// ---------------------------------------------------------------------------

/// A value of a statement. A number with a fraction is kept as it is written.
#[derive(Debug, PartialEq, Eq)]
pub enum SqlValue {
    Null,
    Integer(i64),
    Real(String),
    Text(String),
}

/// What a value of a statement says.
pub enum SqlView {
    Null,
    Integer(int),
    Real(Seq<char>),
    Text(Seq<char>),
}

impl View for SqlValue {
    type V = SqlView;

    open spec fn view(&self) -> SqlView {
        match self {
            SqlValue::Null => SqlView::Null,
            SqlValue::Integer(i) => SqlView::Integer(*i as int),
            SqlValue::Real(s) => SqlView::Real(s@),
            SqlValue::Text(s) => SqlView::Text(s@),
        }
    }
}

/// The views of the values of a statement.
pub open spec fn values_view(v: Seq<SqlValue>) -> Seq<SqlView> {
    v.map_values(|x: SqlValue| x@)
}

/// How many bytes a value takes as text.
pub open spec fn bind_size(j: JsonView) -> nat {
    match j {
        JsonView::Str(s) => byte_length(s),
        JsonView::Arr(_) | JsonView::Obj(_) => byte_length(json_text(j)),
        _ => 0,
    }
}

/// A JSON value as a value of a statement: lists and objects are written as text.
pub open spec fn sql_value(j: JsonView) -> SqlView {
    match j {
        JsonView::Null => SqlView::Null,
        JsonView::Bool(b) => SqlView::Integer(
            if b {
                1
            } else {
                0
            },
        ),
        JsonView::Int(i) => if i <= i64::MAX {
            SqlView::Integer(i)
        } else {
            SqlView::Real(decimal_int(i))
        },
        JsonView::Float(s) => SqlView::Real(s),
        JsonView::Str(s) => SqlView::Text(s),
        JsonView::Arr(_) | JsonView::Obj(_) => SqlView::Text(json_text(j)),
    }
}

/// Whether a value is too large.
pub open spec fn has_large_value(values: Seq<Json>) -> bool {
    exists|i: int|
        0 <= i < values.len() && bind_size((#[trigger] values[i])@) > MAX_BIND_STRING_BYTES
}

fn measure(value: &Json) -> (r: usize)
    ensures
        r == bind_size(value@),
{
    broadcast use {crate::json::lemma_arr_view, crate::json::lemma_obj_view};

    match value {
        Json::Str(s) => byte_count(s.as_str()),
        Json::Arr(_) | Json::Obj(_) => byte_count(value.to_text().as_str()),
        _ => 0,
    }
}

/// Whether the values of a statement are few and small enough.
pub fn validate_bind_values(values: &[Json]) -> (r: Result<(), String>)
    ensures
        if values@.len() > MAX_BIND_VALUES {
            r matches Err(e) && e@ == "SQLite 参数数量超过 128"@
        } else if has_large_value(values@) {
            r matches Err(e) && e@ == "SQLite 单个参数超过 32 MiB 大小限制"@
        } else {
            r is Ok
        },
{
    if values.len() > MAX_BIND_VALUES {
        return Err(owned("SQLite 参数数量超过 128"));
    }
    let mut i: usize = 0;
    while i < values.len()
        invariant
            i <= values@.len() <= MAX_BIND_VALUES,
            forall|j: int|
                0 <= j < i ==> bind_size((#[trigger] values@[j])@) <= MAX_BIND_STRING_BYTES,
        decreases values@.len() - i,
    {
        if measure(&values[i]) > MAX_BIND_STRING_BYTES {
            assert(bind_size(values@[i as int]@) > MAX_BIND_STRING_BYTES);
            return Err(owned("SQLite 单个参数超过 32 MiB 大小限制"));
        }
        i += 1;
    }
    Ok(())
}

/// Turns a JSON value into a value of a statement.
pub fn json_to_sql(value: &Json) -> (r: SqlValue)
    ensures
        r@ == sql_value(value@),
{
    broadcast use {crate::json::lemma_arr_view, crate::json::lemma_obj_view};

    match value {
        Json::Null => SqlValue::Null,
        Json::Bool(b) => SqlValue::Integer(
            if *b {
                1
            } else {
                0
            },
        ),
        Json::Int(i) => SqlValue::Integer(*i),
        Json::Uint(u) => if *u <= 0x7fff_ffff_ffff_ffff {
            SqlValue::Integer(*u as i64)
        } else {
            SqlValue::Real(crate::text::decimal_u64(*u))
        },
        Json::Float(s) => SqlValue::Real(s.clone()),
        Json::Str(s) => SqlValue::Text(s.clone()),
        Json::Arr(_) | Json::Obj(_) => SqlValue::Text(value.to_text()),
    }
}

/// Checks a statement and its values, and turns the values into those of the database.
pub fn prepare_statement(query: &str, select: bool, values: &[Json]) -> (r: Result<
    Vec<SqlValue>,
    String,
>)
    ensures
        if values@.len() > MAX_BIND_VALUES {
            r matches Err(e) && e@ == "SQLite 参数数量超过 128"@
        } else if has_large_value(values@) {
            r matches Err(e) && e@ == "SQLite 单个参数超过 32 MiB 大小限制"@
        } else {
            match query_error(query@, select) {
                Some(e) => r matches Err(f) && f@ == e,
                None => r matches Ok(v) && values_view(v@) == values@.map_values(
                    |j: Json| sql_value(j@),
                ),
            }
        },
{
    match validate_bind_values(values) {
        Ok(_) => {},
        Err(e) => return Err(e),
    }
    match validate_query(query, select) {
        Ok(_) => {},
        Err(e) => return Err(e),
    }
    let mut out: Vec<SqlValue> = Vec::new();
    let mut i: usize = 0;
    while i < values.len()
        invariant
            i <= values@.len(),
            out.len() == i,
            forall|j: int| 0 <= j < i ==> (#[trigger] out@[j])@ == sql_value(values@[j]@),
        decreases values@.len() - i,
    {
        out.push(json_to_sql(&values[i]));
        i += 1;
    }
    assert(values_view(out@) =~= values@.map_values(|j: Json| sql_value(j@)));
    Ok(out)
}

/// A value in a row of a result. A number with a fraction is kept as it is written, where it
/// is finite.
#[derive(Debug)]
pub enum SqlCell {
    Null,
    Integer(i64),
    Real(Option<String>),
    Text(Vec<u8>),
    Blob(Vec<u8>),
}

/// A value in a row as JSON: bytes are written in base64.
pub open spec fn cell_value(c: SqlCell) -> JsonView {
    match c {
        SqlCell::Null => JsonView::Null,
        SqlCell::Integer(i) => JsonView::Int(i as int),
        SqlCell::Real(Some(s)) => JsonView::Float(s@),
        SqlCell::Real(None) => JsonView::Null,
        SqlCell::Text(b) => JsonView::Str(utf8_lossy(b@)),
        SqlCell::Blob(b) => JsonView::Str(base64_encoded(b@)),
    }
}

/// Turns a value in a row into JSON.
pub fn sql_to_json(cell: &SqlCell) -> (r: Json)
    ensures
        r@ == cell_value(*cell),
{
    match cell {
        SqlCell::Null => Json::Null,
        SqlCell::Integer(i) => Json::Int(*i),
        SqlCell::Real(Some(s)) => Json::Float(s.clone()),
        SqlCell::Real(None) => Json::Null,
        SqlCell::Text(b) => Json::Str(read_utf8_lossy(b)),
        SqlCell::Blob(b) => Json::Str(encode_base64(b)),
    }
}

/// The members of the first columns of a row; of two columns with one name the later one
/// stays.
pub open spec fn row_members(names: Seq<Seq<char>>, cells: Seq<SqlCell>) -> Seq<
    (Seq<char>, JsonView),
>
    decreases cells.len(),
{
    if cells.len() == 0 || names.len() != cells.len() {
        no_members()
    } else {
        put_member(
            row_members(names.drop_last(), cells.drop_last()),
            names.last(),
            cell_value(cells.last()),
        )
    }
}

/// A row of a result as an object; there is a cell for each column.
pub fn row_to_json(names: &Vec<String>, cells: &Vec<SqlCell>) -> (r: Json)
    requires
        names.len() == cells.len(),
    ensures
        r@ == JsonView::Obj(row_members(texts_view(names@), cells@)),
{
    broadcast use {crate::json::lemma_arr_view, crate::json::lemma_obj_view};

    let ghost views = texts_view(names@);
    let mut out: Vec<(String, Json)> = Vec::new();
    let mut i: usize = 0;
    assert(members_view(out@) =~= row_members(views.take(0), cells@.take(0)));
    while i < cells.len()
        invariant
            i <= cells.len(),
            names.len() == cells.len(),
            views == texts_view(names@),
            members_view(out@) == row_members(views.take(i as int), cells@.take(i as int)),
        decreases cells.len() - i,
    {
        proof {
            assert(views.take(i + 1).drop_last() =~= views.take(i as int));
            assert(cells@.take(i + 1).drop_last() =~= cells@.take(i as int));
            assert(views.take(i + 1).last() == names@[i as int]@);
            assert(cells@.take(i + 1).last() == cells@[i as int]);
        }
        out = set_member(out, names[i].as_str(), sql_to_json(&cells[i]));
        i += 1;
    }
    assert(views.take(i as int) =~= views);
    assert(cells@.take(i as int) =~= cells@);
    Json::Obj(out)
}

/// Whether another row may be read.
pub fn check_row_limit(rows: usize) -> (r: Result<(), String>)
    ensures
        r is Ok <==> rows < MAX_RESULT_ROWS,
        r matches Err(e) ==> e@ == "SQLite 查询结果超过 50000 行限制"@,
{
    if rows < MAX_RESULT_ROWS {
        Ok(())
    } else {
        Err(owned("SQLite 查询结果超过 50000 行限制"))
    }
}

// ---------------------------------------------------------------------------
// Migrations
// ---------------------------------------------------------------------------

/// The version before the first migration that is due.
pub open spec fn reached(current: i64) -> int {
    if current < 0 {
        0
    } else {
        current as int
    }
}

/// The versions whose migrations are due, in the order in which they run.
pub open spec fn missing_versions(current: i64) -> Seq<i64> {
    let count = if reached(current) < SCHEMA_VERSION {
        (SCHEMA_VERSION - reached(current)) as nat
    } else {
        0
    };
    Seq::new(count, |i: int| (reached(current) + 1 + i) as i64)
}

/// What is said of a database that a later application has written.
pub open spec fn newer_error(current: i64) -> Seq<char> {
    "数据库 schema v"@ + decimal_int(current as int) + " 高于当前程序支持的 v25，请升级应用"@
}

/// The migrations that are due for a database of a version.
pub fn migrate(current: i64) -> (r: Result<Vec<i64>, String>)
    ensures
        if current > SCHEMA_VERSION {
            r matches Err(e) && e@ == newer_error(current)
        } else {
            r matches Ok(v) && v@ == missing_versions(current)
        },
{
    if current > SCHEMA_VERSION {
        return Err(
            concat3(
                "数据库 schema v",
                decimal_i64(current).as_str(),
                " 高于当前程序支持的 v25，请升级应用",
            ),
        );
    }
    let start: i64 = if current < 0 {
        0
    } else {
        current
    };
    let mut out: Vec<i64> = Vec::new();
    let mut version: i64 = start;
    while version < SCHEMA_VERSION
        invariant
            start == reached(current),
            start <= version <= SCHEMA_VERSION,
            out.len() == version - start,
            forall|j: int| 0 <= j < out.len() ==> #[trigger] out@[j] == start + 1 + j,
        decreases SCHEMA_VERSION - version,
    {
        version += 1;
        out.push(version);
    }
    assert(out@ =~= missing_versions(current));
    Ok(out)
}

/// The migrations that are due follow each other without a gap, begin behind the version that
/// the database has, and end with the present one.
pub proof fn migrations_lead_to_the_present(current: i64)
    requires
        current < SCHEMA_VERSION,
    ensures
        missing_versions(current).len() > 0,
        missing_versions(current)[0] == reached(current) + 1,
        missing_versions(current).last() == SCHEMA_VERSION,
        forall|i: int|
            0 < i < missing_versions(current).len() ==> #[trigger] missing_versions(current)[i]
                == missing_versions(current)[i - 1] + 1,
{
}

/// The version whose migration rebuilds a table that others refer to. It runs with the checks
/// of references switched off.
pub const REBUILD_VERSION: i64 = 22;

/// Where a migration failed.
#[derive(Debug, Clone, Copy, PartialEq, Eq, Structural)]
pub enum MigrationStage {
    Begin,
    Run,
    Commit,
}

/// The label of a migration.
pub open spec fn version_label(version: i64) -> Seq<char> {
    "v"@ + decimal_int(version as int)
}

/// What is said of a migration that failed.
pub open spec fn stage_error(stage: MigrationStage, version: i64, error: Seq<char>) -> Seq<char> {
    match stage {
        MigrationStage::Begin => "开始 SQLite "@ + version_label(version) + " 迁移事务失败: "@ + error,
        MigrationStage::Run => "执行 "@ + version_label(version) + " SQLite 迁移失败: "@ + error,
        MigrationStage::Commit => "提交 SQLite "@ + version_label(version) + " 迁移失败: "@ + error,
    }
}

/// Says what a migration failed of.
pub fn migration_error(stage: MigrationStage, version: i64, error: &str) -> (r: String)
    ensures
        r@ == stage_error(stage, version, error@),
{
    let label = concat2("v", decimal_i64(version).as_str());
    let (head, middle) = match stage {
        MigrationStage::Begin => ("开始 SQLite ", " 迁移事务失败: "),
        MigrationStage::Run => ("执行 ", " SQLite 迁移失败: "),
        MigrationStage::Commit => ("提交 SQLite ", " 迁移失败: "),
    };
    let mut out = concat3(head, label.as_str(), middle);
    out.append(error);
    out
}

/// Where a migration stands: how its transaction failed, where it did, and how restoring the
/// first setting of the connection failed, where it did.
#[derive(Debug)]
pub struct MigrationRun {
    pub version: i64,
    pub failure: Option<String>,
    pub restoring: Option<String>,
}

/// Where a migration stands, in characters.
pub struct MigrationRunView {
    pub version: i64,
    pub failure: Option<Seq<char>>,
    pub restoring: Option<Seq<char>>,
}

impl View for MigrationRun {
    type V = MigrationRunView;

    open spec fn view(&self) -> MigrationRunView {
        MigrationRunView {
            version: self.version,
            failure: opt_view(self.failure),
            restoring: opt_view(self.restoring),
        }
    }
}

/// What happens to a migration.
#[derive(Debug)]
pub enum MigrationEvent {
    /// It is its turn.
    Begin,
    /// The settings of the connection were read.
    SettingsRead(Result<(), String>),
    /// The checks of references were switched off.
    SwitchedOff(Result<(), String>),
    /// The transaction was begun.
    Begun(Result<(), String>),
    /// The script was run.
    Ran(Result<(), String>),
    /// The references were checked; tells whether one points nowhere.
    Checked(Result<bool, String>),
    /// The version was entered.
    Entered(Result<(), String>),
    /// The transaction was committed.
    Committed(Result<(), String>),
    /// The transaction was rolled back.
    RolledBack,
    /// The setting for altering tables was restored.
    AlteringRestored(Result<(), String>),
    /// The checks of references were restored.
    ChecksRestored(Result<(), String>),
}

/// What a migration does next.
#[derive(Debug)]
pub enum MigrationOperation {
    /// Read the settings of the connection.
    ReadSettings,
    /// Switch the checks of references off.
    SwitchOff,
    /// Begin the transaction.
    Begin,
    /// Run the script.
    RunScript,
    /// Check the references.
    CheckReferences,
    /// Enter the version.
    EnterVersion,
    /// Commit the transaction.
    Commit,
    /// Roll the transaction back.
    RollBack,
    /// Restore the setting for altering tables.
    RestoreAltering,
    /// Restore the checks of references.
    RestoreChecks,
    /// The migration is done.
    Finish,
    /// Fail with this text.
    Fail(String),
}

/// What a migration does next, in characters.
pub enum MigrationOperationView {
    ReadSettings,
    SwitchOff,
    Begin,
    RunScript,
    CheckReferences,
    EnterVersion,
    Commit,
    RollBack,
    RestoreAltering,
    RestoreChecks,
    Finish,
    Fail(Seq<char>),
}

impl View for MigrationOperation {
    type V = MigrationOperationView;

    open spec fn view(&self) -> MigrationOperationView {
        match self {
            MigrationOperation::ReadSettings => MigrationOperationView::ReadSettings,
            MigrationOperation::SwitchOff => MigrationOperationView::SwitchOff,
            MigrationOperation::Begin => MigrationOperationView::Begin,
            MigrationOperation::RunScript => MigrationOperationView::RunScript,
            MigrationOperation::CheckReferences => MigrationOperationView::CheckReferences,
            MigrationOperation::EnterVersion => MigrationOperationView::EnterVersion,
            MigrationOperation::Commit => MigrationOperationView::Commit,
            MigrationOperation::RollBack => MigrationOperationView::RollBack,
            MigrationOperation::RestoreAltering => MigrationOperationView::RestoreAltering,
            MigrationOperation::RestoreChecks => MigrationOperationView::RestoreChecks,
            MigrationOperation::Finish => MigrationOperationView::Finish,
            MigrationOperation::Fail(e) => MigrationOperationView::Fail(e@),
        }
    }
}

/// Whether a migration rebuilds a table.
pub open spec fn rebuilds(version: i64) -> bool {
    version == REBUILD_VERSION
}

/// A migration before its turn.
pub open spec fn fresh_run(version: i64) -> MigrationRunView {
    MigrationRunView { version, failure: None, restoring: None }
}

/// Makes a migration whose turn it is.
pub fn new_migration(version: i64) -> (r: MigrationRun)
    ensures
        r@ == fresh_run(version),
{
    MigrationRun { version, failure: None, restoring: None }
}

/// A migration whose transaction has failed.
pub open spec fn failed_run(s: MigrationRunView, error: Seq<char>) -> MigrationRunView {
    MigrationRunView { failure: Some(error), ..s }
}

/// What a migration does after the result of a step of its transaction: it goes on, or it
/// rolls the transaction back and fails with what is said of the step.
pub open spec fn after_step(
    s: MigrationRunView,
    result: Result<(), String>,
    stage: MigrationStage,
    next: MigrationOperationView,
) -> (MigrationRunView, MigrationOperationView) {
    match result {
        Ok(_) => (s, next),
        Err(e) => (
            failed_run(
                s,
                if rebuilds(s.version) {
                    e@
                } else {
                    stage_error(stage, s.version, e@)
                },
            ),
            MigrationOperationView::RollBack,
        ),
    }
}

/// What a migration does where a step outside its transaction failed, or goes on.
pub open spec fn after_setting(
    s: MigrationRunView,
    result: Result<(), String>,
    next: MigrationOperationView,
) -> (MigrationRunView, MigrationOperationView) {
    match result {
        Ok(_) => (s, next),
        Err(e) => (s, MigrationOperationView::Fail(e@)),
    }
}

/// What a migration does after an event. The migration that rebuilds a table switches the
/// checks of references off before its transaction, checks the references within it, and
/// restores the settings of the connection in any case; an error of restoring them comes first.
pub open spec fn migration_step(s: MigrationRunView, event: MigrationEvent) -> (
    MigrationRunView,
    MigrationOperationView,
) {
    match event {
        MigrationEvent::Begin => (
            s,
            if rebuilds(s.version) {
                MigrationOperationView::ReadSettings
            } else {
                MigrationOperationView::Begin
            },
        ),
        MigrationEvent::SettingsRead(r) => after_setting(s, r, MigrationOperationView::SwitchOff),
        MigrationEvent::SwitchedOff(r) => after_setting(s, r, MigrationOperationView::Begin),
        MigrationEvent::Begun(Ok(_)) => (s, MigrationOperationView::RunScript),
        MigrationEvent::Begun(Err(e)) => if rebuilds(s.version) {
            (failed_run(s, e@), MigrationOperationView::RestoreAltering)
        } else {
            (
                s,
                MigrationOperationView::Fail(stage_error(MigrationStage::Begin, s.version, e@)),
            )
        },
        MigrationEvent::Ran(r) => after_step(
            s,
            r,
            MigrationStage::Run,
            if rebuilds(s.version) {
                MigrationOperationView::CheckReferences
            } else {
                MigrationOperationView::EnterVersion
            },
        ),
        MigrationEvent::Checked(Ok(false)) => (s, MigrationOperationView::EnterVersion),
        MigrationEvent::Checked(Ok(true)) => (
            failed_run(s, "v22 foreign key validation failed"@),
            MigrationOperationView::RollBack,
        ),
        MigrationEvent::Checked(Err(e)) => (
            failed_run(s, e@),
            MigrationOperationView::RollBack,
        ),
        MigrationEvent::Entered(r) => after_step(
            s,
            r,
            MigrationStage::Run,
            MigrationOperationView::Commit,
        ),
        MigrationEvent::Committed(Ok(_)) => (
            s,
            if rebuilds(s.version) {
                MigrationOperationView::RestoreAltering
            } else {
                MigrationOperationView::Finish
            },
        ),
        MigrationEvent::Committed(Err(e)) => if rebuilds(s.version) {
            (failed_run(s, e@), MigrationOperationView::RollBack)
        } else {
            (
                s,
                MigrationOperationView::Fail(stage_error(MigrationStage::Commit, s.version, e@)),
            )
        },
        MigrationEvent::RolledBack => (
            s,
            if rebuilds(s.version) {
                MigrationOperationView::RestoreAltering
            } else {
                finished_run(s.failure)
            },
        ),
        MigrationEvent::AlteringRestored(r) => (
            MigrationRunView {
                restoring: match r {
                    Ok(_) => s.restoring,
                    Err(e) => Some(e@),
                },
                ..s
            },
            MigrationOperationView::RestoreChecks,
        ),
        MigrationEvent::ChecksRestored(r) => (
            s,
            if s.restoring is Some {
                MigrationOperationView::Fail(s.restoring->0)
            } else {
                match (r, s.failure) {
                    (Err(e), _) => MigrationOperationView::Fail(e@),
                    (Ok(_), Some(e)) => MigrationOperationView::Fail(
                        "执行 v22 SQLite 迁移失败: "@ + e,
                    ),
                    (Ok(_), None) => MigrationOperationView::Finish,
                }
            },
        ),
    }
}

/// How a migration ends whose transaction is over.
pub open spec fn finished_run(failure: Option<Seq<char>>) -> MigrationOperationView {
    match failure {
        Some(e) => MigrationOperationView::Fail(e),
        None => MigrationOperationView::Finish,
    }
}

fn step_failed(run: &mut MigrationRun, stage: MigrationStage, error: String) -> (r:
    MigrationOperation)
    ensures
        final(run)@ == after_step(old(run)@, Err(error), stage, MigrationOperationView::Commit).0,
        r@ == MigrationOperationView::RollBack,
{
    run.failure = Some(
        if run.version == REBUILD_VERSION {
            error
        } else {
            migration_error(stage, run.version, error.as_str())
        },
    );
    MigrationOperation::RollBack
}

fn setting_result(result: Result<(), String>, next: MigrationOperation) -> (r: MigrationOperation)
    ensures
        r@ == match result {
            Ok(_) => next@,
            Err(e) => MigrationOperationView::Fail(e@),
        },
{
    match result {
        Ok(_) => next,
        Err(e) => MigrationOperation::Fail(e),
    }
}

/// Decides what a migration does after an event.
pub fn run_migration(run: &mut MigrationRun, event: MigrationEvent) -> (r: MigrationOperation)
    ensures
        (final(run)@, r@) == migration_step(old(run)@, event),
{
    let rebuilding = run.version == REBUILD_VERSION;
    match event {
        MigrationEvent::Begin => if rebuilding {
            MigrationOperation::ReadSettings
        } else {
            MigrationOperation::Begin
        },
        MigrationEvent::SettingsRead(r) => setting_result(r, MigrationOperation::SwitchOff),
        MigrationEvent::SwitchedOff(r) => setting_result(r, MigrationOperation::Begin),
        MigrationEvent::Begun(Ok(_)) => MigrationOperation::RunScript,
        MigrationEvent::Begun(Err(e)) => if rebuilding {
            run.failure = Some(e);
            MigrationOperation::RestoreAltering
        } else {
            MigrationOperation::Fail(
                migration_error(MigrationStage::Begin, run.version, e.as_str()),
            )
        },
        MigrationEvent::Ran(Ok(_)) => if rebuilding {
            MigrationOperation::CheckReferences
        } else {
            MigrationOperation::EnterVersion
        },
        MigrationEvent::Ran(Err(e)) => step_failed(run, MigrationStage::Run, e),
        MigrationEvent::Checked(Ok(invalid)) => if invalid {
            run.failure = Some(owned("v22 foreign key validation failed"));
            MigrationOperation::RollBack
        } else {
            MigrationOperation::EnterVersion
        },
        MigrationEvent::Checked(Err(e)) => {
            run.failure = Some(e);
            MigrationOperation::RollBack
        },
        MigrationEvent::Entered(Ok(_)) => MigrationOperation::Commit,
        MigrationEvent::Entered(Err(e)) => step_failed(run, MigrationStage::Run, e),
        MigrationEvent::Committed(Ok(_)) => if rebuilding {
            MigrationOperation::RestoreAltering
        } else {
            MigrationOperation::Finish
        },
        MigrationEvent::Committed(Err(e)) => if rebuilding {
            run.failure = Some(e);
            MigrationOperation::RollBack
        } else {
            MigrationOperation::Fail(
                migration_error(MigrationStage::Commit, run.version, e.as_str()),
            )
        },
        MigrationEvent::RolledBack => if rebuilding {
            MigrationOperation::RestoreAltering
        } else {
            match &run.failure {
                Some(e) => MigrationOperation::Fail(e.clone()),
                None => MigrationOperation::Finish,
            }
        },
        MigrationEvent::AlteringRestored(r) => {
            match r {
                Ok(_) => {},
                Err(e) => run.restoring = Some(e),
            }
            MigrationOperation::RestoreChecks
        },
        MigrationEvent::ChecksRestored(r) => match (&run.restoring, r, &run.failure) {
            (Some(e), _, _) => MigrationOperation::Fail(e.clone()),
            (None, Err(e), _) => MigrationOperation::Fail(e),
            (None, Ok(_), Some(e)) => MigrationOperation::Fail(
                concat2("执行 v22 SQLite 迁移失败: ", e.as_str()),
            ),
            (None, Ok(_), None) => MigrationOperation::Finish,
        },
    }
}

/// What a transaction or a database holds: its version, and the migrations whose scripts made
/// its schema, in order.
pub struct SchemaView {
    pub version: i64,
    pub applied: Seq<i64>,
}

/// A database as far as migrations see it: what is committed, what the open transaction holds,
/// where there is one, and whether the checks of references are switched off.
pub struct DatabaseView {
    pub stored: SchemaView,
    pub open: Option<SchemaView>,
    pub unchecked: bool,
}

/// How the operations of a migration go, as far as they come to be carried out. `left` is what
/// a script that failed leaves in the open transaction.
pub struct MigrationAnswers {
    pub settings: Result<(), String>,
    pub switched: Result<(), String>,
    pub begun: Result<(), String>,
    pub ran: Result<(), String>,
    pub left: SchemaView,
    pub checked: Result<bool, String>,
    pub entered: Result<(), String>,
    pub committed: Result<(), String>,
    pub altering: Result<(), String>,
    pub checks: Result<(), String>,
}

/// What carrying out an operation makes of a database, and the event that it gives.
pub open spec fn carried_out(
    d: DatabaseView,
    version: i64,
    operation: MigrationOperationView,
    a: MigrationAnswers,
) -> (DatabaseView, MigrationEvent) {
    match operation {
        MigrationOperationView::ReadSettings => (d, MigrationEvent::SettingsRead(a.settings)),
        MigrationOperationView::SwitchOff => (
            DatabaseView { unchecked: d.unchecked || a.switched is Ok, ..d },
            MigrationEvent::SwitchedOff(a.switched),
        ),
        MigrationOperationView::Begin => (
            DatabaseView {
                open: if a.begun is Ok {
                    Some(d.stored)
                } else {
                    d.open
                },
                ..d
            },
            MigrationEvent::Begun(a.begun),
        ),
        MigrationOperationView::RunScript => (
            DatabaseView {
                open: if a.ran is Ok {
                    Some(
                        SchemaView {
                            version: d.open->0.version,
                            applied: d.open->0.applied.push(version),
                        },
                    )
                } else {
                    Some(a.left)
                },
                ..d
            },
            MigrationEvent::Ran(a.ran),
        ),
        MigrationOperationView::CheckReferences => (d, MigrationEvent::Checked(a.checked)),
        MigrationOperationView::EnterVersion => (
            DatabaseView {
                open: if a.entered is Ok {
                    Some(SchemaView { version, ..d.open->0 })
                } else {
                    d.open
                },
                ..d
            },
            MigrationEvent::Entered(a.entered),
        ),
        MigrationOperationView::Commit => (
            if a.committed is Ok {
                DatabaseView { stored: d.open->0, open: None, ..d }
            } else {
                d
            },
            MigrationEvent::Committed(a.committed),
        ),
        MigrationOperationView::RollBack => (
            DatabaseView { open: None, ..d },
            MigrationEvent::RolledBack,
        ),
        MigrationOperationView::RestoreAltering => (d, MigrationEvent::AlteringRestored(a.altering)),
        MigrationOperationView::RestoreChecks => (
            DatabaseView { unchecked: d.unchecked && a.checks is Err, ..d },
            MigrationEvent::ChecksRestored(a.checks),
        ),
        _ => (d, MigrationEvent::Begin),
    }
}

/// What becomes of a database in the rest of a migration, and the error of the migration, where
/// it has one: `run_migration` says what follows each event. No migration takes more than
/// `steps` operations.
pub open spec fn migration_course(
    d: DatabaseView,
    s: MigrationRunView,
    event: MigrationEvent,
    a: MigrationAnswers,
    steps: nat,
) -> (DatabaseView, Option<Seq<char>>)
    decreases steps,
{
    let (next, operation) = migration_step(s, event);
    match operation {
        MigrationOperationView::Finish => (d, None),
        MigrationOperationView::Fail(e) => (d, Some(e)),
        _ => if steps == 0 {
            (d, None)
        } else {
            let (after, answer) = carried_out(d, s.version, operation, a);
            migration_course(after, next, answer, a, (steps - 1) as nat)
        },
    }
}

/// What becomes of a database in one migration, and the error of the migration, where it has
/// one.
pub open spec fn one_migration(d: DatabaseView, version: i64, a: MigrationAnswers) -> (
    DatabaseView,
    Option<Seq<char>>,
) {
    migration_course(d, fresh_run(version), MigrationEvent::Begin, a, 10)
}

/// What a database stores once a migration was committed.
pub open spec fn with_migration(s: SchemaView, version: i64) -> SchemaView {
    SchemaView { version, applied: s.applied.push(version) }
}

/// A migration is carried out as a whole or not at all, also the one that rebuilds a table:
/// without an error the database has its version and its schema, no transaction is open and the
/// references are checked again. With an error the database has the version and schema that it
/// had, unless the migration was committed and only restoring the settings failed.
pub proof fn migration_is_all_or_nothing(d: DatabaseView, version: i64, a: MigrationAnswers)
    requires
        d.open is None,
        !d.unchecked,
    ensures
        ({
            let (after, error) = one_migration(d, version, a);
            &&& error is None ==> after == (DatabaseView {
                stored: with_migration(d.stored, version),
                open: None,
                unchecked: false,
            })
            &&& error is Some ==> after.stored == d.stored || (rebuilds(version) && after.stored
                == with_migration(d.stored, version) && (a.altering is Err || a.checks is Err))
            &&& after.unchecked ==> rebuilds(version) && a.checks is Err
        }),
{
    reveal_with_fuel(migration_course, 11);
}

/// What is to be done after a migration.
#[derive(Debug)]
pub enum NextMigration {
    /// Run the migration of this version.
    Run(i64),
    /// All migrations are done.
    Finish,
    /// Stop with this text.
    Fail(String),
}

/// Decides what follows: the migrations that are due run one after the other, until one fails.
/// `done` of them were run, and `last` is how the last one went.
pub fn next_migration(versions: &Vec<i64>, done: usize, last: Result<(), String>) -> (r:
    NextMigration)
    ensures
        match last {
            Err(e) => r == NextMigration::Fail(e),
            Ok(_) => r == if done < versions.len() {
                NextMigration::Run(versions@[done as int])
            } else {
                NextMigration::Finish
            },
        },
{
    match last {
        Err(e) => NextMigration::Fail(e),
        Ok(_) => if done < versions.len() {
            NextMigration::Run(versions[done])
        } else {
            NextMigration::Finish
        },
    }
}

/// What becomes of a database when migrations are run one after the other until one fails, and
/// the error of that one.
pub open spec fn migrated(d: DatabaseView, due: Seq<i64>, answers: Seq<MigrationAnswers>) -> (
    DatabaseView,
    Option<Seq<char>>,
)
    decreases due.len(),
{
    if due.len() == 0 {
        (d, None)
    } else {
        let (after, error) = one_migration(d, due[0], answers[0]);
        if error is Some {
            (after, error)
        } else {
            migrated(after, due.skip(1), answers.skip(1))
        }
    }
}

/// What becomes of a database that is brought to the present version, and the error of that,
/// where it has one.
pub open spec fn brought_to_present(d: DatabaseView, answers: Seq<MigrationAnswers>) -> (
    DatabaseView,
    Option<Seq<char>>,
) {
    if d.stored.version > SCHEMA_VERSION {
        (d, Some(newer_error(d.stored.version)))
    } else {
        migrated(d, missing_versions(d.stored.version), answers)
    }
}

/// What a database stores after the first `k` migrations that were due.
pub open spec fn with_first(s: SchemaView, k: int) -> SchemaView {
    if k <= 0 {
        s
    } else {
        SchemaView {
            version: missing_versions(s.version)[k - 1],
            applied: s.applied + missing_versions(s.version).take(k),
        }
    }
}

/// Bringing a database to the present version. One of a later version is refused and left as it
/// is. Without an error the database has the present version, with the schemas of all
/// migrations that were due, and doing it again succeeds and changes nothing. With an error the
/// database has the version and the schema of the last migration that was committed as a whole,
/// the `k`th of those that were due, or those it had. `again` are the answers of a second time.
pub proof fn database_is_brought_to_the_present(
    d: DatabaseView,
    answers: Seq<MigrationAnswers>,
    again: Seq<MigrationAnswers>,
) -> (k: int)
    requires
        d.open is None,
        !d.unchecked,
    ensures
        ({
            let (after, error) = brought_to_present(d, answers);
            let due = missing_versions(d.stored.version);
            &&& d.stored.version > SCHEMA_VERSION ==> after == d && error == Some(
                newer_error(d.stored.version),
            )
            &&& 0 <= k <= due.len()
            &&& after.stored == with_first(d.stored, k)
            &&& error is None ==> k == due.len() && after.stored.version == SCHEMA_VERSION
                && after.stored.applied == d.stored.applied + due && brought_to_present(
                after,
                again,
            ) == (after, None::<Seq<char>>)
        }),
    decreases SCHEMA_VERSION - reached(d.stored.version),
{
    let due = missing_versions(d.stored.version);
    if d.stored.version > SCHEMA_VERSION {
        0
    } else if due.len() == 0 {
        assert(d.stored.applied + due =~= d.stored.applied);
        0
    } else {
        let (after, error) = one_migration(d, due[0], answers[0]);
        migration_is_all_or_nothing(d, due[0], answers[0]);
        assert(due.take(1) =~= seq![due[0]]);
        assert(d.stored.applied + due.take(1) =~= d.stored.applied.push(due[0]));
        assert(with_first(d.stored, 1) == with_migration(d.stored, due[0]));
        if error is Some {
            if after.stored == d.stored {
                0
            } else {
                1
            }
        } else {
            let rest = missing_versions(due[0]);
            assert(rest =~= due.skip(1));
            let k = database_is_brought_to_the_present(after, answers.skip(1), again);
            let end = brought_to_present(after, answers.skip(1)).0;
            assert(brought_to_present(d, answers) == brought_to_present(after, answers.skip(1)));
            if k > 0 {
                assert(rest[k - 1] == due[k]);
                assert(d.stored.applied.push(due[0]) + rest.take(k) =~= d.stored.applied + due.take(
                    k + 1,
                ));
            }
            assert(due.take(due.len() as int) =~= due);
            k + 1
        }
    }
}

/// What is to be done to a database that was opened.
#[derive(Debug)]
pub enum MigrationAction {
    /// Make a backup first.
    BackUp,
    /// Run these migrations.
    Run(Vec<i64>),
    /// Leave the database alone.
    Refuse(String),
}

/// Whether a database is backed up before it is migrated: one that was there before and is of
/// an earlier version.
pub open spec fn needs_backup(existed: bool, current: i64) -> bool {
    existed && current < SCHEMA_VERSION
}

/// Decides what is to be done to a database that was opened; `backup` is how the backup went,
/// once it was made.
pub fn migrate_with_backup(existed: bool, current: i64, backup: Option<Result<(), String>>) -> (r:
    MigrationAction)
    ensures
        if needs_backup(existed, current) && backup is None {
            r is BackUp
        } else if needs_backup(existed, current) && backup->0 is Err {
            r matches MigrationAction::Refuse(e) && e@ == backup->0->Err_0@
        } else if current > SCHEMA_VERSION {
            r matches MigrationAction::Refuse(e) && e@ == newer_error(current)
        } else {
            r matches MigrationAction::Run(v) && v@ == missing_versions(current)
        },
{
    if existed && current < SCHEMA_VERSION {
        match backup {
            None => return MigrationAction::BackUp,
            Some(Err(e)) => return MigrationAction::Refuse(e),
            Some(Ok(_)) => {},
        }
    }
    match migrate(current) {
        Ok(v) => MigrationAction::Run(v),
        Err(e) => MigrationAction::Refuse(e),
    }
}

// ---------------------------------------------------------------------------
// Backups
// ---------------------------------------------------------------------------

/// The directory of the backups of a database; `parent` is the directory of the database.
pub fn backup_directory(parent: Option<&Vec<String>>) -> (r: Result<Vec<String>, String>)
    ensures
        match parent {
            Some(p) => r matches Ok(v) && texts_view(v@) == texts_view(p@).push("backups"@),
            None => r matches Err(e) && e@ == "SQLite 数据库路径缺少父目录，无法创建迁移前备份"@,
        },
{
    match parent {
        Some(p) => {
            let mut out: Vec<String> = Vec::new();
            let mut i: usize = 0;
            while i < p.len()
                invariant
                    i <= p.len(),
                    out.len() == i,
                    forall|j: int| 0 <= j < i ==> (#[trigger] out@[j])@ == p@[j]@,
                decreases p.len() - i,
            {
                out.push(p[i].clone());
                i += 1;
            }
            out.push(owned("backups"));
            assert(texts_view(out@) =~= texts_view(p@).push("backups"@));
            Ok(out)
        },
        None => Err(owned("SQLite 数据库路径缺少父目录，无法创建迁移前备份")),
    }
}

/// The beginning of the names of the backups of a database; `stem` is its name without the
/// extension.
pub fn backup_prefix(stem: Option<&str>) -> (r: Result<String, String>)
    ensures
        match stem {
            Some(s) => if s@.len() > 0 {
                r matches Ok(p) && p@ == s@ + "-pre-migration-v"@
            } else {
                r matches Err(e) && e@ == "SQLite 数据库文件名无效，无法创建迁移前备份"@
            },
            None => r matches Err(e) && e@ == "SQLite 数据库文件名无效，无法创建迁移前备份"@,
        },
{
    match stem {
        Some(s) => if !s.is_empty() {
            Ok(concat2(s, "-pre-migration-v"))
        } else {
            Err(owned("SQLite 数据库文件名无效，无法创建迁移前备份"))
        },
        None => Err(owned("SQLite 数据库文件名无效，无法创建迁移前备份")),
    }
}

/// The name of a backup: of which version the database was, when it was made, and an
/// identifier.
pub open spec fn backup_name(
    prefix: Seq<char>,
    version: int,
    timestamp: nat,
    id: Seq<char>,
) -> Seq<char> {
    prefix + decimal_int(version) + "-"@ + decimal(timestamp) + "-"@ + id + ".sqlite"@
}

/// The name of a backup.
pub fn backup_file_name(prefix: &str, version: i64, timestamp: u128, id: &str) -> (r: String)
    ensures
        r@ == backup_name(prefix@, version as int, timestamp as nat, id@),
{
    let mut out = owned(prefix);
    out.append(decimal_i64(version).as_str());
    out.append("-");
    out.append(decimal_u128(timestamp).as_str());
    out.append("-");
    out.append(id);
    out.append(".sqlite");
    out
}

/// Whether a text is an integer of sixty-four bits with an optional sign.
pub open spec fn is_i64_text(s: Seq<char>) -> bool {
    if s.len() > 0 && s[0] == '-' {
        let d = s.subrange(1, s.len() as int);
        all_digits(d) && digits_value(d) <= 0x8000_0000_0000_0000
    } else {
        parse_unsigned(s, i64::MAX as nat) is Some
    }
}

fn i64_text(s: &str) -> (r: bool)
    ensures
        r == is_i64_text(s@),
{
    let cs = chars_of(s);
    if cs.len() > 0 && cs[0] == '-' {
        if cs.len() > 1 && cs[1] == '+' {
            proof {
                let d = s@.subrange(1, s@.len() as int);
                assert(d[0] == '+');
                assert(!crate::text::is_digit(d[0]));
            }
            return false;
        }
        let rest = string_between(&cs, 1, cs.len());
        proof {
            let d = rest@;
            if d.len() > 0 {
                assert(d[0] == cs@[1]);
            }
            assert(crate::text::unsigned_digits(d) == d);
        }
        let found: Option<u128> = parse_u128_upto(rest.as_str(), 0x8000_0000_0000_0000u128);
        found.is_some()
    } else {
        let found: Option<u128> = parse_u128_upto(s, 0x7fff_ffff_ffff_ffffu128);
        found.is_some()
    }
}

/// The time in the name of a backup, where it is one.
pub open spec fn backup_time(name: Seq<char>, prefix: Seq<char>) -> Option<nat> {
    if !begins_with(name, prefix) {
        None
    } else {
        let rest = name.subrange(prefix.len() as int, name.len() as int);
        if !finishes_with(rest, ".sqlite"@) {
            None
        } else {
            let body = rest.take(rest.len() - 7);
            let n = body.len() - 37;
            if n < 0 || body[n] != '-' || !is_hyphenated_uuid(
                body.subrange(n + 1, body.len() as int),
            ) {
                None
            } else {
                match rsplit_once_at(body.take(n), '-') {
                    None => None,
                    Some(p) => if is_i64_text(p.0) {
                        parse_unsigned(p.1, u128::MAX as nat)
                    } else {
                        None
                    },
                }
            }
        }
    }
}

/// Reads the time in the name of a backup.
pub fn backup_timestamp(name: &str, prefix: &str) -> (r: Result<u128, String>)
    ensures
        match backup_time(name@, prefix@) {
            Some(t) => r matches Ok(v) && v == t,
            None => r matches Err(e) && e@ == "SQLite 迁移前备份文件名无效"@,
        },
{
    proof {
        reveal_strlit(".sqlite");
        assert(".sqlite"@.len() == 7);
    }
    let cs = chars_of(name);
    let start: usize = chars_of(prefix).len();
    if !starts_with(name, prefix) {
        return Err(owned("SQLite 迁移前备份文件名无效"));
    }
    let rest = string_between(&cs, start, cs.len());
    if !ends_with(rest.as_str(), ".sqlite") {
        return Err(owned("SQLite 迁移前备份文件名无效"));
    }
    let ghost body = rest@.take(rest@.len() - 7);
    let end: usize = cs.len() - 7;
    if end - start < 37 {
        return Err(owned("SQLite 迁移前备份文件名无效"));
    }
    let dash: usize = end - 37;
    assert(body[body.len() - 37] == cs@[dash as int]);
    if cs[dash] != '-' {
        return Err(owned("SQLite 迁移前备份文件名无效"));
    }
    let id = string_between(&cs, dash + 1, end);
    assert(id@ =~= body.subrange(body.len() - 36, body.len() as int));
    if !parse_uuid(id.as_str()) {
        return Err(owned("SQLite 迁移前备份文件名无效"));
    }
    let head = string_between(&cs, start, dash);
    assert(head@ =~= body.take(body.len() - 37));
    let (version, timestamp) = match rsplit_once(head.as_str(), '-') {
        Some(p) => p,
        None => return Err(owned("SQLite 迁移前备份文件名无效")),
    };
    if !i64_text(version.as_str()) {
        return Err(owned("SQLite 迁移前备份文件名无效"));
    }
    let found: Option<u128> = parse_u128_upto(timestamp.as_str(), u128::MAX);
    match found {
        Some(t) => Ok(t),
        None => Err(owned("SQLite 迁移前备份文件名无效")),
    }
}

/// A backup by its time and its name.
pub type BackupEntry = (nat, Seq<char>);

/// Whether a file is a backup by the ends of its name.
pub open spec fn looks_like_backup(name: Seq<char>, prefix: Seq<char>) -> bool {
    begins_with(name, prefix) && finishes_with(name, ".sqlite"@)
}

/// The backups among files; nothing where one that looks like a backup has no time.
pub open spec fn backups_among(names: Seq<Seq<char>>, prefix: Seq<char>) -> Option<Seq<BackupEntry>>
    decreases names.len(),
{
    if names.len() == 0 {
        Some(Seq::empty())
    } else {
        match backups_among(names.drop_last(), prefix) {
            None => None,
            Some(before) => if !looks_like_backup(names.last(), prefix) {
                Some(before)
            } else {
                match backup_time(names.last(), prefix) {
                    None => None,
                    Some(t) => Some(before.push((t, names.last()))),
                }
            },
        }
    }
}

/// Whether a backup comes before another: the later one first, then by name from the end.
pub open spec fn backup_before() -> spec_fn(BackupEntry, BackupEntry) -> bool {
    |a: BackupEntry, b: BackupEntry| a.0 > b.0 || a.0 == b.0 && precedes(b.1, a.1)
}

/// The views of backups.
pub open spec fn backups_view(v: Seq<(u128, String)>) -> Seq<BackupEntry> {
    v.map_values(|e: (u128, String)| (e.0 as nat, e.1@))
}

/// The names of backups.
pub open spec fn backup_names(v: Seq<BackupEntry>) -> Seq<Seq<char>> {
    v.map_values(|e: BackupEntry| e.1)
}

fn enter_backup(list: &mut Vec<(u128, String)>, time: u128, name: String)
    ensures
        backups_view(final(list)@) == insert_ordered(
            backups_view(old(list)@),
            (time as nat, name@),
            backup_before(),
        ),
{
    let ghost before = backups_view(list@);
    let ghost entry = (time as nat, name@);
    let mut k: usize = list.len();
    while k > 0 && (time > list[k - 1].0 || (time == list[k - 1].0 && text_precedes(
        list[k - 1].1.as_str(),
        name.as_str(),
    )))
        invariant
            k <= list.len(),
            before == backups_view(list@),
            entry == (time as nat, name@),
            forall|i: int| k <= i < list.len() ==> backup_before()(entry, #[trigger] before[i]),
        decreases k,
    {
        k -= 1;
    }
    proof {
        lemma_insert_ordered(before, entry, backup_before(), k as int);
    }
    list.insert(k, (time, name));
    assert(backups_view(list@) =~= before.insert(k as int, entry));
}

proof fn lemma_backups_fail(names: Seq<Seq<char>>, prefix: Seq<char>, k: int)
    requires
        0 <= k <= names.len(),
        backups_among(names.take(k), prefix) is None,
    ensures
        backups_among(names, prefix) is None,
    decreases names.len() - k,
{
    if k == names.len() {
        assert(names.take(k) =~= names);
    } else {
        assert(names.take(k + 1).drop_last() =~= names.take(k));
        lemma_backups_fail(names, prefix, k + 1);
    }
}

/// Lists the backups of a database among the files of their directory, the latest first.
pub fn backup_files(names: &Vec<String>, prefix: &str) -> (r: Result<Vec<String>, String>)
    ensures
        match backups_among(texts_view(names@), prefix@) {
            Some(found) => r matches Ok(v) && texts_view(v@) == backup_names(
                sort_ordered(found, backup_before()),
            ),
            None => r matches Err(e) && e@ == "SQLite 迁移前备份文件名无效"@,
        },
{
    let ghost views = texts_view(names@);
    let mut list: Vec<(u128, String)> = Vec::new();
    let mut i: usize = 0;
    assert(views.take(0) =~= Seq::<Seq<char>>::empty());
    assert(backups_view(list@) =~= sort_ordered(Seq::<BackupEntry>::empty(), backup_before()));
    while i < names.len()
        invariant
            i <= names.len(),
            views == texts_view(names@),
            backups_among(views.take(i as int), prefix@) is Some,
            backups_view(list@) == sort_ordered(
                backups_among(views.take(i as int), prefix@)->0,
                backup_before(),
            ),
        decreases names.len() - i,
    {
        let ghost found = backups_among(views.take(i as int), prefix@)->0;
        proof {
            assert(views.take(i + 1).drop_last() =~= views.take(i as int));
            assert(views.take(i + 1).last() == names@[i as int]@);
        }
        let name = names[i].as_str();
        if starts_with(name, prefix) && ends_with(name, ".sqlite") {
            match backup_timestamp(name, prefix) {
                Ok(time) => {
                    proof {
                        assert(found.push((time as nat, name@)).drop_last() =~= found);
                    }
                    enter_backup(&mut list, time, owned(name));
                },
                Err(e) => {
                    proof {
                        lemma_backups_fail(views, prefix@, i + 1);
                    }
                    return Err(e);
                },
            }
        }
        i += 1;
    }
    assert(views.take(i as int) =~= views);
    let mut out: Vec<String> = Vec::new();
    let mut k: usize = 0;
    while k < list.len()
        invariant
            k <= list.len(),
            out.len() == k,
            forall|j: int| 0 <= j < k ==> (#[trigger] out@[j])@ == list@[j].1@,
        decreases list.len() - k,
    {
        out.push(list[k].1.clone());
        k += 1;
    }
    assert(texts_view(out@) =~= backup_names(backups_view(list@)));
    Ok(out)
}

/// The names behind the first three.
pub open spec fn beyond_retention(names: Seq<Seq<char>>) -> Seq<Seq<char>> {
    if names.len() > BACKUP_RETENTION_COUNT {
        names.subrange(BACKUP_RETENTION_COUNT as int, names.len() as int)
    } else {
        Seq::empty()
    }
}

/// Lists the backups that are to be removed: all but the latest three.
pub fn retain_recent_backups(names: &Vec<String>, prefix: &str) -> (r: Result<Vec<String>, String>)
    ensures
        match backups_among(texts_view(names@), prefix@) {
            Some(found) => r matches Ok(v) && texts_view(v@) == beyond_retention(
                backup_names(sort_ordered(found, backup_before())),
            ),
            None => r matches Err(e) && e@ == "SQLite 迁移前备份文件名无效"@,
        },
{
    let list = match backup_files(names, prefix) {
        Ok(list) => list,
        Err(e) => return Err(e),
    };
    let mut out: Vec<String> = Vec::new();
    let mut i: usize = BACKUP_RETENTION_COUNT;
    assert(texts_view(list@).len() == list.len());
    while i < list.len()
        invariant
            BACKUP_RETENTION_COUNT <= i,
            i <= list.len() || i == BACKUP_RETENTION_COUNT,
            out.len() == i - BACKUP_RETENTION_COUNT,
            forall|j: int|
                0 <= j < out.len() ==> (#[trigger] out@[j])@ == list@[j
                    + BACKUP_RETENTION_COUNT]@,
        decreases list.len() - i,
    {
        out.push(list[i].clone());
        i += 1;
    }
    assert(texts_view(out@) =~= beyond_retention(texts_view(list@)));
    Ok(out)
}

proof fn lemma_backup_order()
    ensures
        is_order_relation(backup_before()),
{
    let before = backup_before();
    assert forall|x: BackupEntry, y: BackupEntry| #[trigger] before(x, y) implies !before(y, x) by {
        crate::text::lemma_precedes_total(x.1, y.1);
    }
    assert forall|x: BackupEntry, y: BackupEntry, z: BackupEntry|
        #[trigger] before(x, y) && !(#[trigger] before(z, y)) implies before(x, z) by {
        crate::text::lemma_precedes_total(x.1, y.1);
        crate::text::lemma_precedes_total(y.1, z.1);
        if z.0 == y.0 && x.0 == y.0 {
            if z.1 != y.1 {
                crate::text::lemma_precedes_trans(z.1, y.1, x.1);
            }
        }
    }
}

/// The backups that stay are the latest: none that is removed is later than one that stays, and
/// sorting has neither lost nor added one.
pub proof fn latest_backups_stay(found: Seq<BackupEntry>)
    ensures
        ({
            let sorted = sort_ordered(found, backup_before());
            &&& sorted.to_multiset() == found.to_multiset()
            &&& forall|i: int, j: int|
                0 <= i < BACKUP_RETENTION_COUNT <= j < sorted.len() ==> (#[trigger] sorted[i]).0 >= (
                #[trigger] sorted[j]).0
        }),
{
    lemma_backup_order();
    sorting_orders(found, backup_before());
    let sorted = sort_ordered(found, backup_before());
    assert forall|i: int, j: int|
        0 <= i < BACKUP_RETENTION_COUNT <= j < sorted.len() implies (#[trigger] sorted[i]).0 >= (
    #[trigger] sorted[j]).0 by {
        assert(!backup_before()(sorted[j], sorted[i]));
    }
}

/// The time in the name that a backup is given is the time at which it was made.
pub proof fn backup_name_reads_back(prefix: Seq<char>, version: i64, timestamp: u128, id: Seq<char>)
    requires
        is_hyphenated_uuid(id),
    ensures
        backup_time(backup_name(prefix, version as int, timestamp as nat, id), prefix) == Some(
            timestamp as nat,
        ),
{
    reveal_strlit(".sqlite");
    reveal_strlit("-");
    let dash = "-"@;
    assert(dash =~= seq!['-']);
    let v = decimal_int(version as int);
    let t = decimal(timestamp as nat);
    let head = v + dash + t;
    let body = head + dash + id;
    let name = backup_name(prefix, version as int, timestamp as nat, id);
    assert(name =~= prefix + body + ".sqlite"@);
    let rest = name.subrange(prefix.len() as int, name.len() as int);
    assert(name.subrange(0, prefix.len() as int) =~= prefix);
    assert(rest =~= body + ".sqlite"@);
    assert(rest.subrange(rest.len() - 7, rest.len() as int) =~= ".sqlite"@);
    assert(rest.take(rest.len() - 7) =~= body);
    let n = body.len() - 37;
    assert(n == head.len());
    assert(body[n] == '-');
    assert(body.subrange(n + 1, body.len() as int) =~= id);
    assert(body.take(n) =~= head);
    crate::text::decimal_reads_back(timestamp as nat);
    assert forall|i: int| 0 <= i < t.len() implies #[trigger] t[i] != '-' by {
        assert(crate::text::is_digit(t[i]));
    }
    crate::text::lemma_rsplit_once(v, '-', t);
    crate::text::lemma_parse_digits(t, u128::MAX as nat);
    if version >= 0 {
        crate::text::decimal_reads_back(version as nat);
        assert(crate::text::is_digit(v[0]));
        crate::text::lemma_parse_digits(v, i64::MAX as nat);
    } else {
        let d = decimal((-version) as nat);
        crate::text::decimal_reads_back((-version) as nat);
        assert(v.subrange(1, v.len() as int) =~= d);
    }
}

/// How a step of a backup went.
#[derive(Debug, Clone, Copy, PartialEq, Eq, Structural)]
pub enum BackupStep {
    Done,
    More,
    Busy,
    Locked,
    Other,
}

/// What follows a step of a backup.
#[derive(Debug, Clone, Copy, PartialEq, Eq, Structural)]
pub enum BackupNext {
    Finish,
    Step,
    WaitAndStep,
}

/// Whether another step of a backup may be taken.
pub fn check_backup_time(expired: bool) -> (r: Result<(), String>)
    ensures
        r is Ok <==> !expired,
        r matches Err(e) ==> e@ == "SQLite 迁移前备份在 3 秒内未获得可用锁"@,
{
    if expired {
        Err(owned("SQLite 迁移前备份在 3 秒内未获得可用锁"))
    } else {
        Ok(())
    }
}

/// Decides what follows a step of a backup.
pub fn after_backup_step(step: BackupStep) -> (r: Result<BackupNext, String>)
    ensures
        match step {
            BackupStep::Done => r matches Ok(n) && n is Finish,
            BackupStep::More => r matches Ok(n) && n is Step,
            BackupStep::Busy | BackupStep::Locked => r matches Ok(n) && n is WaitAndStep,
            BackupStep::Other => r matches Err(e) && e@ == "SQLite Online Backup 返回了不支持的步骤状态"@,
        },
{
    match step {
        BackupStep::Done => Ok(BackupNext::Finish),
        BackupStep::More => Ok(BackupNext::Step),
        BackupStep::Busy | BackupStep::Locked => Ok(BackupNext::WaitAndStep),
        BackupStep::Other => Err(owned("SQLite Online Backup 返回了不支持的步骤状态")),
    }
}

/// Checks a backup before it is kept.
pub fn validate_backup(integrity: &str, version: i64, source_version: i64) -> (r: Result<
    (),
    String,
>)
    ensures
        if integrity@ != "ok"@ {
            r matches Err(e) && e@ == "SQLite 迁移前备份完整性校验未通过"@
        } else if version != source_version {
            r matches Err(e) && e@ == "SQLite 迁移前备份 schema 版本与源数据库不一致"@
        } else {
            r is Ok
        },
{
    if !same(integrity, "ok") {
        return Err(owned("SQLite 迁移前备份完整性校验未通过"));
    }
    if version != source_version {
        return Err(owned("SQLite 迁移前备份 schema 版本与源数据库不一致"));
    }
    Ok(())
}

} // verus!
