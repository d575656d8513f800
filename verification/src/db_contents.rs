//! What statements may do, what rows say and which backups stay.
use crate::db::{
    backup_name, backup_time, backups_among, beyond_retention, bind_size, cell_value,
    has_large_value, is_name_char, needs_backup, normalized, query_error, row_members, sql_value,
    strip_end, strip_start, table_word, word_behind, words, BackupEntry, SqlCell, SqlView,
};
use crate::json::{entered_member_is_found, json_text, lookup, other_members_stay, Json, JsonView};
use crate::outside::{base64_encoded, utf8_lossy};
use crate::text::{begins_with, byte_length, decimal, decimal_int, is_white, lowered, occurs_in};
use vstd::prelude::*;

verus! {

// ---------------------------------------------------------------------------
// Statements
// ---------------------------------------------------------------------------

/// Whether a word stands in a statement, between two spaces or at an end.
pub open spec fn holds_word(statement: Seq<char>, spaced: Seq<char>) -> bool {
    occurs_in(" "@ + statement + " "@, spaced)
}

/// A statement that may run is not too long, is one statement without a comment, and holds none
/// of the words that reach other tables, other files or the settings of the database. It reads
/// where it is to read, and else enters, changes or deletes; and it reads nothing besides.
pub proof fn accepted_statement_keeps_the_rules(query: Seq<char>, select: bool)
    requires
        query_error(query, select) is None,
    ensures
        ({
            let text = normalized(query);
            let s = lowered(text);
            &&& query.len() <= 8192 && text.len() > 0
            &&& !occurs_in(text, ";"@) && !occurs_in(text, "--"@) && !occurs_in(text, "/*"@)
            &&& !holds_word(s, " join "@)
            &&& !holds_word(s, " union "@)
            &&& !holds_word(s, " pragma "@)
            &&& !holds_word(s, " attach "@)
            &&& !holds_word(s, " detach "@)
            &&& !holds_word(s, " vacuum "@)
            &&& !holds_word(s, " reindex "@)
            &&& select ==> begins_with(s, "select "@)
            &&& !select ==> begins_with(s, "insert "@) || begins_with(s, "update "@) || begins_with(
                s,
                "delete "@,
            )
            &&& select ==> !occurs_in(s.subrange(7, s.len() as int), "select "@)
            &&& !select ==> !occurs_in(s, "select "@)
        }),
{
    reveal_strlit("select ");
    assert("select "@.len() == 7);
}

/// Whether a word stands directly behind the first occurrence of another.
pub open spec fn stands_behind(w: Seq<Seq<char>>, key: Seq<char>, word: Seq<char>, i: int) -> bool {
    &&& 0 <= i && i + 1 < w.len()
    &&& w[i] == key && w[i + 1] == word
    &&& forall|j: int| 0 <= j < i ==> #[trigger] w[j] != key
}

proof fn lemma_behind(w: Seq<Seq<char>>, key: Seq<char>) -> (i: int)
    requires
        word_behind(w, key) is Some,
    ensures
        stands_behind(w, key, word_behind(w, key)->0, i),
    decreases w.len(),
{
    if w[0] == key {
        0
    } else {
        let rest = w.subrange(1, w.len() as int);
        let k = lemma_behind(rest, key);
        assert forall|j: int| 0 <= j < k + 1 implies #[trigger] w[j] != key by {
            if j > 0 {
                assert(rest[j - 1] == w[j]);
            }
        }
        assert(rest[k] == w[k + 1] && rest[k + 1] == w[k + 2]);
        k + 1
    }
}

/// Whether a word is the name of one of the four open tables, with nothing around it that can
/// stand in a name.
pub open spec fn names_open_table(word: Seq<char>) -> bool {
    let name = strip_end(strip_start(word));
    name == "assets"@ || name == "tasks"@ || name == "settings"@ || name == "workflows"@
}

/// A statement that may run works on one of the four open tables: the one that stands behind
/// `from` where it reads or deletes, behind `into` where it enters, and first where it changes.
pub proof fn accepted_statement_works_on_an_open_table(query: Seq<char>, select: bool) -> (i: int)
    requires
        query_error(query, select) is None,
    ensures
        ({
            let s = lowered(normalized(query));
            let w = words(s);
            &&& 0 <= i && i + 1 < w.len()
            &&& names_open_table(w[i + 1])
            &&& select || begins_with(s, "delete "@) ==> stands_behind(w, "from"@, w[i + 1], i)
            &&& !select && begins_with(s, "update "@) && !begins_with(s, "delete "@) ==> i == 0
            &&& !select && !begins_with(s, "update "@) && !begins_with(s, "delete "@)
                ==> stands_behind(w, "into"@, w[i + 1], i)
        }),
{
    let s = lowered(normalized(query));
    let w = words(s);
    if select || begins_with(s, "delete "@) {
        lemma_behind(w, "from"@)
    } else if begins_with(s, "update "@) {
        0
    } else {
        lemma_behind(w, "into"@)
    }
}

/// A name stays as it is; quotes, commas and brackets around it are taken off.
pub proof fn names_are_freed_of_their_quotes(name: Seq<char>, c: char)
    requires
        name.len() > 0,
        is_name_char(name[0]),
        is_name_char(name.last()),
        !is_name_char(c),
    ensures
        strip_end(strip_start(name)) == name,
        strip_start(seq![c] + name) == strip_start(name),
        strip_end(name.push(c)) == strip_end(name),
{
    let front = seq![c] + name;
    assert(front.subrange(1, front.len() as int) =~= name);
    assert(name.push(c).drop_last() =~= name);
}

proof fn lemma_words_not_empty(s: Seq<char>)
    requires
        s.len() > 0,
        !is_white(s.last()),
    ensures
        words(s).len() > 0,
    decreases s.len(),
{
}

/// A text is cut into words at white space and nowhere else: the words on both sides of it are
/// those of the two parts, and a text without white space is one word.
pub proof fn words_are_cut_at_white_space(a: Seq<char>, c: char, b: Seq<char>)
    requires
        is_white(c),
    ensures
        words(a + seq![c] + b) == words(a) + words(b),
        b.len() > 0 && (forall|i: int| 0 <= i < b.len() ==> !is_white(#[trigger] b[i])) ==> words(b)
            == seq![b],
    decreases b.len(),
{
    let s = a + seq![c] + b;
    if b.len() == 0 {
        assert(s =~= a.push(c));
        assert(s.drop_last() =~= a);
        assert(words(a) + words(b) =~= words(a));
    } else {
        let rest = b.drop_last();
        words_are_cut_at_white_space(a, c, rest);
        assert(s.drop_last() =~= a + seq![c] + rest);
        assert(s.last() == b.last());
        if b.len() >= 2 {
            assert(s[s.len() - 2] == b[b.len() - 2]);
            assert(rest.last() == b[b.len() - 2]);
        } else {
            assert(s[s.len() - 2] == c);
        }
        let (x, y) = (words(a), words(rest));
        let d = b.last();
        if is_white(d) {
            assert(words(s) == x + y);
        } else if b.len() >= 2 && !is_white(b[b.len() - 2]) {
            lemma_words_not_empty(rest);
            assert((x + y).last() == y.last());
            assert((x + y).drop_last().push((x + y).last().push(d)) =~= x + y.drop_last().push(
                y.last().push(d),
            ));
        } else {
            assert((x + y).push(seq![d]) =~= x + y.push(seq![d]));
        }
        if forall|i: int| 0 <= i < b.len() ==> !is_white(#[trigger] b[i]) {
            assert forall|i: int| 0 <= i < rest.len() implies !is_white(#[trigger] rest[i]) by {
                assert(rest[i] == b[i]);
            }
            assert(!is_white(b[b.len() - 1]));
            if b.len() >= 2 {
                assert(!is_white(b[b.len() - 2]));
                assert(y == seq![rest]);
                assert(y.drop_last().push(y.last().push(d)) =~= seq![b]) by {
                    assert(rest.push(d) =~= b);
                }
            } else {
                assert(y.push(seq![d]) =~= seq![b]) by {
                    assert(seq![d] =~= b);
                }
            }
        }
    }
}

// ---------------------------------------------------------------------------
// Values and rows
// ---------------------------------------------------------------------------

/// A value is bound as what it is: a truth value as one or zero, a list or an object as its
/// text, an integer as long as the database has one of its size, and all else as it stands.
pub proof fn values_are_bound_as_they_are(j: JsonView)
    ensures
        match j {
            JsonView::Null => sql_value(j) is Null,
            JsonView::Bool(b) => sql_value(j) == SqlView::Integer(
                if b {
                    1
                } else {
                    0
                },
            ),
            JsonView::Int(i) => (i <= i64::MAX ==> sql_value(j) == SqlView::Integer(i)) && (i
                > i64::MAX ==> sql_value(j) == SqlView::Real(decimal_int(i))),
            JsonView::Float(s) => sql_value(j) == SqlView::Real(s),
            JsonView::Str(s) => sql_value(j) == SqlView::Text(s),
            _ => sql_value(j) == SqlView::Text(json_text(j)),
        },
{
}

/// Whether a value of a row is told as what it is.
pub open spec fn is_told(c: SqlCell, j: JsonView) -> bool {
    match c {
        SqlCell::Null => j is Null,
        SqlCell::Integer(i) => j == JsonView::Int(i as int),
        SqlCell::Real(Some(s)) => j == JsonView::Float(s@),
        SqlCell::Real(None) => j is Null,
        SqlCell::Text(b) => j == JsonView::Str(utf8_lossy(b@)),
        SqlCell::Blob(b) => j == JsonView::Str(base64_encoded(b@)),
    }
}

/// A row tells every column under its own name, with its own value, as long as no later column
/// has the same name; and it tells nothing else.
pub proof fn row_tells_every_column(names: Seq<Seq<char>>, cells: Seq<SqlCell>)
    requires
        names.len() == cells.len(),
    ensures
        forall|i: int|
            0 <= i < names.len() && is_last_of_its_name(names, i) ==> is_told_at(
                row_members(names, cells),
                #[trigger] names[i],
                cells[i],
            ),
        forall|k: Seq<char>| !names.contains(k) ==> #[trigger] lookup(
            row_members(names, cells),
            k,
        ) is None,
    decreases names.len(),
{
    let out = row_members(names, cells);
    if names.len() == 0 {
    } else {
        let n = names.len() - 1;
        let (a, b) = (names.drop_last(), cells.drop_last());
        row_tells_every_column(a, b);
        let rest = row_members(a, b);
        let (key, value) = (names.last(), cell_value(cells.last()));
        entered_member_is_found(rest, key, value);
        assert forall|i: int| 0 <= i < names.len() && is_last_of_its_name(names, i) implies is_told_at(
            out,
            #[trigger] names[i],
            cells[i],
        ) by {
            if i < n {
                assert(a[i] == names[i] && b[i] == cells[i]);
                assert(names[n] != names[i]);
                assert(is_last_of_its_name(a, i)) by {
                    assert forall|j: int| i < j < a.len() implies #[trigger] a[j] != a[i] by {
                        assert(names[j] != names[i]);
                    }
                }
                assert(is_told_at(rest, a[i], b[i]));
                other_members_stay(rest, key, value, names[i]);
            }
        }
        assert forall|k: Seq<char>| !names.contains(k) implies #[trigger] lookup(out, k) is None by {
            assert(names[n] != k);
            assert(!a.contains(k)) by {
                if a.contains(k) {
                    let i = choose|i: int| 0 <= i < a.len() && a[i] == k;
                    assert(names[i] == k);
                }
            }
            other_members_stay(rest, key, value, k);
        }
    }
}

/// Whether no later name is the same.
pub open spec fn is_last_of_its_name(names: Seq<Seq<char>>, i: int) -> bool {
    forall|j: int| i < j < names.len() ==> #[trigger] names[j] != names[i]
}

/// Whether members tell a value under a name.
pub open spec fn is_told_at(m: Seq<(Seq<char>, JsonView)>, name: Seq<char>, c: SqlCell) -> bool {
    lookup(m, name) is Some && is_told(c, lookup(m, name)->0)
}

// ---------------------------------------------------------------------------
// Backups
// ---------------------------------------------------------------------------

/// A database is backed up before it is changed just where it was there before and is of an
/// earlier version.
pub proof fn old_databases_are_backed_up(existed: bool, current: i64)
    ensures
        needs_backup(existed, current) <==> existed && current < 25,
{
}

/// Of the backups, the first three stay and all behind them are removed.
pub proof fn three_backups_stay(names: Seq<Seq<char>>)
    ensures
        ({
            let removed = beyond_retention(names);
            &&& names.len() <= 3 ==> removed.len() == 0
            &&& names.len() > 3 ==> removed.len() == names.len() - 3
            &&& forall|i: int| 0 <= i < removed.len() ==> #[trigger] removed[i] == names[i + 3]
        }),
{
}

/// Backups are found file by file, in order, by their own names and the times in them; a file
/// that does not look like a backup is passed over, and one that looks like a backup without
/// being one is not.
pub proof fn backups_are_found_file_by_file(
    names: Seq<Seq<char>>,
    name: Seq<char>,
    prefix: Seq<char>,
)
    requires
        backups_among(names, prefix) is Some,
    ensures
        ({
            let found = backups_among(names, prefix)->0;
            let looks = begins_with(name, prefix) && crate::text::finishes_with(name, ".sqlite"@);
            let after = backups_among(names.push(name), prefix);
            &&& !looks ==> after == Some(found)
            &&& looks && backup_time(name, prefix) is None ==> after is None
            &&& looks && backup_time(name, prefix) is Some ==> after == Some(
                found.push((backup_time(name, prefix)->0, name)),
            )
        }),
        backups_among(Seq::empty(), prefix) == Some(Seq::<BackupEntry>::empty()),
{
    assert(names.push(name).drop_last() =~= names);
}

/// A backup is named by the version it was made of, the time and an identifier.
pub proof fn backup_name_tells_version_and_time(
    prefix: Seq<char>,
    version: int,
    timestamp: nat,
    id: Seq<char>,
)
    ensures
        backup_name(prefix, version, timestamp, id) == prefix + decimal_int(version) + "-"@ + decimal(
            timestamp,
        ) + "-"@ + id + ".sqlite"@,
{
}

/// Values are refused just where one of them takes more than thirty-two mebibytes as a text; a
/// list or an object counts by its JSON.
pub proof fn large_values_are_refused(values: Seq<Json>)
    ensures
        has_large_value(values) <==> exists|i: int|
            0 <= i < values.len() && is_large((#[trigger] values[i])@),
{
    if has_large_value(values) {
        let i = choose|i: int|
            0 <= i < values.len() && bind_size((#[trigger] values[i])@) > 32 * 1024 * 1024;
        assert(is_large(values[i]@));
    }
    if exists|i: int| 0 <= i < values.len() && is_large((#[trigger] values[i])@) {
        let i = choose|i: int| 0 <= i < values.len() && is_large((#[trigger] values[i])@);
        assert(bind_size(values[i]@) > 32 * 1024 * 1024);
    }
}

/// Whether a value takes more than thirty-two mebibytes.
pub open spec fn is_large(j: JsonView) -> bool {
    match j {
        JsonView::Str(s) => byte_length(s) > 32 * 1024 * 1024,
        JsonView::Arr(_) | JsonView::Obj(_) => byte_length(json_text(j)) > 32 * 1024 * 1024,
        _ => false,
    }
}

/// A word of which nothing can stand in a name is taken off whole.
pub proof fn signs_alone_are_no_name(c: char)
    requires
        !is_name_char(c),
    ensures
        strip_start(seq![c]) == Seq::<char>::empty(),
        strip_end(seq![c]) == Seq::<char>::empty(),
{
    reveal_with_fuel(strip_start, 2);
    reveal_with_fuel(strip_end, 2);
    assert(seq![c].subrange(1, 1) =~= Seq::<char>::empty());
    assert(seq![c].drop_last() =~= Seq::<char>::empty());
}

/// The table of a statement is found where it stands: the second word of one that changes, and
/// the word behind `from` or `into` of the others.
pub proof fn table_is_found_where_it_stands(s: Seq<char>)
    ensures
        begins_with(s, "update "@) && !begins_with(s, "delete "@) && words(s).len() >= 2
            ==> table_word(s, false) == Some(words(s)[1]),
        begins_with(s, "delete "@) ==> table_word(s, false) == word_behind(words(s), "from"@),
        table_word(s, true) == word_behind(words(s), "from"@),
        begins_with(s, "insert "@) && !begins_with(s, "update "@) && !begins_with(s, "delete "@)
            ==> table_word(s, false) == word_behind(words(s), "into"@),
        forall|w: Seq<Seq<char>>, key: Seq<char>|
            w.len() >= 2 && w[0] == key ==> #[trigger] word_behind(w, key) == Some(w[1]),
{
}

} // verus!
